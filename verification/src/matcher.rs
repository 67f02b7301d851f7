//! Beacon matcher: does a record belong to the configured collar, and what
//! signal strength does it report?
//!
//! A record matches when its identifier contains the target identifier as a
//! substring and its signal field, with surrounding whitespace trimmed,
//! parses as a signed decimal integer. A matching identifier with a
//! malformed signal field fails open to "not the target": one bad line must
//! never abort a scan.

use vstd::prelude::*;
use crate::parser::AdvertisementRecord;
use crate::parser::RecordModel;

verus! {

/// `needle` occurs in `hay` as a contiguous substring.
pub open spec fn contains_seq(hay: Seq<u8>, needle: Seq<u8>) -> bool {
    exists|k: int|
        0 <= k && k + needle.len() <= hay.len() && #[trigger] hay.subrange(k, k + needle.len())
            == needle
}

/// Whether `hay[k..k + needle.len()]` equals `needle`.
fn match_at(hay: &[u8], needle: &[u8], k: usize) -> (r: bool)
    requires
        k + needle@.len() <= hay@.len(),
    ensures
        r == (hay@.subrange(k as int, k + needle@.len()) == needle@),
{
    let m = needle.len();
    let n = hay.len();
    let mut j: usize = 0;
    while j < m
        invariant
            j <= m == needle@.len(),
            k + m <= n == hay@.len(),
            forall|i: int| 0 <= i < j ==> hay@[k + i] == needle@[i],
        decreases m - j,
    {
        if hay[k + j] != needle[j] {
            proof {
                assert(hay@.subrange(k as int, k + needle@.len())[j as int] == hay@[k + j]);
            }
            return false;
        }
        j += 1;
    }
    proof {
        assert(hay@.subrange(k as int, k + needle@.len()) =~= needle@);
    }
    true
}

/// Substring search: whether `needle` occurs anywhere in `hay`.
pub fn contains_bytes(hay: &[u8], needle: &[u8]) -> (r: bool)
    ensures
        r == contains_seq(hay@, needle@),
{
    let n = hay.len();
    let m = needle.len();
    if m > n {
        return false;
    }
    if m == 0 {
        proof {
            assert(hay@.subrange(0, 0 + needle@.len() as int) =~= needle@);
        }
        return true;
    }
    let mut k: usize = 0;
    while k <= n - m
        invariant
            0 < m <= n == hay@.len(),
            m == needle@.len(),
            k <= n - m + 1,
            forall|kk: int|
                0 <= kk < k ==> #[trigger] hay@.subrange(kk, kk + needle@.len()) != needle@,
        decreases n - m + 1 - k,
    {
        if match_at(hay, needle, k) {
            return true;
        }
        k += 1;
    }
    false
}

/// The bytes the signal-field trim removes at either end: ASCII whitespace.
pub open spec fn is_space(b: u8) -> bool {
    b == 32 || b == 9 || b == 10 || b == 11 || b == 12 || b == 13
}

/// `s` with leading whitespace removed.
pub open spec fn trim_front(s: Seq<u8>) -> Seq<u8>
    decreases s.len(),
{
    if s.len() > 0 && is_space(s[0]) {
        trim_front(s.skip(1))
    } else {
        s
    }
}

/// `s` with trailing whitespace removed.
pub open spec fn trim_back(s: Seq<u8>) -> Seq<u8>
    decreases s.len(),
{
    if s.len() > 0 && is_space(s.last()) {
        trim_back(s.drop_last())
    } else {
        s
    }
}

/// `s` with whitespace removed at both ends.
pub open spec fn trim_spec(s: Seq<u8>) -> Seq<u8> {
    trim_back(trim_front(s))
}

/// When the first `a` bytes are whitespace and the byte after them (if any)
/// is not, the front trim removes exactly those `a` bytes.
proof fn lemma_trim_front_at(s: Seq<u8>, a: int)
    requires
        0 <= a <= s.len(),
        forall|j: int| 0 <= j < a ==> is_space(#[trigger] s[j]),
        a < s.len() ==> !is_space(s[a]),
    ensures
        trim_front(s) == s.skip(a),
    decreases a,
{
    if a == 0 {
        assert(s.skip(0) =~= s);
    } else {
        assert(is_space(s[0]));
        let t = s.skip(1);
        assert(forall|j: int| 0 <= j < a - 1 ==> #[trigger] t[j] == s[j + 1]);
        assert(a - 1 < t.len() ==> t[a - 1] == s[a]);
        lemma_trim_front_at(t, a - 1);
        assert(t.skip(a - 1) =~= s.skip(a));
    }
}

/// When every byte from `b` on is whitespace and the byte before `b` (if
/// any) is not, the back trim keeps exactly the first `b` bytes.
proof fn lemma_trim_back_at(s: Seq<u8>, b: int)
    requires
        0 <= b <= s.len(),
        forall|j: int| b <= j < s.len() ==> is_space(#[trigger] s[j]),
        b > 0 ==> !is_space(s[b - 1]),
    ensures
        trim_back(s) == s.take(b),
    decreases s.len(),
{
    if b == s.len() {
        if s.len() > 0 {
            assert(!is_space(s.last()));
        }
        assert(s.take(b) =~= s);
    } else {
        assert(is_space(s.last()));
        let t = s.drop_last();
        assert(forall|j: int| b <= j < t.len() ==> #[trigger] t[j] == s[j]);
        assert(b > 0 ==> t[b - 1] == s[b - 1]);
        lemma_trim_back_at(t, b);
        assert(t.take(b) =~= s.take(b));
    }
}

/// An ASCII decimal digit.
pub open spec fn is_digit(b: u8) -> bool {
    48 <= b <= 57
}

/// Every byte of `s` is a decimal digit.
pub open spec fn all_digits(s: Seq<u8>) -> bool {
    forall|i: int| 0 <= i < s.len() ==> is_digit(#[trigger] s[i])
}

/// The number the digit string `s` denotes in base ten.
pub open spec fn digits_val(s: Seq<u8>) -> int
    decreases s.len(),
{
    if s.len() == 0 {
        0
    } else {
        digits_val(s.drop_last()) * 10 + (s.last() - 48)
    }
}

/// `s` with one optional leading sign removed: the digit part of a signed
/// decimal literal.
pub open spec fn magnitude_digits(s: Seq<u8>) -> Seq<u8> {
    if s.len() > 0 && (s[0] == 43 || s[0] == 45) {
        s.skip(1)
    } else {
        s
    }
}

/// `s` is a signed decimal integer literal: an optional sign followed by
/// one or more digits and nothing else.
pub open spec fn is_int_literal(s: Seq<u8>) -> bool {
    magnitude_digits(s).len() > 0 && all_digits(magnitude_digits(s))
}

/// The signed value of the integer literal `s`.
pub open spec fn int_value(s: Seq<u8>) -> int {
    if s.len() > 0 && s[0] == 45 {
        -digits_val(magnitude_digits(s))
    } else {
        digits_val(magnitude_digits(s))
    }
}

/// `s` is an integer literal whose value fits a 32-bit signed integer.
pub open spec fn parses_to_i32(s: Seq<u8>) -> bool {
    is_int_literal(s) && i32::MIN as int <= int_value(s) <= i32::MAX as int
}

/// A digit string denotes a non-negative number.
proof fn lemma_digits_val_nonneg(s: Seq<u8>)
    requires
        all_digits(s),
    ensures
        digits_val(s) >= 0,
    decreases s.len(),
{
    if s.len() > 0 {
        let t = s.drop_last();
        assert(forall|i: int| 0 <= i < t.len() ==> #[trigger] t[i] == s[i]);
        lemma_digits_val_nonneg(t);
        assert(is_digit(s.last()));
    }
}

/// Dropping trailing digits never increases a digit string's value.
proof fn lemma_digits_val_prefix(s: Seq<u8>, k: int)
    requires
        all_digits(s),
        0 <= k <= s.len(),
    ensures
        digits_val(s.take(k)) <= digits_val(s),
    decreases s.len(),
{
    if k == s.len() {
        assert(s.take(k) =~= s);
    } else {
        let t = s.drop_last();
        assert(forall|i: int| 0 <= i < t.len() ==> #[trigger] t[i] == s[i]);
        assert(t.take(k) =~= s.take(k));
        lemma_digits_val_prefix(t, k);
        lemma_digits_val_nonneg(t);
        assert(is_digit(s.last()));
    }
}

/// Exec test for the whitespace the trim removes.
fn is_space_byte(b: u8) -> (r: bool)
    ensures
        r == is_space(b),
{
    b == 32 || b == 9 || b == 10 || b == 11 || b == 12 || b == 13
}

/// Parses the signal field as a signed decimal integer after trimming
/// whitespace at both ends: `Some` exactly when the trimmed field is an
/// optional sign followed by one or more decimal digits whose value fits a
/// 32-bit signed integer, and then the parsed value.
#[verifier::loop_isolation(false)]
pub fn parse_signal(field: &[u8]) -> (r: Option<i32>)
    ensures
        r is Some <==> parses_to_i32(trim_spec(field@)),
        r is Some ==> r->0 as int == int_value(trim_spec(field@)),
{
    let n = field.len();
    let mut a: usize = 0;
    while a < n && is_space_byte(field[a])
        invariant
            a <= n == field@.len(),
            forall|j: int| 0 <= j < a ==> is_space(#[trigger] field@[j]),
        decreases n - a,
    {
        a += 1;
    }
    let mut b: usize = n;
    while b > a && is_space_byte(field[b - 1])
        invariant
            a <= b <= n == field@.len(),
            forall|j: int| b <= j < n ==> is_space(#[trigger] field@[j]),
        decreases b,
    {
        b -= 1;
    }
    proof {
        lemma_trim_front_at(field@, a as int);
        let t = field@.skip(a as int);
        assert(forall|j: int| 0 <= j < t.len() ==> #[trigger] t[j] == field@[a + j]);
        lemma_trim_back_at(t, b - a);
        assert(t.take(b - a) =~= field@.subrange(a as int, b as int));
    }
    let ghost trimmed = field@.subrange(a as int, b as int);
    assert(trim_spec(field@) == trimmed);
    let mut idx: usize = a;
    let mut neg: bool = false;
    if idx < b {
        if field[idx] == 45 {
            neg = true;
            idx += 1;
        } else if field[idx] == 43 {
            idx += 1;
        }
    }
    let ghost digits = field@.subrange(idx as int, b as int);
    proof {
        if idx > a {
            assert(trimmed[0] == field@[a as int]);
            assert(trimmed.skip(1) =~= digits);
        } else {
            assert(trimmed =~= digits);
        }
        assert(magnitude_digits(trimmed) == digits);
        assert(neg <==> (trimmed.len() > 0 && trimmed[0] == 45));
    }
    if idx == b {
        // no digits at all
        return None;
    }
    let mut acc: i64 = 0;
    let mut i: usize = idx;
    while i < b
        invariant
            idx <= i <= b <= n == field@.len(),
            0 <= acc <= 0x8000_0000i64,
            all_digits(field@.subrange(idx as int, i as int)),
            acc == digits_val(field@.subrange(idx as int, i as int)),
            digits == field@.subrange(idx as int, b as int),
        decreases b - i,
    {
        let c = field[i];
        if c < 48 || c > 57 {
            proof {
                assert(digits[i - idx] == field@[i as int]);
                assert(!is_digit(digits[i - idx]));
                assert(!all_digits(digits));
                assert(!parses_to_i32(trim_spec(field@)));
            }
            return None;
        }
        proof {
            let pre = field@.subrange(idx as int, i as int);
            let ext = field@.subrange(idx as int, i + 1);
            assert(ext.drop_last() =~= pre);
            assert(ext.last() == field@[i as int]);
            assert(forall|j: int| 0 <= j < ext.len() ==> #[trigger] ext[j] == field@[idx + j]);
        }
        acc = acc * 10 + ((c - 48) as i64);
        i += 1;
        if acc > 0x8000_0000i64 {
            proof {
                let pre = field@.subrange(idx as int, i as int);
                assert(pre =~= digits.take(i - idx));
                if all_digits(digits) {
                    lemma_digits_val_prefix(digits, i - idx);
                    assert(digits_val(digits) >= acc);
                    assert(int_value(trimmed) > i32::MAX as int || int_value(trimmed) < i32::MIN
                        as int);
                } else {
                    assert(!is_int_literal(trimmed));
                }
                assert(!parses_to_i32(trim_spec(field@)));
            }
            return None;
        }
    }
    proof {
        assert(field@.subrange(idx as int, i as int) =~= digits);
    }
    if neg {
        let v: i64 = -acc;
        assert(-0x8000_0000i64 <= v <= 0);
        Some(v as i32)
    } else {
        if acc > 0x7fff_ffffi64 {
            return None;
        }
        Some(acc as i32)
    }
}

/// What the matcher says of one record: the collar with its reported
/// signal strength, or not the collar.
#[derive(Clone, Copy, PartialEq, Eq, Structural, Debug)]
pub enum Classification {
    /// The record's identifier contains the target and its signal field
    /// parsed; the payload is the parsed signal strength.
    Target(i32),
    /// Another beacon, or a matching identifier with a malformed signal
    /// field.
    NotTarget,
}

/// The classification of a record against a target identifier.
pub open spec fn classify_spec(rec: RecordModel, target: Seq<u8>) -> Classification {
    if contains_seq(rec.identifier, target) && parses_to_i32(trim_spec(rec.signal)) {
        Classification::Target(int_value(trim_spec(rec.signal)) as i32)
    } else {
        Classification::NotTarget
    }
}

/// Classifies one advertisement record: `Target` with the parsed signal
/// strength exactly when the identifier contains the target identifier and
/// the trimmed signal field parses as a 32-bit signed integer; `NotTarget`
/// otherwise, malformed signal fields included.
pub fn classify(record: &AdvertisementRecord, target: &[u8]) -> (c: Classification)
    ensures
        c == classify_spec(record@, target@),
{
    if contains_bytes(record.identifier.as_slice(), target) {
        match parse_signal(record.signal_field.as_slice()) {
            Some(v) => Classification::Target(v),
            None => Classification::NotTarget,
        }
    } else {
        Classification::NotTarget
    }
}

/// A record whose identifier does not contain the target is never the
/// target, whatever its signal field holds — malformed or missing included.
pub proof fn lemma_non_target_ignores_signal(rec: RecordModel, target: Seq<u8>)
    requires
        !contains_seq(rec.identifier, target),
    ensures
        classify_spec(rec, target) == Classification::NotTarget,
{
}

} // verus!
