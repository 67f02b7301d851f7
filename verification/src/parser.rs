//! Incremental scan-response parser.
//!
//! The beacon scanner answers a scan command with a multi-line text block
//! that ends in a fixed terminator. Once the terminator has been seen, the
//! block is split into lines, and each line that contains the
//! identifier/signal delimiter `":-"` becomes an advertisement record: the
//! identifier is the text before the `:`, the signal field the text from
//! the `-` on, so a signal field keeps its sign. Lines without the
//! delimiter (blank lines, fragments, the terminator line itself) are
//! skipped silently.

use vstd::prelude::*;

verus! {

/// The terminator bytes `"OK+DISCE\r\n"` that end a complete scan response.
pub open spec fn terminator() -> Seq<u8> {
    seq![79u8, 75u8, 43u8, 68u8, 73u8, 83u8, 67u8, 69u8, 13u8, 10u8]
}

/// Whether the accumulated response ends with the terminator.
pub open spec fn ends_with_terminator(s: Seq<u8>) -> bool {
    s.len() >= 10 && s.subrange(s.len() - 10, s.len() as int) == terminator()
}

/// Index of the first line break in `s`, or -1 when there is none.
pub open spec fn nl_pos(s: Seq<u8>) -> int
    decreases s.len(),
{
    if s.len() == 0 {
        -1
    } else if s[0] == 10 {
        0
    } else {
        let r = nl_pos(s.skip(1));
        if r < 0 {
            -1
        } else {
            r + 1
        }
    }
}

/// `nl_pos` finds exactly the first line break.
pub proof fn lemma_nl_pos(s: Seq<u8>)
    ensures
        nl_pos(s) < 0 ==> forall|i: int| 0 <= i < s.len() ==> s[i] != 10,
        nl_pos(s) >= 0 ==> nl_pos(s) < s.len() && s[nl_pos(s)] == 10 && forall|i: int|
            0 <= i < nl_pos(s) ==> s[i] != 10,
    decreases s.len(),
{
    if s.len() == 0 {
    } else if s[0] == 10 {
    } else {
        let t = s.skip(1);
        lemma_nl_pos(t);
        if nl_pos(s) < 0 {
            assert forall|i: int| 0 <= i < s.len() implies s[i] != 10 by {
                if i > 0 {
                    assert(t[i - 1] == s[i]);
                }
            }
        } else {
            let p = nl_pos(s);
            assert(t[p - 1] == s[p]);
            assert forall|i: int| 0 <= i < p implies s[i] != 10 by {
                if i > 0 {
                    assert(t[i - 1] == s[i]);
                }
            }
        }
    }
}

/// A line break at `i` with none before it pins `nl_pos` down to `i`.
pub proof fn lemma_nl_pos_at(s: Seq<u8>, i: int)
    requires
        0 <= i < s.len(),
        s[i] == 10,
        forall|j: int| 0 <= j < i ==> s[j] != 10,
    ensures
        nl_pos(s) == i,
    decreases s.len(),
{
    if i == 0 {
    } else {
        assert(s.skip(1)[i - 1] == s[i]);
        assert(forall|j: int| 0 <= j < i - 1 ==> s.skip(1)[j] == s[j + 1]);
        lemma_nl_pos_at(s.skip(1), i - 1);
    }
}

/// No line break anywhere means `nl_pos` reports none.
pub proof fn lemma_nl_pos_none(s: Seq<u8>)
    requires
        forall|j: int| 0 <= j < s.len() ==> s[j] != 10,
    ensures
        nl_pos(s) < 0,
{
    lemma_nl_pos(s);
    if nl_pos(s) >= 0 {
        assert(s[nl_pos(s)] == 10);
    }
}

/// Index of the `:` of the first `":-"` delimiter in `line`, or -1 when
/// the line holds no delimiter.
pub open spec fn delim_pos(line: Seq<u8>) -> int
    decreases line.len(),
{
    if line.len() < 2 {
        -1
    } else if line[0] == 58 && line[1] == 45 {
        0
    } else {
        let r = delim_pos(line.skip(1));
        if r < 0 {
            -1
        } else {
            r + 1
        }
    }
}

/// `delim_pos` finds exactly the first delimiter.
pub proof fn lemma_delim_pos(line: Seq<u8>)
    ensures
        delim_pos(line) < 0 ==> forall|i: int|
            0 <= i && i + 1 < line.len() ==> !((#[trigger] line[i]) == 58 && line[i + 1] == 45),
        delim_pos(line) >= 0 ==> delim_pos(line) + 1 < line.len() && line[delim_pos(line)] == 58
            && line[delim_pos(line) + 1] == 45 && forall|i: int|
            0 <= i < delim_pos(line) ==> !((#[trigger] line[i]) == 58 && line[i + 1] == 45),
    decreases line.len(),
{
    if line.len() < 2 {
    } else if line[0] == 58 && line[1] == 45 {
    } else {
        let t = line.skip(1);
        lemma_delim_pos(t);
        if delim_pos(line) < 0 {
            assert forall|i: int|
                0 <= i && i + 1 < line.len() implies !((#[trigger] line[i]) == 58 && line[i + 1]
                == 45) by {
                if i > 0 {
                    assert(t[i - 1] == line[i]);
                    assert(t[i] == line[i + 1]);
                }
            }
        } else {
            let p = delim_pos(line);
            assert(t[p - 1] == line[p]);
            assert(t[p] == line[p + 1]);
            assert forall|i: int|
                0 <= i < p implies !((#[trigger] line[i]) == 58 && line[i + 1] == 45) by {
                if i > 0 {
                    assert(t[i - 1] == line[i]);
                    assert(t[i] == line[i + 1]);
                }
            }
        }
    }
}

/// A delimiter at `i` with none before it pins `delim_pos` down to `i`.
pub proof fn lemma_delim_pos_at(line: Seq<u8>, i: int)
    requires
        0 <= i,
        i + 1 < line.len(),
        line[i] == 58,
        line[i + 1] == 45,
        forall|j: int| 0 <= j < i ==> !((#[trigger] line[j]) == 58 && line[j + 1] == 45),
    ensures
        delim_pos(line) == i,
    decreases line.len(),
{
    if i == 0 {
    } else {
        assert(line.skip(1)[i - 1] == line[i]);
        assert(line.skip(1)[i] == line[i + 1]);
        assert(forall|j: int| 0 <= j < i - 1 ==> (#[trigger] line.skip(1)[j]) == line[j + 1]
            && line.skip(1)[j + 1] == line[j + 2]);
        lemma_delim_pos_at(line.skip(1), i - 1);
    }
}

/// No delimiter anywhere means `delim_pos` reports none.
pub proof fn lemma_delim_pos_none(line: Seq<u8>)
    requires
        forall|j: int| 0 <= j && j + 1 < line.len() ==> !((#[trigger] line[j]) == 58 && line[j + 1] == 45),
    ensures
        delim_pos(line) < 0,
{
    lemma_delim_pos(line);
    if delim_pos(line) >= 0 {
        assert(line[delim_pos(line)] == 58 && line[delim_pos(line) + 1] == 45);
    }
}

/// A line as split at breaks, with one trailing carriage return removed.
pub open spec fn strip_cr(line: Seq<u8>) -> Seq<u8> {
    if line.len() > 0 && line[line.len() - 1] == 13 {
        line.take(line.len() - 1)
    } else {
        line
    }
}

/// One parsed advertisement line: the identifier text and the raw
/// signal-strength field.
pub struct RecordModel {
    pub identifier: Seq<u8>,
    pub signal: Seq<u8>,
}

/// The record a single (already break-free) line yields, if any: the text
/// before the first `":-"` and the text from its `-` on.
pub open spec fn line_record(line: Seq<u8>) -> Option<RecordModel> {
    let p = delim_pos(line);
    if p >= 0 {
        Some(RecordModel { identifier: line.take(p), signal: line.skip(p + 1) })
    } else {
        None
    }
}

/// Zero or one records as a sequence.
pub open spec fn opt_record(r: Option<RecordModel>) -> Seq<RecordModel> {
    match r {
        Some(rec) => seq![rec],
        None => Seq::empty(),
    }
}

/// The lines of the response text: split at line breaks, one trailing
/// carriage return removed from each piece.
pub open spec fn lines_of(s: Seq<u8>) -> Seq<Seq<u8>>
    decreases s.len(),
{
    if s.len() == 0 {
        Seq::empty()
    } else {
        let p = nl_pos(s);
        if p < 0 || p >= s.len() {
            seq![strip_cr(s)]
        } else {
            seq![strip_cr(s.take(p))] + lines_of(s.skip(p + 1))
        }
    }
}

/// All advertisement records of the response text, in line order; lines
/// without the delimiter contribute nothing.
pub open spec fn records_of(s: Seq<u8>) -> Seq<RecordModel>
    decreases s.len(),
{
    if s.len() == 0 {
        Seq::empty()
    } else {
        let p = nl_pos(s);
        if p < 0 || p >= s.len() {
            opt_record(line_record(strip_cr(s)))
        } else {
            opt_record(line_record(strip_cr(s.take(p)))) + records_of(s.skip(p + 1))
        }
    }
}

/// The records a sequence of ready-split lines yields, in order.
pub open spec fn records_from_lines(lines: Seq<Seq<u8>>) -> Seq<RecordModel>
    decreases lines.len(),
{
    if lines.len() == 0 {
        Seq::empty()
    } else {
        opt_record(line_record(lines[0])) + records_from_lines(lines.skip(1))
    }
}

/// A single line yields exactly its own record, if any.
pub proof fn lemma_records_from_single(l: Seq<u8>)
    ensures
        records_from_lines(seq![l]) == opt_record(line_record(l)),
{
    assert(seq![l].skip(1) =~= Seq::<Seq<u8>>::empty());
    assert(records_from_lines(Seq::<Seq<u8>>::empty()) == Seq::<RecordModel>::empty());
    assert(seq![l][0] == l);
    assert(records_from_lines(seq![l]) =~= opt_record(line_record(l)));
}

/// `records_from_lines` distributes over concatenation of line sequences.
pub proof fn lemma_records_from_lines_add(a: Seq<Seq<u8>>, b: Seq<Seq<u8>>)
    ensures
        records_from_lines(a + b) == records_from_lines(a) + records_from_lines(b),
    decreases a.len(),
{
    if a.len() == 0 {
        assert(a + b =~= b);
        assert(records_from_lines(a) + records_from_lines(b) =~= records_from_lines(b));
    } else {
        assert((a + b).skip(1) =~= a.skip(1) + b);
        assert((a + b)[0] == a[0]);
        lemma_records_from_lines_add(a.skip(1), b);
        assert(opt_record(line_record(a[0])) + (records_from_lines(a.skip(1))
            + records_from_lines(b)) =~= records_from_lines(a) + records_from_lines(b));
    }
}

/// The records of a response are exactly the records of its lines: parsing
/// the whole text agrees with splitting into lines first.
pub proof fn lemma_records_of_lines(s: Seq<u8>)
    ensures
        records_of(s) == records_from_lines(lines_of(s)),
    decreases s.len(),
{
    if s.len() == 0 {
    } else {
        let p = nl_pos(s);
        if p < 0 || p >= s.len() {
            let line = strip_cr(s);
            assert(lines_of(s) == seq![line]);
            lemma_records_from_single(line);
        } else {
            lemma_records_of_lines(s.skip(p + 1));
            let line = strip_cr(s.take(p));
            assert(lines_of(s) == seq![line] + lines_of(s.skip(p + 1)));
            lemma_records_from_lines_add(seq![line], lines_of(s.skip(p + 1)));
            lemma_records_from_single(line);
        }
    }
}

/// Filtering a single-line sequence keeps or drops that line.
proof fn lemma_filter_single(l: Seq<u8>, pred: spec_fn(Seq<u8>) -> bool)
    ensures
        seq![l].filter(pred) == if pred(l) {
            seq![l]
        } else {
            Seq::<Seq<u8>>::empty()
        },
{
    reveal_with_fuel(Seq::filter, 2);
    assert(seq![l].drop_last() =~= Seq::<Seq<u8>>::empty());
    assert(seq![l].last() == l);
    if pred(l) {
        assert(Seq::<Seq<u8>>::empty().push(l) =~= seq![l]);
    }
}

/// Lines without the delimiter are skipped and only they: the records of a
/// sequence of lines are exactly the records of its delimiter-bearing
/// lines, in the same order.
pub proof fn lemma_delimiterless_lines_skipped(lines: Seq<Seq<u8>>)
    ensures
        records_from_lines(lines) == records_from_lines(
            lines.filter(|l: Seq<u8>| delim_pos(l) >= 0),
        ),
    decreases lines.len(),
{
    let pred = |l: Seq<u8>| delim_pos(l) >= 0;
    if lines.len() == 0 {
    } else {
        let front = lines.drop_last();
        let l = lines.last();
        lemma_delimiterless_lines_skipped(front);
        assert(lines =~= front + seq![l]);
        lemma_records_from_lines_add(front, seq![l]);
        lemma_records_from_single(l);
        Seq::filter_distributes_over_add(front, seq![l], pred);
        assert(lines.filter(pred) == front.filter(pred) + seq![l].filter(pred));
        lemma_filter_single(l, pred);
        if pred(l) {
            lemma_records_from_lines_add(front.filter(pred), seq![l]);
        } else {
            assert(front.filter(pred) + Seq::<Seq<u8>>::empty() =~= front.filter(pred));
            assert(opt_record(line_record(l)) =~= Seq::<RecordModel>::empty());
            assert(records_from_lines(front) + Seq::<RecordModel>::empty() =~= records_from_lines(
                front,
            ));
        }
    }
}

/// Whether the accumulated response text ends with the terminator
/// `"OK+DISCE\r\n"`, signalling that the scanner finished enumerating.
pub fn is_complete(text: &[u8]) -> (r: bool)
    ensures
        r == ends_with_terminator(text@),
{
    let n = text.len();
    if n < 10 {
        return false;
    }
    let r = text[n - 10] == 79 && text[n - 9] == 75 && text[n - 8] == 43 && text[n - 7] == 68
        && text[n - 6] == 73 && text[n - 5] == 83 && text[n - 4] == 67 && text[n - 3] == 69 && text[n
        - 2] == 13 && text[n - 1] == 10;
    proof {
        let tail = text@.subrange(n - 10, n as int);
        assert(forall|k: int| 0 <= k < 10 ==> #[trigger] tail[k] == text@[n - 10 + k]);
        if r {
            assert(tail =~= terminator());
        } else {
            if tail == terminator() {
                assert(tail[0] == 79 && tail[1] == 75 && tail[2] == 43 && tail[3] == 68 && tail[4]
                    == 73 && tail[5] == 83 && tail[6] == 67 && tail[7] == 69 && tail[8] == 13
                    && tail[9] == 10);
            }
        }
    }
    r
}

/// One advertisement line of a complete response, split at the first
/// `":-"`: the identifier text and the raw signal-strength field.
pub struct AdvertisementRecord {
    pub identifier: Vec<u8>,
    pub signal_field: Vec<u8>,
}

impl View for AdvertisementRecord {
    type V = RecordModel;

    open spec fn view(&self) -> RecordModel {
        RecordModel { identifier: self.identifier@, signal: self.signal_field@ }
    }
}

/// Copy of `text[a..b]`.
fn subvec(text: &[u8], a: usize, b: usize) -> (r: Vec<u8>)
    requires
        a <= b <= text@.len(),
    ensures
        r@ == text@.subrange(a as int, b as int),
{
    let mut r: Vec<u8> = Vec::new();
    let mut i: usize = a;
    while i < b
        invariant
            a <= i <= b <= text@.len(),
            r@ == text@.subrange(a as int, i as int),
        decreases b - i,
    {
        r.push(text[i]);
        assert(r@ =~= text@.subrange(a as int, i + 1));
        i += 1;
    }
    r
}

/// Splits a complete response text into its advertisement records, in line
/// order: each line holding the `":-"` delimiter yields one record, lines
/// without it are skipped.
#[verifier::rlimit(60)]
pub fn records(text: &[u8]) -> (r: Vec<AdvertisementRecord>)
    ensures
        r@.len() == records_of(text@).len(),
        forall|i: int| 0 <= i < r@.len() ==> #[trigger] r@[i]@ == records_of(text@)[i],
{
    let n = text.len();
    let mut out: Vec<AdvertisementRecord> = Vec::new();
    let mut p: usize = 0;
    proof {
        assert(text@.skip(0) =~= text@);
        assert(out@.map_values(|rec: AdvertisementRecord| rec@) =~= Seq::<RecordModel>::empty());
    }
    while p < n
        invariant
            p <= n == text@.len(),
            records_of(text@) =~= out@.map_values(|rec: AdvertisementRecord| rec@) + records_of(
                text@.skip(p as int),
            ),
        decreases n - p,
    {
        let ghost suf = text@.skip(p as int);
        // find the end of the current line
        let mut k: usize = p;
        while k < n && text[k] != 10
            invariant
                p <= k <= n == text@.len(),
                forall|j: int| p <= j < k ==> text@[j] != 10,
            decreases n - k,
        {
            k += 1;
        }
        proof {
            assert(forall|j: int| 0 <= j < k - p ==> #[trigger] suf[j] == text@[p + j]);
            if k < n {
                assert(suf[k - p] == text@[k as int]);
                lemma_nl_pos_at(suf, k - p);
            } else {
                lemma_nl_pos_none(suf);
            }
        }
        // strip one trailing carriage return
        let end: usize = if k > p && text[k - 1] == 13 {
            k - 1
        } else {
            k
        };
        let ghost raw_line = if k < n {
            suf.take(k - p)
        } else {
            suf
        };
        let ghost line = text@.subrange(p as int, end as int);
        proof {
            assert(raw_line =~= text@.subrange(p as int, k as int));
            assert(strip_cr(raw_line) =~= line);
        }
        // find the delimiter in the line
        let mut d: usize = p;
        let mut found: bool = false;
        while !found && end - d > 1
            invariant
                p <= d <= end,
                p <= end <= k <= n == text@.len(),
                found ==> d + 1 < end && text@[d as int] == 58 && text@[d + 1] == 45,
                forall|j: int| p <= j < d ==> !((#[trigger] text@[j]) == 58 && text@[j + 1] == 45),
            decreases end - d + (if found { 0int } else { 1int }),
        {
            if text[d] == 58 && text[d + 1] == 45 {
                found = true;
            } else {
                d += 1;
            }
        }
        proof {
            assert(forall|j: int| 0 <= j < line.len() ==> #[trigger] line[j] == text@[p + j]);
            if found {
                assert forall|j: int|
                    0 <= j < d - p implies !((#[trigger] line[j]) == 58 && line[j + 1] == 45) by {
                    assert(line[j] == text@[p + j]);
                    assert(line[j + 1] == text@[p + j + 1]);
                    assert(!(text@[p + j] == 58 && text@[p + j + 1] == 45));
                }
                lemma_delim_pos_at(line, d - p);
            } else {
                assert forall|j: int|
                    0 <= j && j + 1 < line.len() implies !((#[trigger] line[j]) == 58 && line[j + 1]
                    == 45) by {
                    assert(line[j] == text@[p + j]);
                    assert(line[j + 1] == text@[p + j + 1]);
                    assert(!(text@[p + j] == 58 && text@[p + j + 1] == 45));
                }
                lemma_delim_pos_none(line);
            }
        }
        if found {
            let rec = AdvertisementRecord {
                identifier: subvec(text, p, d),
                signal_field: subvec(text, d + 1, end),
            };
            proof {
                assert(rec@.identifier =~= line.take(d - p));
                assert(rec@.signal =~= line.skip(d - p + 1));
            }
            out.push(rec);
        }
        proof {
            let ghost rest = if k < n {
                text@.skip(k + 1)
            } else {
                Seq::<u8>::empty()
            };
            if k < n {
                assert(suf.skip(k - p + 1) =~= rest);
                assert(records_of(suf) == opt_record(line_record(line)) + records_of(rest));
            } else {
                assert(records_of(suf) == opt_record(line_record(line)));
                assert(records_of(suf) =~= opt_record(line_record(line)) + records_of(rest));
            }
            assert(out@.map_values(|rec: AdvertisementRecord| rec@) + records_of(rest)
                =~= records_of(text@));
        }
        p = if k < n {
            k + 1
        } else {
            n
        };
    }
    proof {
        assert(records_of(text@.skip(n as int)) =~= Seq::<RecordModel>::empty());
        assert(records_of(text@) =~= out@.map_values(|rec: AdvertisementRecord| rec@));
        assert(forall|i: int| 0 <= i < out@.len() ==> #[trigger] out@[i]@ == out@.map_values(
            |rec: AdvertisementRecord| rec@,
        )[i]);
    }
    out
}

} // verus!
