//! Control-loop state machine: the detection-and-decision core.
//!
//! The loop lives in one of three phases. Idle: sample the motion sensor;
//! on motion, send the scan command and start scanning. Scanning: each read
//! attempt either appends bytes to the response accumulator, or yields
//! nothing, or fails — the last two are transient and the loop keeps
//! polling; when the accumulated response ends with the terminator, move to
//! evaluating. Evaluating: decode the response, classify every record,
//! decide proximity for matches, clear the accumulator and return to idle.
//!
//! The functions here are the decisions only. The caller owns the clock and
//! the wires: it samples the sensor, performs reads and writes, waits the
//! configured intervals between attempts, and drives the actuation plan for
//! every at-door outcome, one full plan at a time.

use vstd::prelude::*;
use vstd::utf8::valid_utf8;
use crate::buffer::Buffer;
use crate::buffer::BufferError;
use crate::buffer::append_result;
use crate::matcher::Classification;
use crate::matcher::classify;
use crate::matcher::classify_spec;
use crate::parser::ends_with_terminator;
use crate::parser::is_complete;
use crate::parser::records;
use crate::parser::records_of;
use crate::parser::RecordModel;
use crate::proximity::Proximity;
use crate::proximity::decide;
use crate::proximity::decide_spec;

verus! {

/// Configuration fixed at start; never mutated afterwards.
pub struct DoorConfig {
    /// The collar's advertisement signature, matched by containment.
    pub target: Vec<u8>,
    /// Signal-strength cutoff: strictly below it the pet is at the door.
    pub threshold: i32,
    /// Capacity of the response accumulator, in bytes.
    pub capacity: usize,
    /// Wait between read attempts while scanning, in milliseconds.
    pub poll_interval_ms: u64,
    /// Wait between motion samples while idle, in milliseconds.
    pub idle_interval_ms: u64,
    /// Wait after a finished cycle before idling again, in milliseconds.
    pub settle_interval_ms: u64,
}

impl DoorConfig {
    /// The stock configuration: a 2048-byte accumulator, a 100 ms poll
    /// interval, a 1 s idle interval and a 2 s settle interval.
    pub fn standard(target: Vec<u8>, threshold: i32) -> (r: DoorConfig)
        ensures
            r.target@ == target@,
            r.threshold == threshold,
            r.capacity == 2048,
            r.poll_interval_ms == 100,
            r.idle_interval_ms == 1000,
            r.settle_interval_ms == 2000,
    {
        DoorConfig {
            target,
            threshold,
            capacity: 2048,
            poll_interval_ms: 100,
            idle_interval_ms: 1000,
            settle_interval_ms: 2000,
        }
    }
}

/// The bytes of the scan command `"AT+DISI?\r\n"` sent to the scanner when
/// motion starts a cycle.
pub open spec fn scan_command_spec() -> Seq<u8> {
    seq![65u8, 84u8, 43u8, 68u8, 73u8, 83u8, 73u8, 63u8, 13u8, 10u8]
}

/// The scan command to write to the scanner at the start of a cycle.
pub fn scan_command() -> (r: Vec<u8>)
    ensures
        r@ == scan_command_spec(),
{
    let mut v: Vec<u8> = Vec::new();
    v.push(65);
    v.push(84);
    v.push(43);
    v.push(68);
    v.push(73);
    v.push(83);
    v.push(73);
    v.push(63);
    v.push(13);
    v.push(10);
    proof {
        assert(v@ =~= scan_command_spec());
    }
    v
}

/// The phase the control loop is in.
#[derive(Clone, Copy, PartialEq, Eq, Structural, Debug)]
pub enum Phase {
    /// No motion seen; sampling the sensor.
    Idle,
    /// Scan command sent; reading the response until the terminator.
    Scanning,
    /// Terminator seen; the response awaits evaluation.
    Evaluating,
}

/// What one read attempt on the response stream produced.
pub enum ReadEvent {
    /// The stream delivered these bytes.
    Data(Vec<u8>),
    /// The read returned without any bytes.
    Empty,
    /// The read failed; treated as transient.
    Failed,
}

/// Specification-level mirror of a read event.
pub enum ReadEventModel {
    Data(Seq<u8>),
    Empty,
    Failed,
}

impl View for ReadEvent {
    type V = ReadEventModel;

    open spec fn view(&self) -> ReadEventModel {
        match self {
            ReadEvent::Data(bytes) => ReadEventModel::Data(bytes@),
            ReadEvent::Empty => ReadEventModel::Empty,
            ReadEvent::Failed => ReadEventModel::Failed,
        }
    }
}

/// The observable state of the control loop: its phase and the response
/// accumulated so far.
pub struct ControlModel {
    pub phase: Phase,
    pub response: Seq<u8>,
}

/// What one read attempt does to a scanning loop. Bytes are appended; a
/// response that then ends with the terminator moves to evaluating, and one
/// that no longer fits abandons the cycle (cleared, back to idle). An empty
/// or failed read changes nothing: the loop keeps polling.
pub open spec fn scan_step(m: ControlModel, ev: ReadEventModel, cap: nat) -> ControlModel {
    match ev {
        ReadEventModel::Data(bytes) => {
            if m.response.len() + bytes.len() > cap {
                ControlModel { phase: Phase::Idle, response: Seq::empty() }
            } else {
                let r = m.response + bytes;
                ControlModel {
                    phase: if ends_with_terminator(r) {
                        Phase::Evaluating
                    } else {
                        Phase::Scanning
                    },
                    response: r,
                }
            }
        },
        ReadEventModel::Empty => m,
        ReadEventModel::Failed => m,
    }
}

/// A scanning loop after a whole sequence of read attempts.
pub open spec fn scan_steps(m: ControlModel, evs: Seq<ReadEventModel>, cap: nat) -> ControlModel
    decreases evs.len(),
{
    if evs.len() == 0 {
        m
    } else {
        scan_steps(scan_step(m, evs[0], cap), evs.skip(1), cap)
    }
}

/// A stream that never delivers bytes never completes a scan: under any
/// sequence of empty and failed reads the loop is still scanning, with the
/// response untouched — it keeps polling, without error.
pub proof fn lemma_starved_scan_keeps_scanning(
    m: ControlModel,
    evs: Seq<ReadEventModel>,
    cap: nat,
)
    requires
        m.phase == Phase::Scanning,
        forall|i: int| 0 <= i < evs.len() ==> !(#[trigger] evs[i] is Data),
    ensures
        scan_steps(m, evs, cap) == m,
    decreases evs.len(),
{
    if evs.len() > 0 {
        assert(!(evs[0] is Data));
        assert(scan_step(m, evs[0], cap) == m);
        assert(forall|i: int| 0 <= i < evs.skip(1).len() ==> !(#[trigger] evs.skip(1)[i] is Data));
        lemma_starved_scan_keeps_scanning(m, evs.skip(1), cap);
    }
}

/// What one read attempt tells the caller to do next.
#[derive(Clone, Copy, PartialEq, Eq, Structural, Debug)]
pub enum ScanStep {
    /// Keep scanning: wait the poll interval and read again.
    Continue,
    /// The terminator arrived: evaluate the response.
    Complete,
    /// The response outgrew the accumulator: the cycle was abandoned, the
    /// accumulator cleared, the loop is idle again.
    Aborted,
}

/// The instruction `scan_step` leaves the caller with.
pub open spec fn scan_step_outcome(m: ControlModel, ev: ReadEventModel, cap: nat) -> ScanStep {
    match ev {
        ReadEventModel::Data(bytes) => {
            if m.response.len() + bytes.len() > cap {
                ScanStep::Aborted
            } else if ends_with_terminator(m.response + bytes) {
                ScanStep::Complete
            } else {
                ScanStep::Continue
            }
        },
        ReadEventModel::Empty => ScanStep::Continue,
        ReadEventModel::Failed => ScanStep::Continue,
    }
}

/// How one record of a finished scan bears on the door.
#[derive(Clone, Copy, PartialEq, Eq, Structural, Debug)]
pub enum RecordOutcome {
    /// The collar, close enough: run one open cycle. Payload: its signal
    /// strength.
    AtDoor(i32),
    /// The collar, in range but not at the door. Payload: its signal
    /// strength.
    NearbyOnly(i32),
    /// Another beacon, or a malformed signal field.
    NotTarget,
}

impl RecordOutcome {
    /// The log line the loop reports for this outcome.
    pub fn log_message(&self) -> (r: &'static str)
        ensures
            self is AtDoor ==> r@ == "\n MY CAT IS AT THE DOOR!!\r\n"@,
            self is NearbyOnly ==> r@ == "\n My cat is nearby but not at the door.\r\n"@,
            self is NotTarget ==> r@ == "\n not my cat.\r\n"@,
    {
        match self {
            RecordOutcome::AtDoor(_) => "\n MY CAT IS AT THE DOOR!!\r\n",
            RecordOutcome::NearbyOnly(_) => "\n My cat is nearby but not at the door.\r\n",
            RecordOutcome::NotTarget => "\n not my cat.\r\n",
        }
    }
}

/// The outcome of one record: classify it against the target, then decide
/// proximity from the parsed signal strength.
pub open spec fn outcome_of(rec: RecordModel, target: Seq<u8>, threshold: int) -> RecordOutcome {
    match classify_spec(rec, target) {
        Classification::Target(v) => match decide_spec(v as int, threshold) {
            Proximity::AtDoor => RecordOutcome::AtDoor(v),
            Proximity::NearbyOnly => RecordOutcome::NearbyOnly(v),
        },
        Classification::NotTarget => RecordOutcome::NotTarget,
    }
}

/// The outcomes of a finished scan's records, in line order.
pub open spec fn outcomes_of(recs: Seq<RecordModel>, target: Seq<u8>, threshold: int) -> Seq<
    RecordOutcome,
> {
    recs.map_values(|rec: RecordModel| outcome_of(rec, target, threshold))
}

/// The control loop's state: phase, response accumulator and fixed
/// configuration.
pub struct Controller {
    phase: Phase,
    buffer: Buffer,
    config: DoorConfig,
}

impl View for Controller {
    type V = ControlModel;

    closed spec fn view(&self) -> ControlModel {
        ControlModel { phase: self.phase, response: self.buffer@ }
    }
}

impl Controller {
    /// The configuration the controller was started with.
    pub closed spec fn cfg(&self) -> DoorConfig {
        self.config
    }

    /// The accumulator matches the configured capacity and is within it.
    pub closed spec fn wf(&self) -> bool {
        self.buffer.wf() && self.buffer.cap() == self.config.capacity as nat
    }

    /// A fresh controller: idle, with an empty accumulator.
    pub fn new(config: DoorConfig) -> (r: Controller)
        ensures
            r.wf(),
            r@.phase == Phase::Idle,
            r@.response == Seq::<u8>::empty(),
            r.cfg() == config,
    {
        let capacity = config.capacity;
        Controller { phase: Phase::Idle, buffer: Buffer::new(capacity), config }
    }

    /// The phase the loop is in.
    pub fn phase(&self) -> (r: Phase)
        ensures
            r == self@.phase,
    {
        self.phase
    }

    /// The configured wait between read attempts while scanning.
    pub fn poll_interval_ms(&self) -> (r: u64)
        ensures
            r == self.cfg().poll_interval_ms,
    {
        self.config.poll_interval_ms
    }

    /// The configured wait between motion samples while idle.
    pub fn idle_interval_ms(&self) -> (r: u64)
        ensures
            r == self.cfg().idle_interval_ms,
    {
        self.config.idle_interval_ms
    }

    /// The configured wait after a finished cycle.
    pub fn settle_interval_ms(&self) -> (r: u64)
        ensures
            r == self.cfg().settle_interval_ms,
    {
        self.config.settle_interval_ms
    }

    /// One read attempt while scanning. Bytes are appended to the
    /// accumulator; empty and failed reads are transient and leave the loop
    /// polling. The caller waits the poll interval after every `Continue`.
    pub fn on_read(&mut self, event: &ReadEvent) -> (r: ScanStep)
        requires
            old(self).wf(),
            old(self)@.phase == Phase::Scanning,
        ensures
            final(self).wf(),
            final(self).cfg() == old(self).cfg(),
            final(self)@ == scan_step(old(self)@, event@, old(self).cfg().capacity as nat),
            r == scan_step_outcome(old(self)@, event@, old(self).cfg().capacity as nat),
    {
        match event {
            ReadEvent::Data(bytes) => {
                match self.buffer.append(bytes.as_slice()) {
                    Ok(_) => {
                        if is_complete(self.buffer.bytes()) {
                            self.phase = Phase::Evaluating;
                            ScanStep::Complete
                        } else {
                            ScanStep::Continue
                        }
                    },
                    Err(_) => {
                        self.buffer.clear();
                        self.phase = Phase::Idle;
                        ScanStep::Aborted
                    },
                }
            },
            ReadEvent::Empty => ScanStep::Continue,
            ReadEvent::Failed => ScanStep::Continue,
        }
    }

    /// Evaluates a complete response: decodes it, classifies every record
    /// against the target and decides proximity for matches, then clears
    /// the accumulator and returns to idle. A response that is not valid
    /// text abandons the cycle with `TextDecode` instead of evaluating. The
    /// caller runs one full actuation plan per at-door outcome and waits
    /// the settle interval before sampling motion again.
    #[verifier::loop_isolation(false)]
    pub fn evaluate(&mut self) -> (r: Result<Vec<RecordOutcome>, BufferError>)
        requires
            old(self).wf(),
            old(self)@.phase == Phase::Evaluating,
        ensures
            final(self).wf(),
            final(self).cfg() == old(self).cfg(),
            final(self)@.phase == Phase::Idle,
            final(self)@.response == Seq::<u8>::empty(),
            r is Ok <==> valid_utf8(old(self)@.response),
            r is Ok ==> r->Ok_0@ == outcomes_of(
                records_of(old(self)@.response),
                old(self).cfg().target@,
                old(self).cfg().threshold as int,
            ),
            r is Err ==> r == Err::<Vec<RecordOutcome>, BufferError>(BufferError::TextDecode),
    {
        let valid = match self.buffer.as_str() {
            Ok(_) => true,
            Err(_) => false,
        };
        if !valid {
            self.buffer.clear();
            self.phase = Phase::Idle;
            return Err(BufferError::TextDecode);
        }
        let ghost resp = self.buffer@;
        let recs = records(self.buffer.bytes());
        let mut out: Vec<RecordOutcome> = Vec::new();
        let mut i: usize = 0;
        while i < recs.len()
            invariant
                i <= recs@.len(),
                out@.len() == i,
                forall|j: int|
                    0 <= j < i ==> #[trigger] out@[j] == outcome_of(
                        records_of(resp)[j],
                        self.config.target@,
                        self.config.threshold as int,
                    ),
            decreases recs@.len() - i,
        {
            let rec = &recs[i];
            let c = classify(rec, self.config.target.as_slice());
            let outcome = match c {
                Classification::Target(v) => match decide(v, self.config.threshold) {
                    Proximity::AtDoor => RecordOutcome::AtDoor(v),
                    Proximity::NearbyOnly => RecordOutcome::NearbyOnly(v),
                },
                Classification::NotTarget => RecordOutcome::NotTarget,
            };
            out.push(outcome);
            i += 1;
        }
        self.buffer.clear();
        self.phase = Phase::Idle;
        proof {
            assert(out@ =~= outcomes_of(
                records_of(resp),
                self.config.target@,
                self.config.threshold as int,
            ));
        }
        Ok(out)
    }

    /// One motion sample while idle. On motion the loop starts scanning and
    /// the caller must send the scan command to the scanner; without motion
    /// it stays idle and the caller waits the idle interval.
    pub fn on_motion(&mut self, active: bool) -> (send_command: bool)
        requires
            old(self).wf(),
            old(self)@.phase == Phase::Idle,
        ensures
            final(self).wf(),
            final(self).cfg() == old(self).cfg(),
            final(self)@.response == old(self)@.response,
            final(self)@.phase == if active {
                Phase::Scanning
            } else {
                Phase::Idle
            },
            send_command == active,
    {
        if active {
            self.phase = Phase::Scanning;
            true
        } else {
            false
        }
    }
}

} // verus!
