//! The byte relay: which bytes start a line, where timestamps go, and what
//! reaches the console and the log file for each byte read.
use vstd::prelude::*;
use crate::text::append_bytes;
use crate::clock::{clock_reading, readable, timestamp_of, timestamp_text, LocalTime};

verus! {

/// The byte shown on the console in place of one that is not text on its own.
pub const PLACEHOLDER: u8 = 42;

/// `\n` and `\r` end a line.
pub open spec fn is_line_end(b: u8) -> bool {
    b == 10u8 || b == 13u8
}

/// A single byte is valid UTF-8 on its own exactly when it is ASCII.
pub open spec fn is_text_byte(b: u8) -> bool {
    b < 128u8
}

/// What the console shows for one byte.
pub open spec fn shown(b: u8) -> u8 {
    if is_text_byte(b) {
        b
    } else {
        PLACEHOLDER
    }
}

/// One move of the line tracker: the next "at line start" flag, and whether
/// a timestamp goes before this byte.
pub open spec fn step(at_start: bool, b: u8) -> (bool, bool) {
    if is_line_end(b) {
        (true, false)
    } else if at_start {
        (false, true)
    } else {
        (false, false)
    }
}

/// The tracker's flag after a run of bytes.
pub open spec fn state_after(at_start: bool, bytes: Seq<u8>) -> bool
    decreases bytes.len(),
{
    if bytes.len() == 0 {
        at_start
    } else {
        step(state_after(at_start, bytes.drop_last()), bytes.last()).0
    }
}

/// The tracker's flag just before byte `i`, stated without the tracker:
/// the starting flag for the first byte, else whether the previous byte
/// ended a line.
pub open spec fn flag_before(at_start: bool, bytes: Seq<u8>, i: int) -> bool {
    if i == 0 {
        at_start
    } else {
        is_line_end(bytes[i - 1])
    }
}

/// What the relay was told to do.
#[derive(Clone, Copy, Debug, PartialEq, Eq)]
pub struct RelayConfig {
    /// Put a timestamp before the first byte of each line.
    pub timestamps: bool,
    /// Copy everything to the log file.
    pub logging: bool,
}

/// Whether a timestamp is written before byte `b` in state `at_start`.
pub open spec fn stamp_before(cfg: RelayConfig, at_start: bool, b: u8) -> bool {
    cfg.timestamps && step(at_start, b).1
}

/// The timestamp part written before a byte: the stamp or nothing.
pub open spec fn stamp_part(cfg: RelayConfig, at_start: bool, stamp: Seq<u8>, b: u8) -> Seq<u8> {
    if stamp_before(cfg, at_start, b) {
        stamp
    } else {
        Seq::empty()
    }
}

/// Console output for one byte.
pub open spec fn console_chunk(cfg: RelayConfig, at_start: bool, stamp: Seq<u8>, b: u8) -> Seq<u8> {
    stamp_part(cfg, at_start, stamp, b).push(shown(b))
}

/// Log output for one byte: the raw byte, after the timestamp if any.
pub open spec fn log_chunk(cfg: RelayConfig, at_start: bool, stamp: Seq<u8>, b: u8) -> Seq<u8> {
    if cfg.logging {
        stamp_part(cfg, at_start, stamp, b).push(b)
    } else {
        Seq::empty()
    }
}

/// Console output for a run of bytes, each line stamped with `stamp`.
pub open spec fn console_of(cfg: RelayConfig, at_start: bool, stamp: Seq<u8>, bytes: Seq<u8>) -> Seq<u8>
    decreases bytes.len(),
{
    if bytes.len() == 0 {
        Seq::empty()
    } else {
        console_of(cfg, at_start, stamp, bytes.drop_last()) + console_chunk(
            cfg,
            state_after(at_start, bytes.drop_last()),
            stamp,
            bytes.last(),
        )
    }
}

/// Log output for a run of bytes, each line stamped with `stamp`.
pub open spec fn log_of(cfg: RelayConfig, at_start: bool, stamp: Seq<u8>, bytes: Seq<u8>) -> Seq<u8>
    decreases bytes.len(),
{
    if bytes.len() == 0 {
        Seq::empty()
    } else {
        log_of(cfg, at_start, stamp, bytes.drop_last()) + log_chunk(
            cfg,
            state_after(at_start, bytes.drop_last()),
            stamp,
            bytes.last(),
        )
    }
}

/// How many timestamps a run of bytes gets.
pub open spec fn stamp_count(cfg: RelayConfig, at_start: bool, bytes: Seq<u8>) -> nat
    decreases bytes.len(),
{
    if bytes.len() == 0 {
        0
    } else {
        stamp_count(cfg, at_start, bytes.drop_last()) + if stamp_before(
            cfg,
            state_after(at_start, bytes.drop_last()),
            bytes.last(),
        ) {
            1nat
        } else {
            0nat
        }
    }
}

/// A maximal run of non-line-end bytes begins at `i`.
pub open spec fn run_starts_at(bytes: Seq<u8>, i: int) -> bool {
    !is_line_end(bytes[i]) && (i == 0 || is_line_end(bytes[i - 1]))
}

/// The number of maximal runs of non-line-end bytes.
pub open spec fn run_count(bytes: Seq<u8>) -> nat
    decreases bytes.len(),
{
    if bytes.len() == 0 {
        0
    } else {
        run_count(bytes.drop_last()) + if run_starts_at(bytes, bytes.len() - 1) {
            1nat
        } else {
            0nat
        }
    }
}

/// After a run of bytes the tracker is at a line start exactly when the run
/// is empty and started there, or its last byte ends a line.
pub proof fn lemma_state_after(at_start: bool, bytes: Seq<u8>)
    ensures
        state_after(at_start, bytes) == if bytes.len() == 0 {
            at_start
        } else {
            is_line_end(bytes.last())
        },
{
}

/// Feeding no bytes writes nothing to either sink, stamps nothing, and leaves
/// the tracker where it was.
pub proof fn empty_input_changes_nothing(cfg: RelayConfig, at_start: bool, stamp: Seq<u8>)
    ensures
        console_of(cfg, at_start, stamp, Seq::empty()) == Seq::<u8>::empty(),
        log_of(cfg, at_start, stamp, Seq::empty()) == Seq::<u8>::empty(),
        stamp_count(cfg, at_start, Seq::empty()) == 0,
        state_after(at_start, Seq::empty()) == at_start,
{
}

/// With timestamps on, a non-empty run without line ends read from a line
/// start gets exactly one timestamp, and it comes before the first byte.
pub proof fn one_line_one_stamp(cfg: RelayConfig, stamp: Seq<u8>, bytes: Seq<u8>)
    requires
        cfg.timestamps,
        bytes.len() > 0,
        forall|i: int| 0 <= i < bytes.len() ==> !is_line_end(#[trigger] bytes[i]),
    ensures
        stamp_count(cfg, true, bytes) == 1,
        console_of(cfg, true, stamp, bytes) == stamp + bytes.map_values(|b: u8| shown(b)),
    decreases bytes.len(),
{
    let prefix = bytes.drop_last();
    if bytes.len() == 1 {
        assert(prefix.len() == 0);
        assert(!is_line_end(bytes[0]));
        assert(bytes.last() == bytes[0]);
        assert(state_after(true, prefix));
        assert(console_of(cfg, true, stamp, prefix) == Seq::<u8>::empty());
        assert(stamp_count(cfg, true, prefix) == 0);
        assert(console_of(cfg, true, stamp, bytes) =~= stamp + bytes.map_values(|b: u8| shown(b)));
    } else {
        assert forall|i: int| 0 <= i < prefix.len() implies !is_line_end(#[trigger] prefix[i]) by {
            assert(prefix[i] == bytes[i]);
        }
        one_line_one_stamp(cfg, stamp, prefix);
        assert(!is_line_end(bytes[bytes.len() - 2]));
        assert(prefix.last() == bytes[bytes.len() - 2]);
        assert(!state_after(true, prefix));
        assert(console_of(cfg, true, stamp, bytes) =~= stamp + bytes.map_values(|b: u8| shown(b)));
    }
}

/// With timestamps on, a stream read from a line start gets one timestamp
/// per maximal run of non-line-end bytes; line ends themselves get none.
pub proof fn stamps_count_runs(cfg: RelayConfig, bytes: Seq<u8>)
    requires
        cfg.timestamps,
    ensures
        stamp_count(cfg, true, bytes) == run_count(bytes),
    decreases bytes.len(),
{
    if bytes.len() > 0 {
        let prefix = bytes.drop_last();
        stamps_count_runs(cfg, prefix);
        lemma_state_after(true, prefix);
        if prefix.len() > 0 {
            assert(prefix.last() == bytes[bytes.len() - 2]);
        }
    }
}

/// The console output of each byte: its timestamp, if the byte starts a
/// line, then the byte as shown.
pub open spec fn console_chunks(cfg: RelayConfig, at_start: bool, stamp: Seq<u8>, bytes: Seq<u8>) -> Seq<Seq<u8>> {
    Seq::new(bytes.len(), |i: int| console_chunk(cfg, flag_before(at_start, bytes, i), stamp, bytes[i]))
}

/// The log output of each byte: its timestamp, if the byte starts a line,
/// then the raw byte.
pub open spec fn log_chunks(cfg: RelayConfig, at_start: bool, stamp: Seq<u8>, bytes: Seq<u8>) -> Seq<Seq<u8>> {
    Seq::new(bytes.len(), |i: int| stamp_part(cfg, flag_before(at_start, bytes, i), stamp, bytes[i]).push(bytes[i]))
}

/// The console receives every byte, in the order read, each shown as itself
/// when it is text (as the placeholder otherwise), with a timestamp exactly
/// before each byte that starts a line.
pub proof fn console_keeps_order(cfg: RelayConfig, at_start: bool, stamp: Seq<u8>, bytes: Seq<u8>)
    ensures
        console_of(cfg, at_start, stamp, bytes) == console_chunks(cfg, at_start, stamp, bytes).flatten(),
        !cfg.timestamps ==> console_of(cfg, at_start, stamp, bytes) == bytes.map_values(|b: u8| shown(b)),
    decreases bytes.len(),
{
    let chunks = console_chunks(cfg, at_start, stamp, bytes);
    chunks.lemma_flatten_and_flatten_alt_are_equivalent();
    if bytes.len() > 0 {
        let prefix = bytes.drop_last();
        console_keeps_order(cfg, at_start, stamp, prefix);
        console_chunks(cfg, at_start, stamp, prefix).lemma_flatten_and_flatten_alt_are_equivalent();
        lemma_state_after(at_start, prefix);
        if prefix.len() > 0 {
            assert(prefix.last() == bytes[bytes.len() - 2]);
        }
        assert(chunks.drop_last() =~= console_chunks(cfg, at_start, stamp, prefix));
        if !cfg.timestamps {
            assert(bytes.map_values(|b: u8| shown(b)) =~= prefix.map_values(|b: u8| shown(b)).push(shown(bytes.last())));
        }
    } else {
        assert(bytes.map_values(|b: u8| shown(b)) =~= Seq::<u8>::empty());
    }
}

/// With logging on, the log receives every byte read, line ends and non-text
/// bytes included, unchanged and in order, with a timestamp exactly before
/// each byte that starts a line.
pub proof fn log_keeps_every_byte(cfg: RelayConfig, at_start: bool, stamp: Seq<u8>, bytes: Seq<u8>)
    requires
        cfg.logging,
    ensures
        log_of(cfg, at_start, stamp, bytes) == log_chunks(cfg, at_start, stamp, bytes).flatten(),
        !cfg.timestamps ==> log_of(cfg, at_start, stamp, bytes) == bytes,
    decreases bytes.len(),
{
    let chunks = log_chunks(cfg, at_start, stamp, bytes);
    chunks.lemma_flatten_and_flatten_alt_are_equivalent();
    if bytes.len() > 0 {
        let prefix = bytes.drop_last();
        log_keeps_every_byte(cfg, at_start, stamp, prefix);
        log_chunks(cfg, at_start, stamp, prefix).lemma_flatten_and_flatten_alt_are_equivalent();
        lemma_state_after(at_start, prefix);
        if prefix.len() > 0 {
            assert(prefix.last() == bytes[bytes.len() - 2]);
        }
        assert(chunks.drop_last() =~= log_chunks(cfg, at_start, stamp, prefix));
        if !cfg.timestamps {
            assert(bytes =~= prefix.push(bytes.last()));
        }
    }
}

/// Whether a byte ends a line.
pub fn is_line_end_byte(b: u8) -> (r: bool)
    ensures
        r == is_line_end(b),
{
    b == 10u8 || b == 13u8
}

/// Whether a byte is text on its own and may go to the console as it is.
pub fn is_text(b: u8) -> (r: bool)
    ensures
        r == is_text_byte(b),
{
    b < 128u8
}

/// The line tracker: given the flag and a byte, the next flag and whether a
/// timestamp goes before the byte.
pub fn line_step(at_start: bool, b: u8) -> (r: (bool, bool))
    ensures
        r == step(at_start, b),
{
    if is_line_end_byte(b) {
        (true, false)
    } else if at_start {
        (false, true)
    } else {
        (false, false)
    }
}

/// The report printed when reading from the device fails; the relay stops.
pub open spec fn read_error_text(err: Seq<char>) -> Seq<char> {
    "Error occured when reading: "@ + err
}

/// The report printed when writing to the console fails; the relay goes on.
pub open spec fn console_error_text(err: Seq<char>) -> Seq<char> {
    "#ERR: "@ + err
}

/// The line printed once the device is open.
pub open spec fn opened_text(port: Seq<char>, baud: Seq<char>) -> Seq<char> {
    "Opened serial port: "@ + port + " baudrate: "@ + baud
}

/// The line printed once the device is open, given its name and the baud
/// rate as it was written.
pub fn opened_report(port: &str, baud: &str) -> (r: String)
    ensures
        r@ == opened_text(port@, baud@),
{
    let mut r = String::from_str("Opened serial port: ");
    r.append(port);
    r.append(" baudrate: ");
    r.append(baud);
    r
}

/// The report for a failed read, given the error's text.
pub fn read_error_report(err: &str) -> (r: String)
    ensures
        r@ == read_error_text(err@),
{
    let mut r = String::from_str("Error occured when reading: ");
    r.append(err);
    r
}

/// The report for a failed console write, given the error's text.
pub fn console_error_report(err: &str) -> (r: String)
    ensures
        r@ == console_error_text(err@),
{
    let mut r = String::from_str("#ERR: ");
    r.append(err);
    r
}

/// What happened at the edge of the relay loop.
#[derive(Clone, Copy, Debug, PartialEq, Eq, Structural)]
pub enum Event {
    /// A byte came from the device.
    ByteRead(u8),
    /// A read returned without a byte.
    NothingRead,
    /// Reading from the device failed.
    ReadFailed,
    /// Writing to the console failed.
    ConsoleWriteFailed,
    /// Writing to the log file failed.
    LogWriteFailed,
}

/// What the loop does next.
#[derive(Clone, Copy, Debug, PartialEq, Eq, Structural)]
pub enum Action {
    /// Hand the byte to the relay, then read on.
    Relay(u8),
    /// Read on.
    Continue,
    /// Print a report, then read on.
    ReportAndContinue,
    /// Print a report and end the session.
    ReportAndStop,
}

/// The loop's policy: only a failed read ends the session; a console
/// failure is reported and a log failure passed over, and relaying goes on.
pub open spec fn action_for(e: Event) -> Action {
    match e {
        Event::ByteRead(b) => Action::Relay(b),
        Event::NothingRead => Action::Continue,
        Event::ReadFailed => Action::ReportAndStop,
        Event::ConsoleWriteFailed => Action::ReportAndContinue,
        Event::LogWriteFailed => Action::Continue,
    }
}

/// What the loop does after an event.
pub fn next_action(e: Event) -> (a: Action)
    ensures
        a == action_for(e),
{
    match e {
        Event::ByteRead(b) => Action::Relay(b),
        Event::NothingRead => Action::Continue,
        Event::ReadFailed => Action::ReportAndStop,
        Event::ConsoleWriteFailed => Action::ReportAndContinue,
        Event::LogWriteFailed => Action::Continue,
    }
}

/// What one or more bytes produce for each sink.
pub struct Output {
    pub console: Vec<u8>,
    pub log: Vec<u8>,
}

/// The relay's state for one session.
pub struct LineRelay {
    pub config: RelayConfig,
    /// True before the first byte and after each line end.
    pub at_line_start: bool,
}

impl LineRelay {
    /// A relay at the start of a line.
    pub fn new(timestamps: bool, logging: bool) -> (r: Self)
        ensures
            r.config == (RelayConfig { timestamps, logging }),
            r.at_line_start,
    {
        LineRelay { config: RelayConfig { timestamps, logging }, at_line_start: true }
    }

    /// Whether byte `b` would get a timestamp now.
    pub fn needs_timestamp(&self, b: u8) -> (r: bool)
        ensures
            r == stamp_before(self.config, self.at_line_start, b),
    {
        self.config.timestamps && self.at_line_start && !is_line_end_byte(b)
    }

    /// Relays one byte, with `stamp` as the timestamp text should the byte
    /// start a line.
    pub fn process_byte(&mut self, b: u8, stamp: &Vec<u8>) -> (out: Output)
        ensures
            out.console@ == console_chunk(old(self).config, old(self).at_line_start, stamp@, b),
            out.log@ == log_chunk(old(self).config, old(self).at_line_start, stamp@, b),
            final(self).config == old(self).config,
            final(self).at_line_start == step(old(self).at_line_start, b).0,
    {
        let stamped = self.needs_timestamp(b);
        let (next, _) = line_step(self.at_line_start, b);
        self.at_line_start = next;
        let mut console: Vec<u8> = Vec::new();
        let mut log: Vec<u8> = Vec::new();
        if stamped {
            append_bytes(&mut console, stamp);
            if self.config.logging {
                append_bytes(&mut log, stamp);
            }
        }
        if is_text(b) {
            console.push(b);
        } else {
            console.push(PLACEHOLDER);
        }
        if self.config.logging {
            log.push(b);
        }
        proof {
            assert(console@ =~= console_chunk(old(self).config, old(self).at_line_start, stamp@, b));
            assert(log@ =~= log_chunk(old(self).config, old(self).at_line_start, stamp@, b));
        }
        Output { console, log }
    }

    /// Relays a run of bytes, with `stamp` as the text of every timestamp.
    pub fn process_bytes(&mut self, bytes: &Vec<u8>, stamp: &Vec<u8>) -> (out: Output)
        ensures
            out.console@ == console_of(old(self).config, old(self).at_line_start, stamp@, bytes@),
            out.log@ == log_of(old(self).config, old(self).at_line_start, stamp@, bytes@),
            final(self).config == old(self).config,
            final(self).at_line_start == state_after(old(self).at_line_start, bytes@),
    {
        let mut console: Vec<u8> = Vec::new();
        let mut log: Vec<u8> = Vec::new();
        let mut i: usize = 0;
        while i < bytes.len()
            invariant
                i <= bytes.len(),
                self.config == old(self).config,
                self.at_line_start == state_after(old(self).at_line_start, bytes@.subrange(0, i as int)),
                console@ == console_of(self.config, old(self).at_line_start, stamp@, bytes@.subrange(0, i as int)),
                log@ == log_of(self.config, old(self).at_line_start, stamp@, bytes@.subrange(0, i as int)),
            decreases bytes.len() - i,
        {
            let ghost prefix = bytes@.subrange(0, i as int);
            let one = self.process_byte(bytes[i], stamp);
            append_bytes(&mut console, &one.console);
            append_bytes(&mut log, &one.log);
            i = i + 1;
            proof {
                let next = bytes@.subrange(0, i as int);
                assert(next.drop_last() =~= prefix);
                assert(next.last() == bytes@[i - 1]);
            }
        }
        assert(bytes@.subrange(0, bytes.len() as int) =~= bytes@);
        Output { console, log }
    }
    /// Relays one byte, taking the timestamp, when the byte starts a line,
    /// from a clock reading; it is left out when the reading cannot be turned
    /// into a local time.
    pub fn relay_byte_at(&mut self, b: u8, reading: Option<(u64, u32)>) -> (out: Output)
        requires
            reading matches Some((_, nanos)) ==> nanos < 1_000_000_000,
        ensures
            readable(reading) ==> exists|t: LocalTime|
                t.wf() && out.console@ == console_chunk(old(self).config, old(self).at_line_start, timestamp_text(t), b)
                    && out.log@ == log_chunk(old(self).config, old(self).at_line_start, timestamp_text(t), b),
            !readable(reading) ==> out.console@ == console_chunk(old(self).config, old(self).at_line_start, Seq::empty(), b)
                && out.log@ == log_chunk(old(self).config, old(self).at_line_start, Seq::empty(), b),
            final(self).config == old(self).config,
            final(self).at_line_start == step(old(self).at_line_start, b).0,
    {
        let stamped = self.needs_timestamp(b);
        let stamp = if stamped {
            match timestamp_of(reading) {
                Some(text) => text,
                None => Vec::new(),
            }
        } else {
            Vec::new()
        };
        let out = self.process_byte(b, &stamp);
        proof {
            let cfg = old(self).config;
            let s0 = old(self).at_line_start;
            if readable(reading) {
                if stamped {
                    let t = choose|t: LocalTime| t.wf() && stamp@ == timestamp_text(t);
                    assert(t.wf() && out.console@ == console_chunk(cfg, s0, timestamp_text(t), b));
                } else {
                    let t = LocalTime { year: 1970, month: 1, day: 1, hour: 0, minute: 0, second: 0, nanosecond: 0 };
                    assert(stamp_part(cfg, s0, timestamp_text(t), b) =~= stamp_part(cfg, s0, stamp@, b));
                    assert(t.wf() && out.console@ == console_chunk(cfg, s0, timestamp_text(t), b));
                }
            } else {
                assert(stamp_part(cfg, s0, Seq::empty(), b) =~= stamp_part(cfg, s0, stamp@, b));
            }
        }
        out
    }

    /// Relays one byte as it is read, taking the timestamp from the clock
    /// when the byte starts a line; the timestamp is left out when the clock
    /// cannot be read.
    pub fn relay_byte(&mut self, b: u8) -> (out: Output)
        ensures
            exists|stamp: Seq<u8>|
                (stamp.len() == 0 || exists|t: LocalTime| t.wf() && stamp == timestamp_text(t))
                    && out.console@ == console_chunk(old(self).config, old(self).at_line_start, stamp, b)
                    && out.log@ == log_chunk(old(self).config, old(self).at_line_start, stamp, b),
            final(self).config == old(self).config,
            final(self).at_line_start == step(old(self).at_line_start, b).0,
    {
        let reading = clock_reading();
        let out = self.relay_byte_at(b, reading);
        proof {
            let cfg = old(self).config;
            let s0 = old(self).at_line_start;
            if readable(reading) {
                let t = choose|t: LocalTime|
                    t.wf() && out.console@ == console_chunk(cfg, s0, timestamp_text(t), b)
                        && out.log@ == log_chunk(cfg, s0, timestamp_text(t), b);
                assert(exists|u: LocalTime| u.wf() && timestamp_text(t) == timestamp_text(u));
            } else {
                assert(Seq::<u8>::empty().len() == 0);
            }
        }
        out
    }
}

} // verus!
