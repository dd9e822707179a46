//! The control protocol: framed commands arrive one per line on the input
//! stream, and the command loop decides, from each line or end-of-input,
//! what the host must do next — read more input, feed the emulation engine,
//! emit a snapshot or cursor line, stop cleanly, or abort.
//!
//! The host performs the blocking reads, the engine calls and the writes;
//! every decision between them is made here.

use vstd::prelude::*;

verus! {

/// A fatal protocol failure; the stream framing offers no resynchronization,
/// so every one of these terminates the loop.
#[derive(Clone, Copy, PartialEq, Eq, Structural, Debug)]
pub enum ProtocolError {
    /// A command line with no characters at all.
    EmptyCommand,
    /// A command line starting with an unknown command character.
    UnknownCommand,
    /// A feed count line that does not parse as a non-negative integer.
    BadCount,
    /// End of input, or a short read, in the middle of a feed command.
    TruncatedInput,
}

/// ASCII whitespace, as trimmed off a count line.
pub open spec fn is_ascii_space(b: u8) -> bool {
    b == 32 || (9 <= b && b <= 13)
}

/// The byte sequence with leading whitespace removed.
pub open spec fn trim_front(s: Seq<u8>) -> Seq<u8>
    decreases s.len(),
{
    if s.len() > 0 && is_ascii_space(s.first()) {
        trim_front(s.drop_first())
    } else {
        s
    }
}

/// The byte sequence with trailing whitespace removed.
pub open spec fn trim_back(s: Seq<u8>) -> Seq<u8>
    decreases s.len(),
{
    if s.len() > 0 && is_ascii_space(s.last()) {
        trim_back(s.drop_last())
    } else {
        s
    }
}

/// The byte sequence with whitespace removed from both ends.
pub open spec fn trimmed(s: Seq<u8>) -> Seq<u8> {
    trim_back(trim_front(s))
}

/// Whether a byte is a decimal digit.
pub open spec fn is_digit(b: u8) -> bool {
    48 <= b && b <= 57
}

/// Whether every byte is a decimal digit.
pub open spec fn all_digits(s: Seq<u8>) -> bool {
    forall|i: int| 0 <= i < s.len() ==> is_digit(#[trigger] s[i])
}

/// The value of a digit string read in base ten.
pub open spec fn dec_value(s: Seq<u8>) -> int
    decreases s.len(),
{
    if s.len() == 0 {
        0
    } else {
        dec_value(s.drop_last()) * 10 + (s.last() - 48)
    }
}

/// What a count line means: its whitespace-trimmed text read as a base-ten
/// integer, provided it is non-empty, all digits, and within range; nothing
/// otherwise.
pub open spec fn spec_count(line: Seq<u8>) -> Option<u64> {
    let t = trimmed(line);
    if t.len() > 0 && all_digits(t) && dec_value(t) <= u64::MAX {
        Some(dec_value(t) as u64)
    } else {
        None
    }
}

/// A digit string's value only grows as digits are appended.
proof fn lemma_dec_value_prefix(s: Seq<u8>, i: int)
    requires
        0 <= i <= s.len(),
        all_digits(s),
    ensures
        dec_value(s.subrange(0, i)) <= dec_value(s),
        dec_value(s) >= 0,
    decreases s.len() - i,
{
    if i == s.len() {
        assert(s.subrange(0, i) =~= s);
        lemma_dec_value_nonneg(s);
    } else {
        lemma_dec_value_prefix(s, i + 1);
        let p = s.subrange(0, i);
        let q = s.subrange(0, i + 1);
        assert(q.drop_last() =~= p);
        lemma_dec_value_nonneg(p);
    }
}

/// A digit string's value is never negative.
proof fn lemma_dec_value_nonneg(s: Seq<u8>)
    requires
        all_digits(s),
    ensures
        dec_value(s) >= 0,
    decreases s.len(),
{
    if s.len() > 0 {
        assert(all_digits(s.drop_last()));
        lemma_dec_value_nonneg(s.drop_last());
    }
}

/// Whether a byte is ASCII whitespace.
fn is_space_byte(b: u8) -> (r: bool)
    ensures
        r == is_ascii_space(b),
{
    b == 32 || (9 <= b && b <= 13)
}

/// Parses a count line: the whitespace-trimmed text read as a base-ten
/// integer, or nothing when it is empty, holds a non-digit, or overflows.
pub fn parse_count(line: &[u8]) -> (r: Option<u64>)
    ensures
        r == spec_count(line@),
{
    let len = line.len();
    proof {
        assert(line@.subrange(0, len as int) =~= line@);
    }
    let mut lo: usize = 0;
    while lo < len && is_space_byte(line[lo])
        invariant
            lo <= len,
            len == line@.len(),
            trim_front(line@) == trim_front(line@.subrange(lo as int, len as int)),
        decreases len - lo,
    {
        proof {
            assert(line@.subrange(lo as int, len as int).drop_first() =~= line@.subrange(
                lo + 1,
                len as int,
            ));
        }
        lo = lo + 1;
    }
    proof {
        assert(trim_front(line@) =~= line@.subrange(lo as int, len as int));
    }
    let mut hi: usize = len;
    while hi > lo && is_space_byte(line[hi - 1])
        invariant
            lo <= hi <= len,
            len == line@.len(),
            trim_front(line@) == line@.subrange(lo as int, len as int),
            trimmed(line@) == trim_back(line@.subrange(lo as int, hi as int)),
        decreases hi,
    {
        proof {
            assert(line@.subrange(lo as int, hi as int).drop_last() =~= line@.subrange(
                lo as int,
                hi - 1,
            ));
        }
        hi = hi - 1;
    }
    let ghost t = line@.subrange(lo as int, hi as int);
    proof {
        assert(trimmed(line@) =~= t);
    }
    if lo == hi {
        return None;
    }
    let mut n: u64 = 0;
    let mut i: usize = lo;
    while i < hi
        invariant
            lo <= i <= hi <= len,
            len == line@.len(),
            lo < hi,
            t == line@.subrange(lo as int, hi as int),
            trimmed(line@) == t,
            all_digits(t.subrange(0, i - lo)),
            n as int == dec_value(t.subrange(0, i - lo)),
        decreases hi - i,
    {
        let b = line[i];
        if b < 48 || b > 57 {
            proof {
                assert(t[i - lo] == b);
                assert(!all_digits(t));
            }
            return None;
        }
        let d: u64 = (b - 48) as u64;
        let ghost prefix = t.subrange(0, i - lo);
        let ghost next = t.subrange(0, i - lo + 1);
        proof {
            assert(next.drop_last() =~= prefix);
            assert(next.last() == b);
        }
        if n > (u64::MAX - d) / 10 {
            proof {
                assert(dec_value(next) > u64::MAX) by {
                    assert(n as int * 10 + d > u64::MAX) by (nonlinear_arith)
                        requires
                            n as int > (u64::MAX - d) / 10,
                            0 <= d <= 9,
                    ;
                }
                if all_digits(t) {
                    lemma_dec_value_prefix(t, i - lo + 1);
                }
            }
            return None;
        }
        n = n * 10 + d;
        i = i + 1;
    }
    proof {
        assert(t.subrange(0, hi - lo) =~= t);
        lemma_dec_value_nonneg(t);
    }
    Some(n)
}

/// Where the command loop stands between events.
#[derive(Clone, Copy, PartialEq, Eq, Structural, Debug)]
pub enum Mode {
    /// Ready for the next command line.
    AwaitingCommand,
    /// A feed command was read; its count line is next.
    AwaitingCount,
    /// A count was read; that many raw payload bytes are next.
    AwaitingPayload(u64),
    /// End of input arrived between commands: the clean exit.
    Closed,
    /// A fatal protocol failure.
    Failed(ProtocolError),
}

/// What the host read from the input stream.
pub enum LoopEvent {
    /// One line as read; its trailing newline may be included. A command is
    /// named by the line's first byte, and a count line is trimmed before
    /// parsing, so the terminator never matters.
    LineRead(Vec<u8>),
    /// The raw payload bytes that could be read; short only at end of
    /// input.
    BytesRead(Vec<u8>),
    /// End of input.
    EndOfInput,
}

/// What the host must do after an event; every action except `Stop` and
/// `Abort` is followed by reading more input as the new mode asks.
#[derive(Clone, Copy, PartialEq, Eq, Structural, Debug)]
pub enum LoopAction {
    /// Read the next line.
    ReadLine,
    /// Read exactly this many raw payload bytes, fewer only at end of
    /// input.
    ReadBytes(u64),
    /// Forward the payload bytes just read to the engine verbatim, then
    /// read the next line. No output is produced.
    Feed,
    /// Run one cell-enumeration pass with a fresh snapshot builder, write
    /// the serialized snapshot as one line, then read the next line.
    PrintSnapshot,
    /// Query cursor position and visibility, write the serialized cursor
    /// state as one line, then read the next line.
    PrintCursor,
    /// Terminate normally.
    Stop,
    /// Terminate with this fatal error.
    Abort(ProtocolError),
}

/// Whether an event is one the mode can receive: lines while awaiting a
/// command or a count, payload bytes (at most the count) while awaiting a
/// payload, end of input during any read, and nothing once the loop ended.
pub open spec fn mode_expects(m: Mode, ev: LoopEvent) -> bool {
    match m {
        Mode::AwaitingCommand => ev is LineRead || ev is EndOfInput,
        Mode::AwaitingCount => ev is LineRead || ev is EndOfInput,
        Mode::AwaitingPayload(n) => (ev matches LoopEvent::BytesRead(b) && b@.len() <= n) || (
        ev is EndOfInput),
        Mode::Closed => false,
        Mode::Failed(_) => false,
    }
}

/// The command loop's transition: the next mode and the action the host
/// must perform. A command line is read by its first byte: `d` feeds, `p`
/// prints a snapshot, `c` prints the cursor; an empty line, any other
/// first byte, a bad count, and end of input mid-command are fatal, while
/// end of input between commands closes the loop cleanly.
pub open spec fn spec_step(m: Mode, ev: LoopEvent) -> (Mode, LoopAction)
    recommends
        mode_expects(m, ev),
{
    match m {
        Mode::AwaitingCommand => match ev {
            LoopEvent::LineRead(line) => {
                if line@.len() == 0 {
                    (Mode::Failed(ProtocolError::EmptyCommand), LoopAction::Abort(
                        ProtocolError::EmptyCommand,
                    ))
                } else if line@[0] == 100 {
                    (Mode::AwaitingCount, LoopAction::ReadLine)
                } else if line@[0] == 112 {
                    (Mode::AwaitingCommand, LoopAction::PrintSnapshot)
                } else if line@[0] == 99 {
                    (Mode::AwaitingCommand, LoopAction::PrintCursor)
                } else {
                    (Mode::Failed(ProtocolError::UnknownCommand), LoopAction::Abort(
                        ProtocolError::UnknownCommand,
                    ))
                }
            },
            _ => (Mode::Closed, LoopAction::Stop),
        },
        Mode::AwaitingCount => match ev {
            LoopEvent::LineRead(line) => match spec_count(line@) {
                Some(n) => (Mode::AwaitingPayload(n), LoopAction::ReadBytes(n)),
                None => (Mode::Failed(ProtocolError::BadCount), LoopAction::Abort(
                    ProtocolError::BadCount,
                )),
            },
            _ => (Mode::Failed(ProtocolError::TruncatedInput), LoopAction::Abort(
                ProtocolError::TruncatedInput,
            )),
        },
        Mode::AwaitingPayload(n) => match ev {
            LoopEvent::BytesRead(b) => {
                if b@.len() == n {
                    (Mode::AwaitingCommand, LoopAction::Feed)
                } else {
                    (Mode::Failed(ProtocolError::TruncatedInput), LoopAction::Abort(
                        ProtocolError::TruncatedInput,
                    ))
                }
            },
            _ => (Mode::Failed(ProtocolError::TruncatedInput), LoopAction::Abort(
                ProtocolError::TruncatedInput,
            )),
        },
        _ => (m, LoopAction::Stop),
    }
}

/// Advances the command loop by one event.
pub fn step(m: Mode, ev: &LoopEvent) -> (r: (Mode, LoopAction))
    requires
        mode_expects(m, *ev),
    ensures
        r == spec_step(m, *ev),
{
    match m {
        Mode::AwaitingCommand => match ev {
            LoopEvent::LineRead(line) => {
                if line.len() == 0 {
                    (Mode::Failed(ProtocolError::EmptyCommand), LoopAction::Abort(
                        ProtocolError::EmptyCommand,
                    ))
                } else {
                    let b = line[0];
                    if b == 100 {
                        (Mode::AwaitingCount, LoopAction::ReadLine)
                    } else if b == 112 {
                        (Mode::AwaitingCommand, LoopAction::PrintSnapshot)
                    } else if b == 99 {
                        (Mode::AwaitingCommand, LoopAction::PrintCursor)
                    } else {
                        (Mode::Failed(ProtocolError::UnknownCommand), LoopAction::Abort(
                            ProtocolError::UnknownCommand,
                        ))
                    }
                }
            },
            _ => (Mode::Closed, LoopAction::Stop),
        },
        Mode::AwaitingCount => match ev {
            LoopEvent::LineRead(line) => match parse_count(line.as_slice()) {
                Some(n) => (Mode::AwaitingPayload(n), LoopAction::ReadBytes(n)),
                None => (Mode::Failed(ProtocolError::BadCount), LoopAction::Abort(
                    ProtocolError::BadCount,
                )),
            },
            _ => (Mode::Failed(ProtocolError::TruncatedInput), LoopAction::Abort(
                ProtocolError::TruncatedInput,
            )),
        },
        Mode::AwaitingPayload(n) => match ev {
            LoopEvent::BytesRead(b) => {
                if b.len() as u64 == n {
                    (Mode::AwaitingCommand, LoopAction::Feed)
                } else {
                    (Mode::Failed(ProtocolError::TruncatedInput), LoopAction::Abort(
                        ProtocolError::TruncatedInput,
                    ))
                }
            },
            _ => (Mode::Failed(ProtocolError::TruncatedInput), LoopAction::Abort(
                ProtocolError::TruncatedInput,
            )),
        },
        Mode::Closed => (m, LoopAction::Stop),
        Mode::Failed(_) => (m, LoopAction::Stop),
    }
}

} // verus!
