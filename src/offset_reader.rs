//! A seekable reader made from ranged reads of an object: the decisions of
//! the state machine Idle → Sending → Reading → Idle, with Stating for a seek
//! from the end while the size is unknown. The caller performs each action
//! (a ranged read, a stat, reading or discarding bytes of the open stream)
//! and reports back what happened.

use vstd::prelude::*;
use crate::range::BytesRange;
use crate::text::owned;

verus! {

/// A forward seek shorter than this discards bytes of the open stream
/// instead of reopening it.
pub const SEEK_DISCARD_WINDOW: u64 = 1048576;

/// At most this many bytes are discarded in one step.
pub const DISCARD_STEP: u64 = 212992;

/// Where a seek goes.
#[derive(Clone, Copy, Debug, PartialEq, Eq, Structural)]
pub enum SeekFrom {
    /// From the start of the reader.
    Start(u64),
    /// From the end of the reader.
    End(i64),
    /// From the current position.
    Current(i64),
}

/// The phase of the reader.
#[derive(Clone, Copy, Debug, PartialEq, Eq, Structural)]
pub enum ReadState {
    /// No request outstanding and no stream open.
    Idle,
    /// A stat is outstanding, to learn the size.
    Stating,
    /// A ranged read is outstanding.
    Sending,
    /// A stream is open; its next byte is the byte at the current position.
    Reading,
}

/// What the caller does next for a read.
#[derive(Clone, Copy, Debug, PartialEq, Eq, Structural)]
pub enum ReadAction {
    /// The end is reached: the read returns no bytes.
    Eof,
    /// Issue a ranged read of the object, then report the reply.
    Open(BytesRange),
    /// The ranged read is still outstanding.
    Pending,
    /// Read from the open stream, then report the bytes.
    Stream,
}

/// What the caller does next for a seek.
#[derive(Clone, Copy, Debug, PartialEq, Eq, Structural)]
pub enum SeekAction {
    /// The seek is done; the position is the value.
    Ready(u64),
    /// Stat the object, report its length, then seek again.
    Stat,
    /// Read and drop up to this many bytes of the open stream, report how
    /// many, then seek again.
    Discard(u64),
    /// The target is negative or overflows.
    Invalid,
}

/// The target of a seek, as far as it is known.
pub enum Target {
    At(u64),
    NeedSize,
    Bad,
}

/// A base and a signed amount, added as 64-bit signed integers and accepted
/// when the sum is not negative.
pub open spec fn add_offset(base: int, amt: i64) -> Target {
    if base > i64::MAX || base + amt > i64::MAX || base + amt < 0 {
        Target::Bad
    } else {
        Target::At((base + amt) as u64)
    }
}

/// The position a seek asks for, from the current position and the size.
pub open spec fn seek_target(cur: u64, size: Option<u64>, pos: SeekFrom) -> Target {
    match pos {
        SeekFrom::Start(n) => if n > i64::MAX { Target::Bad } else { Target::At(n) },
        SeekFrom::End(n) => match size {
            Some(s) => add_offset(s as int, n),
            None => Target::NeedSize,
        },
        SeekFrom::Current(n) => add_offset(cur as int, n),
    }
}

/// A seekable reader over the object at `path`, starting `offset` bytes in.
#[derive(Debug)]
pub struct OffsetReader {
    pub path: String,
    pub offset: u64,
    /// The reader's length (the object's length less `offset`), once known.
    pub size: Option<u64>,
    /// The current position, relative to `offset`.
    pub cur: u64,
    pub state: ReadState,
    /// The target of a seek that is under way, kept across its steps.
    pub last_seek_pos: Option<u64>,
}

/// The reader with its phase, position and pending target replaced.
pub open spec fn with_state(r: OffsetReader, state: ReadState, cur: u64, last: Option<u64>) -> OffsetReader {
    OffsetReader { state, cur, last_seek_pos: last, ..r }
}

/// The step a seek takes from reader `r`.
pub open spec fn seek_spec(r: OffsetReader, pos: SeekFrom) -> (OffsetReader, SeekAction) {
    match r.state {
        ReadState::Stating => (r, SeekAction::Stat),
        ReadState::Idle | ReadState::Sending => match r.last_seek_pos {
            Some(p) => (with_state(r, ReadState::Idle, p, None), SeekAction::Ready(p)),
            None => match seek_target(r.cur, r.size, pos) {
                Target::At(t) => (with_state(r, ReadState::Idle, t, None), SeekAction::Ready(t)),
                Target::NeedSize => (with_state(r, ReadState::Stating, r.cur, None), SeekAction::Stat),
                Target::Bad => (with_state(r, ReadState::Idle, r.cur, None), SeekAction::Invalid),
            },
        },
        ReadState::Reading => {
            let t = match r.last_seek_pos {
                Some(p) => Target::At(p),
                None => seek_target(r.cur, r.size, pos),
            };
            match t {
                Target::NeedSize => (with_state(r, ReadState::Stating, r.cur, r.last_seek_pos), SeekAction::Stat),
                Target::Bad => (r, SeekAction::Invalid),
                Target::At(t) => if t == r.cur {
                    (with_state(r, ReadState::Reading, r.cur, None), SeekAction::Ready(r.cur))
                } else if t > r.cur && t - r.cur < SEEK_DISCARD_WINDOW {
                    (
                        with_state(r, ReadState::Reading, r.cur, Some(t)),
                        SeekAction::Discard(if t - r.cur < DISCARD_STEP { (t - r.cur) as u64 } else { DISCARD_STEP }),
                    )
                } else {
                    (with_state(r, ReadState::Idle, t, None), SeekAction::Ready(t))
                },
            }
        },
    }
}

/// The step a read takes from reader `r`.
pub open spec fn read_spec(r: OffsetReader) -> (OffsetReader, ReadAction) {
    match r.state {
        ReadState::Idle | ReadState::Stating => if r.size matches Some(s) && r.cur >= s {
            (with_state(r, ReadState::Idle, r.cur, r.last_seek_pos), ReadAction::Eof)
        } else {
            (
                with_state(r, ReadState::Sending, r.cur, r.last_seek_pos),
                ReadAction::Open(BytesRange {
                    offset: Some((r.offset + r.cur) as u64),
                    size: match r.size {
                        Some(s) => Some((s - r.cur) as u64),
                        None => None,
                    },
                }),
            )
        },
        ReadState::Sending => (r, ReadAction::Pending),
        ReadState::Reading => (r, ReadAction::Stream),
    }
}

/// The reader's position fits with its offset, as the ranged read needs.
pub open spec fn positions_fit(r: OffsetReader) -> bool {
    r.offset + r.cur <= u64::MAX
}

/// A reader over `path` from `offset`, at position 0, with nothing known.
pub fn by_offset(path: &str, offset: u64) -> (r: OffsetReader)
    ensures
        r.path@ == path@,
        r.offset == offset,
        r.size is None,
        r.cur == 0,
        r.state == ReadState::Idle,
        r.last_seek_pos is None,
{
    OffsetReader { path: owned(path), offset, size: None, cur: 0, state: ReadState::Idle, last_seek_pos: None }
}

/// The position a seek asks for.
fn compute_target(cur: u64, size: Option<u64>, pos: SeekFrom) -> (t: Target)
    ensures
        t == seek_target(cur, size, pos),
{
    match pos {
        SeekFrom::Start(n) => if n > i64::MAX as u64 { Target::Bad } else { Target::At(n) },
        SeekFrom::End(n) => match size {
            Some(s) => add_checked(s, n),
            None => Target::NeedSize,
        },
        SeekFrom::Current(n) => add_checked(cur, n),
    }
}

/// `base + amt` in signed 64-bit arithmetic, refused when negative.
fn add_checked(base: u64, amt: i64) -> (t: Target)
    ensures
        t == add_offset(base as int, amt),
{
    if base > i64::MAX as u64 {
        return Target::Bad;
    }
    let b = base as i64;
    if amt > 0 && b > i64::MAX - amt {
        return Target::Bad;
    }
    let s = b + amt;
    if s < 0 { Target::Bad } else { Target::At(s as u64) }
}

impl OffsetReader {
    /// Takes one step of a seek.
    pub fn seek(&mut self, pos: SeekFrom) -> (r: SeekAction)
        ensures
            (*final(self), r) == seek_spec(*old(self), pos),
    {
        match self.state {
            ReadState::Stating => SeekAction::Stat,
            ReadState::Idle | ReadState::Sending => {
                self.state = ReadState::Idle;
                match self.last_seek_pos {
                    Some(p) => {
                        self.cur = p;
                        self.last_seek_pos = None;
                        SeekAction::Ready(p)
                    },
                    None => match compute_target(self.cur, self.size, pos) {
                        Target::At(t) => {
                            self.cur = t;
                            SeekAction::Ready(t)
                        },
                        Target::NeedSize => {
                            self.state = ReadState::Stating;
                            SeekAction::Stat
                        },
                        Target::Bad => SeekAction::Invalid,
                    },
                }
            },
            ReadState::Reading => {
                let t = match self.last_seek_pos {
                    Some(p) => Target::At(p),
                    None => compute_target(self.cur, self.size, pos),
                };
                match t {
                    Target::NeedSize => {
                        self.state = ReadState::Stating;
                        SeekAction::Stat
                    },
                    Target::Bad => SeekAction::Invalid,
                    Target::At(t) => {
                        if t == self.cur {
                            self.last_seek_pos = None;
                            SeekAction::Ready(t)
                        } else if t > self.cur && t - self.cur < SEEK_DISCARD_WINDOW {
                            self.last_seek_pos = Some(t);
                            let d = t - self.cur;
                            SeekAction::Discard(if d < DISCARD_STEP { d } else { DISCARD_STEP })
                        } else {
                            self.state = ReadState::Idle;
                            self.cur = t;
                            self.last_seek_pos = None;
                            SeekAction::Ready(t)
                        }
                    },
                }
            },
        }
    }

    /// Takes one step of a read.
    pub fn read(&mut self) -> (r: ReadAction)
        requires
            positions_fit(*old(self)),
        ensures
            (*final(self), r) == read_spec(*old(self)),
    {
        match self.state {
            ReadState::Idle | ReadState::Stating => {
                self.state = ReadState::Idle;
                if let Some(s) = self.size {
                    if self.cur >= s {
                        return ReadAction::Eof;
                    }
                }
                self.state = ReadState::Sending;
                let size = match self.size {
                    Some(s) => Some(s - self.cur),
                    None => None,
                };
                ReadAction::Open(BytesRange::new(Some(self.offset + self.cur), size))
            },
            ReadState::Sending => ReadAction::Pending,
            ReadState::Reading => ReadAction::Stream,
        }
    }

    /// The ranged read answered with `content_length` bytes to come: the
    /// size becomes known and the stream is open.
    pub fn on_read_reply(&mut self, content_length: u64)
        requires
            old(self).state == ReadState::Sending,
            old(self).cur + content_length <= u64::MAX,
        ensures
            *final(self) == (OffsetReader {
                size: Some((old(self).cur + content_length) as u64),
                state: ReadState::Reading,
                ..*old(self)
            }),
    {
        self.size = Some(self.cur + content_length);
        self.state = ReadState::Reading;
    }

    /// The stream gave `n` bytes, or ended when `n` is 0.
    pub fn on_data(&mut self, n: u64)
        requires
            old(self).state == ReadState::Reading,
            old(self).cur + n <= u64::MAX,
        ensures
            n == 0 ==> *final(self) == (OffsetReader { state: ReadState::Idle, ..*old(self) }),
            n > 0 ==> *final(self) == (OffsetReader { cur: (old(self).cur + n) as u64, ..*old(self) }),
    {
        if n == 0 {
            self.state = ReadState::Idle;
        } else {
            self.cur = self.cur + n;
        }
    }

    /// `n` bytes were read and dropped from the stream during a seek.
    pub fn on_discarded(&mut self, n: u64)
        requires
            old(self).state == ReadState::Reading,
            0 < n,
            old(self).last_seek_pos matches Some(t) && old(self).cur + n <= t,
        ensures
            *final(self) == (OffsetReader { cur: (old(self).cur + n) as u64, ..*old(self) }),
    {
        self.cur = self.cur + n;
    }

    /// The outstanding request or stream failed: back to idle.
    pub fn on_error(&mut self)
        ensures
            *final(self) == (OffsetReader { state: ReadState::Idle, ..*old(self) }),
    {
        self.state = ReadState::Idle;
    }

    /// The stat answered with the object's length: the reader's size is that
    /// length less the offset.
    pub fn on_stat(&mut self, content_length: u64)
        requires
            old(self).state == ReadState::Stating,
            content_length >= old(self).offset,
        ensures
            *final(self) == (OffsetReader {
                size: Some((content_length - old(self).offset) as u64),
                state: ReadState::Idle,
                ..*old(self)
            }),
    {
        self.size = Some(content_length - self.offset);
        self.state = ReadState::Idle;
    }
}

/// From an idle reader, a seek to `x` completes at once at `x`, and the next
/// read either finds the end or asks for the object's bytes from `offset + x`,
/// so the bytes it returns are those from position `x` on.
pub proof fn lemma_seek_then_read(r: OffsetReader, x: u64)
    requires
        r.state == ReadState::Idle,
        r.last_seek_pos is None,
        x <= i64::MAX,
        r.offset + x <= u64::MAX,
    ensures
        seek_spec(r, SeekFrom::Start(x)).1 == SeekAction::Ready(x),
        seek_spec(r, SeekFrom::Start(x)).0.cur == x,
        ({
            let r1 = seek_spec(r, SeekFrom::Start(x)).0;
            let a = read_spec(r1).1;
            a == ReadAction::Eof || (a matches ReadAction::Open(range) && range.offset == Some((r.offset + x) as u64))
        }),
{
}

/// From a reader with an open stream, a seek to `x` ends at `x`: at once, or
/// after discarding the bytes in between, so the stream's next byte is the
/// byte at `x`.
pub proof fn lemma_seek_while_reading(r: OffsetReader, x: u64)
    requires
        r.state == ReadState::Reading,
        r.last_seek_pos is None,
        x <= i64::MAX,
    ensures
        ({
            let (r1, a) = seek_spec(r, SeekFrom::Start(x));
            match a {
                SeekAction::Ready(p) => p == x && r1.cur == x,
                SeekAction::Discard(n) => x > r.cur && 0 < n && r.cur + n <= x && r1.last_seek_pos == Some(x)
                    && r1.state == ReadState::Reading && r1.cur == r.cur,
                _ => false,
            }
        }),
{
}

/// During a seek that discards, each step either finishes at the target or
/// asks to discard more bytes towards it, without passing it.
pub proof fn lemma_discard_progress(r: OffsetReader, pos: SeekFrom)
    requires
        r.state == ReadState::Reading,
        r.last_seek_pos matches Some(t) && r.cur <= t,
    ensures
        ({
            let t = r.last_seek_pos->Some_0;
            let (r1, a) = seek_spec(r, pos);
            match a {
                SeekAction::Ready(p) => p == t && r1.cur == t && r1.last_seek_pos is None,
                SeekAction::Discard(n) => 0 < n && r.cur + n <= t && r1.last_seek_pos == Some(t),
                _ => false,
            }
        }),
{
}

} // verus!
