use vstd::prelude::*;

verus! {

/// Where to move the read position of a remote file.
#[derive(Debug, Clone, Copy, PartialEq, Eq)]
pub enum SeekPosition {
    Start(u64),
    End(i64),
    Current(i64),
}

/// The byte that a seek aims at: `n` from the start, or the end or the
/// position moved by the signed offset `n`.
pub open spec fn seek_target(c: ReadCursor, position: SeekPosition) -> int {
    match position {
        SeekPosition::Start(n) => n as int,
        SeekPosition::End(n) => c.len + n,
        SeekPosition::Current(n) => c.cursor + n,
    }
}

/// The read position in a remote file of `len` bytes, which is read in
/// ranges requested one at a time.
#[derive(Debug, Clone, Copy, PartialEq, Eq)]
pub struct ReadCursor {
    pub cursor: u64,
    pub len: u64,
}

impl ReadCursor {
    /// The start of a file of `len` bytes.
    pub fn new(len: u64) -> (r: ReadCursor)
        ensures
            r.cursor == 0,
            r.len == len,
    {
        ReadCursor { cursor: 0, len }
    }

    /// The range to request next for a buffer with room for `remaining`
    /// bytes: from the position, up to `remaining` bytes, no further than
    /// the end of the file.
    pub fn next_range(&self, remaining: usize) -> (r: (u64, u64))
        requires
            self.cursor + remaining <= u64::MAX,
        ensures
            r.0 == self.cursor,
            r.1 == if self.cursor + remaining < self.len { self.cursor + remaining } else { self.len as int },
    {
        let wanted = self.cursor + remaining as u64;
        let end = if wanted < self.len { wanted } else { self.len };
        (self.cursor, end)
    }

    /// Takes the answer for the range `start..end` into a buffer with room
    /// for `remaining` bytes: when the range starts at the position, as
    /// many of its bytes as fit, the position moving past them; otherwise
    /// nothing (the answer is for an earlier request).
    pub fn take_range(&mut self, start: u64, end: u64, remaining: usize) -> (r: Option<u64>)
        requires
            start == old(self).cursor ==> start <= end,
        ensures
            final(self).len == old(self).len,
            match r {
                Some(n) => start == old(self).cursor
                    && n == (if end - start < remaining { end - start } else { remaining as int })
                    && final(self).cursor == old(self).cursor + n,
                None => start != old(self).cursor && final(self).cursor == old(self).cursor,
            },
    {
        if start == self.cursor {
            let size = end - start;
            let n = if size < remaining as u64 { size } else { remaining as u64 };
            self.cursor = self.cursor + n;
            Some(n)
        } else {
            None
        }
    }

    /// Moves the position: to a byte, or by a signed offset from the end or
    /// from the position, as `SeekFrom` does. A position before the first
    /// byte (or past the largest `u64`) is refused, and nothing moves.
    pub fn seek(&mut self, position: SeekPosition) -> (r: Option<u64>)
        ensures
            final(self).len == old(self).len,
            match r {
                Some(p) => seek_target(*old(self), position) == p as int && final(self).cursor == p,
                None => !(0 <= seek_target(*old(self), position) <= u64::MAX)
                    && final(self).cursor == old(self).cursor,
            },
    {
        let target: i128 = match position {
            SeekPosition::Start(n) => n as i128,
            SeekPosition::End(n) => self.len as i128 + n as i128,
            SeekPosition::Current(n) => self.cursor as i128 + n as i128,
        };
        if 0 <= target && target <= u64::MAX as i128 {
            self.cursor = target as u64;
            Some(self.cursor)
        } else {
            None
        }
    }
}

/// Reading the next range into a buffer never moves the position past the
/// end of the file, and moves it by the bytes that were left, up to the
/// room in the buffer.
pub proof fn lemma_read_stays_in_file(c: ReadCursor, remaining: nat)
    requires
        c.cursor <= c.len,
        c.cursor + remaining <= u64::MAX,
    ensures
        ({
            let end = if c.cursor + remaining < c.len { c.cursor + remaining } else { c.len as int };
            let n = if end - c.cursor < remaining { end - c.cursor } else { remaining as int };
            &&& c.cursor + n <= c.len
            &&& n == if c.len - c.cursor < remaining { c.len - c.cursor } else { remaining as int }
        }),
{
}

} // verus!
