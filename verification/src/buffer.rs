//! A fixed-capacity byte buffer over a borrowed region.

use vstd::prelude::*;
use vstd::slice::slice_subrange;
use crate::ring::Ring;

verus! {

/// A byte buffer over a borrowed region `mem`, with a read cursor `start` and
/// a write cursor `end`.
pub struct Buffer<'m> {
    mem: &'m mut [u8],
    start: usize,
    end: usize,
}

/// A buffer is seen as the bytes of its region and its two cursors.
impl<'m> View for Buffer<'m> {
    type V = Ring;

    closed spec fn view(&self) -> Ring {
        Ring { mem: self.mem@, start: self.start as nat, end: self.end as nat }
    }
}

/// Copies bytes from the front of `src` to the front of `dest`, as many as
/// both hold, and returns how many. The rest of `dest` stays as it was.
fn copy_prefix(dest: &mut [u8], src: &[u8]) -> (n: usize)
    ensures
        n == vstd::math::min(old(dest)@.len() as int, src@.len() as int),
        final(dest)@ == src@.subrange(0, n as int) + old(dest)@.subrange(
            n as int,
            old(dest)@.len() as int,
        ),
{
    let n: usize = if dest.len() <= src.len() {
        dest.len()
    } else {
        src.len()
    };
    let mut i: usize = 0;
    while i < n
        invariant
            i <= n,
            n <= src@.len(),
            n <= dest@.len(),
            dest@.len() == old(dest)@.len(),
            dest@ == src@.subrange(0, i as int) + old(dest)@.subrange(
                i as int,
                old(dest)@.len() as int,
            ),
        decreases n - i,
    {
        dest[i] = src[i];
        i += 1;
    }
    n
}

impl<'m> Buffer<'m> {
    /// The cursors are ordered and inside the region, and both are at zero
    /// when nothing is unread.
    pub open spec fn wf(&self) -> bool {
        self@.wf()
    }

    /// An empty buffer over `mem`.
    pub fn new(mem: &'m mut [u8]) -> (buffer: Self)
        ensures
            buffer.wf(),
            buffer@ == Ring::fresh(old(mem)@),
    {
        Buffer { mem, start: 0, end: 0 }
    }

    /// Shows the unread bytes to `f`, which says how many of them it has
    /// taken or fails. On success the read cursor moves past those bytes; on
    /// failure the buffer is as it was.
    pub fn try_read_with<E>(&mut self, f: impl FnOnce(&[u8]) -> Result<usize, E>) -> (result:
        Result<usize, E>)
        requires
            old(self).wf(),
            forall|buf: &[u8]| buf@ == old(self)@.readable() ==> #[trigger] f.requires((buf,)),
            forall|buf: &[u8], n: usize|
                buf@ == old(self)@.readable() && #[trigger] f.ensures((buf,), Ok(n)) ==> n <= buf@.len(),
        ensures
            final(self).wf(),
            exists|buf: &[u8]| buf@ == old(self)@.readable() && #[trigger] f.ensures((buf,), result),
            final(self)@ == match result {
                Ok(n) => old(self)@.consume(n as nat),
                Err(_) => old(self)@,
            },
    {
        let unread = slice_subrange(self.mem, self.start, self.end);
        let result = f(unread);
        match result {
            Ok(n) => {
                self.commit_read(n);
                Ok(n)
            },
            Err(e) => Err(e),
        }
    }

    /// Shows the unread bytes to `f`, which says how many of them it has
    /// taken, and moves the read cursor past those bytes.
    pub fn read_with(&mut self, f: impl FnOnce(&[u8]) -> usize) -> (n: usize)
        requires
            old(self).wf(),
            forall|buf: &[u8]| buf@ == old(self)@.readable() ==> #[trigger] f.requires((buf,)),
            forall|buf: &[u8], n: usize|
                buf@ == old(self)@.readable() && #[trigger] f.ensures((buf,), n) ==> n <= buf@.len(),
        ensures
            final(self).wf(),
            exists|buf: &[u8]| buf@ == old(self)@.readable() && #[trigger] f.ensures((buf,), n),
            final(self)@ == old(self)@.consume(n as nat),
    {
        let unread = slice_subrange(self.mem, self.start, self.end);
        let n: usize = f(unread);
        self.commit_read(n);
        n
    }

    /// Copies unread bytes into `dest`, as many as there are and as `dest`
    /// has room for, and moves the read cursor past them. Returns how many.
    pub fn read(&mut self, dest: &mut [u8]) -> (n: usize)
        requires
            old(self).wf(),
        ensures
            final(self).wf(),
            n == old(self)@.read_len(old(dest)@.len()),
            final(dest)@ == old(self)@.readable().subrange(0, n as int) + old(dest)@.subrange(
                n as int,
                old(dest)@.len() as int,
            ),
            final(self)@ == old(self)@.consume(n as nat),
    {
        let unread = slice_subrange(self.mem, self.start, self.end);
        let n: usize = copy_prefix(dest, unread);
        self.commit_read(n);
        n
    }

    /// Hands the free tail to `f`, which fills some of it from the front and
    /// says how many bytes it has put there, or fails. On success the write
    /// cursor moves past those bytes, and the unread bytes move to the front
    /// of the region if the tail is now used up. On failure the cursors are
    /// as they were.
    ///
    /// `f` has to leave the tail at the length it had, as every function
    /// does, and to say so in its contract.
    pub fn try_write_with<E>(&mut self, f: impl FnOnce(&mut [u8]) -> Result<usize, E>) -> (result:
        Result<usize, E>)
        requires
            old(self).wf(),
            forall|buf: &mut [u8]| buf@ == old(self)@.writable() ==> #[trigger] f.requires((buf,)),
            forall|buf: &mut [u8], r: Result<usize, E>|
                buf@ == old(self)@.writable() && #[trigger] f.ensures((buf,), r) ==> {
                    &&& final(buf)@.len() == buf@.len()
                    &&& r matches Ok(n) ==> n <= buf@.len()
                },
        ensures
            final(self).wf(),
            exists|buf: &mut [u8]|
                {
                    &&& buf@ == old(self)@.writable()
                    &&& #[trigger] f.ensures((buf,), result)
                    &&& final(self)@ == match result {
                        Ok(n) => old(self)@.with_tail(final(buf)@).produce(n as nat),
                        Err(_) => old(self)@.with_tail(final(buf)@),
                    }
                },
    {
        let written: usize = self.end;
        let (_, tail) = self.mem.split_at_mut(written);
        let result = f(tail);
        match result {
            Ok(n) => {
                self.commit_write(n);
                Ok(n)
            },
            Err(e) => Err(e),
        }
    }

    /// Hands the free tail to `f`, which fills some of it from the front and
    /// says how many bytes it has put there. The write cursor moves past
    /// those bytes, and the unread bytes move to the front of the region if
    /// the tail is now used up.
    ///
    /// `f` has to leave the tail at the length it had, as every function
    /// does, and to say so in its contract.
    pub fn write_with(&mut self, f: impl FnOnce(&mut [u8]) -> usize) -> (n: usize)
        requires
            old(self).wf(),
            forall|buf: &mut [u8]| buf@ == old(self)@.writable() ==> #[trigger] f.requires((buf,)),
            forall|buf: &mut [u8], n: usize|
                buf@ == old(self)@.writable() && #[trigger] f.ensures((buf,), n) ==> {
                    &&& final(buf)@.len() == buf@.len()
                    &&& n <= buf@.len()
                },
        ensures
            final(self).wf(),
            exists|buf: &mut [u8]|
                {
                    &&& buf@ == old(self)@.writable()
                    &&& #[trigger] f.ensures((buf,), n)
                    &&& final(self)@ == old(self)@.with_tail(final(buf)@).produce(n as nat)
                },
    {
        let written: usize = self.end;
        let (_, tail) = self.mem.split_at_mut(written);
        let n: usize = f(tail);
        self.commit_write(n);
        n
    }

    /// Copies bytes of `src` into the free tail, as many as `src` has and as
    /// the tail has room for, and moves the write cursor past them. Returns
    /// how many. Room in front of the unread bytes does not count: it is
    /// regained only when a write uses the tail up.
    pub fn write(&mut self, src: &[u8]) -> (n: usize)
        requires
            old(self).wf(),
        ensures
            final(self).wf(),
            n == old(self)@.write_len(src@.len()),
            final(self)@ == old(self)@.put(src@.subrange(0, n as int)),
    {
        let fill = |buf: &mut [u8]| -> (n: usize)
            ensures
                n == vstd::math::min(old(buf)@.len() as int, src@.len() as int),
                final(buf)@ == src@.subrange(0, n as int) + old(buf)@.subrange(
                    n as int,
                    old(buf)@.len() as int,
                ),
            {
                copy_prefix(buf, src)
            };
        self.write_with(fill)
    }

    /// Moves the read cursor past `n` bytes that a reader has taken.
    fn commit_read(&mut self, n: usize)
        requires
            old(self).wf(),
            old(self)@.start + n <= old(self)@.end,
        ensures
            final(self).wf(),
            final(self)@ == old(self)@.consume(n as nat),
    {
        self.start += n;
        if self.start == self.end {
            self.start = 0;
            self.end = 0;
        }
    }

    /// Moves the unread bytes down to the front of the region.
    fn compact(&mut self)
        requires
            old(self)@.start <= old(self)@.end <= old(self)@.mem.len(),
        ensures
            final(self)@ == old(self)@.compact(),
    {
        let len: usize = self.end - self.start;
        let start: usize = self.start;
        let mut i: usize = 0;
        while i < len
            invariant
                i <= len,
                start + len <= self.mem@.len(),
                self.mem@.len() == old(self)@.mem.len(),
                start == old(self)@.start,
                len == old(self)@.end - old(self)@.start,
                self.start == old(self).start,
                self.end == old(self).end,
                self.mem@ == old(self)@.mem.subrange(start as int, start + i)
                    + old(self)@.mem.subrange(i as int, old(self)@.mem.len() as int),
            decreases len - i,
        {
            let byte: u8 = self.mem[start + i];
            self.mem[i] = byte;
            i += 1;
        }
        self.end = len;
        self.start = 0;
    }

    /// Moves the write cursor past `n` bytes that a writer has put into the
    /// free tail, and compacts when that has used the tail up.
    fn commit_write(&mut self, n: usize)
        requires
            old(self).wf(),
            old(self)@.end + n <= old(self)@.mem.len(),
        ensures
            final(self).wf(),
            final(self)@ == old(self)@.produce(n as nat),
    {
        assert(self.mem@.len() == self.mem.len());
        self.end += n;
        if self.start > 0 && self.end == self.mem.len() {
            self.compact();
        }
    }
}

} // verus!
