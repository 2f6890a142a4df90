//! The mathematical model of a byte buffer with a read cursor and a write
//! cursor over a region of fixed length.

use vstd::prelude::*;

verus! {

/// The state of a buffer: the bytes of its backing region and the two
/// cursors. The bytes in `[start, end)` wait to be read; `[end, capacity)` is
/// the free tail that the next write fills.
pub struct Ring {
    pub mem: Seq<u8>,
    pub start: nat,
    pub end: nat,
}

/// The four conditions a buffer can be in.
pub enum Phase {
    /// Nothing is unread; both cursors are at zero.
    Empty,
    /// Bytes are unread and the tail has room.
    Partial,
    /// The tail is used up, but bytes in front have been read: the next
    /// write, even of nothing, moves the unread bytes to the front.
    TailFull,
    /// The whole region is unread; nothing can be written until a read.
    Saturated,
}

impl Ring {
    /// The cursors are ordered and inside the region, and a buffer without
    /// unread bytes has both cursors at zero.
    pub open spec fn wf(self) -> bool {
        &&& self.start <= self.end <= self.mem.len()
        &&& self.start == self.end ==> self.end == 0
    }

    /// A buffer over `mem` that holds nothing yet.
    pub open spec fn fresh(mem: Seq<u8>) -> Ring {
        Ring { mem, start: 0, end: 0 }
    }

    /// The length of the backing region.
    pub open spec fn capacity(self) -> nat {
        self.mem.len()
    }

    /// Both cursors are at zero.
    pub open spec fn is_empty(self) -> bool {
        self.start == 0 && self.end == 0
    }

    /// The condition the buffer is in.
    pub open spec fn phase(self) -> Phase {
        if self.start == self.end {
            Phase::Empty
        } else if self.end < self.mem.len() {
            Phase::Partial
        } else if self.start > 0 {
            Phase::TailFull
        } else {
            Phase::Saturated
        }
    }

    /// The unread bytes, oldest first.
    pub open spec fn readable(self) -> Seq<u8> {
        self.mem.subrange(self.start as int, self.end as int)
    }

    /// The free tail, as a writer finds it.
    pub open spec fn writable(self) -> Seq<u8> {
        self.mem.subrange(self.end as int, self.mem.len() as int)
    }

    /// The state after a reader has taken `n` of the unread bytes: the read
    /// cursor advances, and both cursors return to zero once nothing is left.
    pub open spec fn consume(self, n: nat) -> Ring
        recommends
            self.start + n <= self.end,
    {
        if self.start + n == self.end {
            Ring { mem: self.mem, start: 0, end: 0 }
        } else {
            Ring { mem: self.mem, start: self.start + n, end: self.end }
        }
    }

    /// The state with the free tail replaced by `tail`, the cursors as they
    /// were.
    pub open spec fn with_tail(self, tail: Seq<u8>) -> Ring
        recommends
            tail.len() == self.mem.len() - self.end,
    {
        Ring { mem: self.mem.subrange(0, self.end as int) + tail, start: self.start, end: self.end }
    }

    /// How many bytes a read into a destination of length `want` takes.
    pub open spec fn read_len(self, want: nat) -> nat {
        vstd::math::min(want as int, self.end - self.start) as nat
    }

    /// How many bytes a write from a source of length `want` puts.
    pub open spec fn write_len(self, want: nat) -> nat {
        vstd::math::min(want as int, self.mem.len() - self.end) as nat
    }

    /// The state after a writer has put all of `data` at the head of the free
    /// tail, and nothing else into it.
    pub open spec fn put(self, data: Seq<u8>) -> Ring
        recommends
            self.end + data.len() <= self.mem.len(),
    {
        self.with_tail(data + self.writable().skip(data.len() as int)).produce(data.len())
    }

    /// The state with the unread bytes moved down to the front of the region.
    /// The bytes behind them stay as they were.
    pub open spec fn compact(self) -> Ring
        recommends
            self.start <= self.end <= self.mem.len(),
    {
        Ring {
            mem: self.readable() + self.mem.subrange(self.end - self.start, self.mem.len() as int),
            start: 0,
            end: (self.end - self.start) as nat,
        }
    }

    /// The state after a writer has put `n` bytes at the head of the free
    /// tail: the write cursor advances, and if that uses the tail up while
    /// bytes in front have been read, the unread bytes move to the front.
    pub open spec fn produce(self, n: nat) -> Ring
        recommends
            self.end + n <= self.mem.len(),
    {
        let grown = Ring { mem: self.mem, start: self.start, end: self.end + n };
        if grown.start > 0 && grown.end == grown.mem.len() {
            grown.compact()
        } else {
            grown
        }
    }
}

/// Taking unread bytes keeps a buffer well formed, leaves its region as it
/// was, and leaves the unread bytes behind those taken.
pub proof fn lemma_consume(ring: Ring, n: nat)
    requires
        ring.wf(),
        ring.start + n <= ring.end,
    ensures
        ring.consume(n).wf(),
        ring.consume(n).mem == ring.mem,
        ring.consume(n).readable() == ring.readable().skip(n as int),
{
    assert(ring.consume(n).readable() =~= ring.readable().skip(n as int));
}

/// Taking all the unread bytes puts both cursors at zero, wherever they
/// stood.
pub proof fn lemma_consume_all_resets(ring: Ring)
    requires
        ring.wf(),
    ensures
        ring.consume(ring.readable().len()).is_empty(),
{
}

/// Moving the unread bytes to the front changes neither them nor the
/// capacity, and frees all the room that stood in front of them.
pub proof fn lemma_compact(ring: Ring)
    requires
        ring.start <= ring.end <= ring.mem.len(),
    ensures
        ring.compact().readable() == ring.readable(),
        ring.compact().capacity() == ring.capacity(),
        ring.compact().start == 0,
        ring.compact().writable().len() == ring.writable().len() + ring.start,
{
    assert(ring.compact().readable() =~= ring.readable());
}

/// Putting bytes into the free tail keeps a buffer well formed and at its
/// capacity, and appends the bytes put to the unread bytes. Afterwards the
/// tail is used up only if no room is left at all.
pub proof fn lemma_produce(ring: Ring, tail: Seq<u8>, n: nat)
    requires
        ring.wf(),
        tail.len() == ring.writable().len(),
        n <= tail.len(),
    ensures
        ring.with_tail(tail).produce(n).wf(),
        ring.with_tail(tail).produce(n).capacity() == ring.capacity(),
        ring.with_tail(tail).produce(n).readable() == ring.readable() + tail.take(n as int),
        ring.with_tail(tail).produce(n).end == ring.capacity() ==> ring.with_tail(tail).produce(
            n,
        ).start == 0,
{
    let filled = ring.with_tail(tail);
    let grown = Ring { mem: filled.mem, start: filled.start, end: filled.end + n };
    assert(grown.readable() =~= ring.readable() + tail.take(n as int));
    if grown.start > 0 && grown.end == grown.mem.len() {
        lemma_compact(grown);
    }
}

/// A write of `data` into a buffer with room for it appends `data` to the
/// unread bytes.
pub proof fn lemma_put(ring: Ring, data: Seq<u8>)
    requires
        ring.wf(),
        data.len() <= ring.writable().len(),
    ensures
        ring.put(data).wf(),
        ring.put(data).capacity() == ring.capacity(),
        ring.put(data).readable() == ring.readable() + data,
{
    let tail = data + ring.writable().skip(data.len() as int);
    lemma_produce(ring, tail, data.len());
    assert(tail.take(data.len() as int) =~= data);
}

/// Bytes written to an empty buffer that has room for them come back from
/// the next read as they were written, and that read leaves the buffer empty
/// again.
pub proof fn lemma_round_trip(ring: Ring, data: Seq<u8>)
    requires
        ring.wf(),
        ring.is_empty(),
        data.len() <= ring.capacity(),
    ensures
        ring.write_len(data.len()) == data.len(),
        ring.put(data).read_len(data.len()) == data.len(),
        ring.put(data).readable() == data,
        ring.put(data).consume(data.len()).is_empty(),
{
    lemma_put(ring, data);
    assert(ring.readable() =~= Seq::<u8>::empty());
    assert(ring.readable() + data =~= data);
}

/// What each condition says of the cursors, and which conditions the two
/// kinds of step can lead to: a write never leaves the tail used up while
/// room stands in front, and a read never leaves the whole region unread
/// unless it took nothing.
pub proof fn lemma_phases(ring: Ring, tail: Seq<u8>, n: nat)
    requires
        ring.wf(),
        tail.len() == ring.writable().len(),
    ensures
        ring.phase() is Empty <==> ring.is_empty(),
        ring.phase() is Partial <==> ring.start < ring.end < ring.capacity(),
        ring.phase() is TailFull <==> 0 < ring.start < ring.end == ring.capacity(),
        ring.phase() is Saturated <==> 0 == ring.start < ring.end == ring.capacity(),
        ring.writable().len() == 0 <==> ring.end == ring.capacity(),
        n <= tail.len() ==> !(ring.with_tail(tail).produce(n).phase() is TailFull),
        ring.start + n <= ring.end && ring.consume(n).phase() is Saturated ==> n == 0,
{
    if n <= tail.len() {
        lemma_produce(ring, tail, n);
    }
}

} // verus!
