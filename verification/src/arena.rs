//! A bump-pointer allocator over one borrowed block of memory.

use vstd::prelude::*;
use vstd::layout::{align_of, size_of};
use crate::layout::{is_aligned, lemma_mod_of_sum, lemma_padding, lemma_serve, padding, Bump, Request};

verus! {

/// Hands out regions of one backing block, front to back. A region, once
/// handed out, stays with its holder for as long as the block is borrowed;
/// nothing is ever taken back.
pub struct Arena<'m> {
    /// What is left of the block.
    mem: &'m mut [u8],
    /// The address at which the block starts.
    base: usize,
    /// The bytes of the block that are no longer in `mem`.
    used: usize,
    /// The bytes of the block, as they were when the arena was made.
    block: Ghost<Seq<u8>>,
}

/// An arena is seen as its block, the address of the block and the number of
/// bytes used.
impl<'m> View for Arena<'m> {
    type V = Bump;

    closed spec fn view(&self) -> Bump {
        Bump { base: self.base as int, block: self.block@, used: self.used as nat }
    }
}

/// `<[u8]>::as_ptr`, as an integer: the address of the first byte of `mem`.
/// Nothing is claimed of the number.
#[verifier::external_body]
fn base_address(mem: &[u8]) -> usize {
    mem.as_ptr() as usize
}

impl<'m> Arena<'m> {
    /// The arena holds the free part of its block, and the length of the
    /// block is a `usize`.
    pub closed spec fn wf(&self) -> bool {
        &&& self@.wf()
        &&& self.mem@ == self@.remaining()
        &&& self@.block.len() <= usize::MAX
    }

    /// The request for `n` elements of type `T`.
    pub open spec fn request<T>(n: usize) -> Request {
        Request { count: n as nat, size: size_of::<T>(), align: align_of::<T>() }
    }

    /// An arena over the whole of `mem`.
    pub fn new(mem: &'m mut [u8]) -> (arena: Self)
        ensures
            arena.wf(),
            arena@ == Bump::fresh(arena@.base, old(mem)@),
    {
        let base: usize = base_address(mem);
        let ghost block = mem@;
        assert(mem@.len() == mem.len());
        assert(block.skip(0) == block);
        Arena { mem, base, used: 0, block: Ghost(block) }
    }

    /// The number of free bytes.
    pub fn capacity(&self) -> (n: usize)
        requires
            self.wf(),
        ensures
            n == self@.capacity(),
    {
        self.mem.len()
    }

    /// Whether the arena has room for `n` elements of type `T`, the padding
    /// in front of them included. A request for no bytes always has room.
    pub fn fits<T>(&self, n: usize) -> (ok: bool)
        requires
            self.wf(),
        ensures
            ok == self@.fits(Self::request::<T>(n)),
    {
        broadcast use vstd::layout::align_nonzero;

        let size: usize = core::mem::size_of::<T>();
        let align: usize = core::mem::align_of::<T>();
        let free: usize = self.mem.len();
        match n.checked_mul(size) {
            None => false,
            Some(bytes) => {
                if bytes == 0 {
                    true
                } else {
                    let pad: usize = self.padding_to(align);
                    pad <= free && bytes <= free - pad
                }
            },
        }
    }

    /// Takes room for `n` elements of type `T` from the front of the free
    /// bytes: skips the padding that brings the cursor to a multiple of the
    /// alignment of `T`, and hands out the bytes behind it. A request for no
    /// bytes gets an empty region and leaves the arena as it was.
    pub fn alloc_raw<T>(&mut self, n: usize) -> (region: &'m mut [u8])
        requires
            old(self).wf(),
            old(self)@.fits(Self::request::<T>(n)),
        ensures
            final(self).wf(),
            final(self)@ == old(self)@.serve(Self::request::<T>(n)),
            region@ == old(self)@.region(Self::request::<T>(n)),
            region@.len() > 0 ==> is_aligned(
                old(self)@.base + old(self)@.region_offset(Self::request::<T>(n)),
                align_of::<T>() as int,
            ),
    {
        broadcast use vstd::layout::align_nonzero;

        let size: usize = core::mem::size_of::<T>();
        let align: usize = core::mem::align_of::<T>();
        proof {
            lemma_serve(self@, Self::request::<T>(n));
        }
        let bytes: usize = n * size;
        if bytes == 0 {
            return &mut [];
        }
        let pad: usize = self.padding_to(align);
        let total: usize = bytes + pad;
        let mut free: &'m mut [u8] = &mut [];
        core::mem::swap(&mut self.mem, &mut free);
        let (front, rest) = free.split_at_mut(total);
        let (_, region) = front.split_at_mut(pad);
        self.mem = rest;
        self.used += total;
        region
    }

    /// Takes `n` bytes from the front of the free bytes.
    pub fn bytes(&mut self, n: usize) -> (region: &'m mut [u8])
        requires
            old(self).wf(),
            n <= old(self)@.capacity(),
        ensures
            final(self).wf(),
            final(self)@ == (Bump { used: (old(self)@.used + n) as nat, ..old(self)@ }),
            region@ == old(self)@.remaining().take(n as int),
    {
        broadcast use vstd::layout::layout_of_primitives, vstd::layout::align_of_u8;

        proof {
            lemma_padding(self@.cursor(), 1);
            lemma_serve(self@, Self::request::<u8>(n));
        }
        self.alloc_raw::<u8>(n)
    }

    /// The bytes from the cursor to the next multiple of `align`.
    fn padding_to(&self, align: usize) -> (pad: usize)
        requires
            align > 0,
        ensures
            pad == padding(self@.cursor(), align as int),
            pad < align,
    {
        let a: usize = self.base % align;
        let b: usize = self.used % align;
        let r: usize = if a >= align - b {
            a - (align - b)
        } else {
            a + b
        };
        proof {
            lemma_mod_of_sum(self.base as int, self.used as int, align as int);
            lemma_padding(self@.cursor(), align as int);
            if r != 0 {
                vstd::arithmetic::div_mod::lemma_small_mod((align - r) as nat, align as nat);
            }
        }
        if r == 0 {
            0
        } else {
            align - r
        }
    }
}

} // verus!
