//! The mathematical model of a bump allocator: the arithmetic of padding and
//! alignment on integer addresses, and the state of an arena over one block.

use vstd::prelude::*;
use vstd::arithmetic::div_mod::{lemma_add_mod_noop, lemma_fundamental_div_mod, lemma_small_mod};

verus! {

/// Whether `address` is a multiple of `align`.
pub open spec fn is_aligned(address: int, align: int) -> bool {
    address % align == 0
}

/// The number of bytes from `cursor` to the next multiple of `align`: the
/// negated address modulo the alignment.
pub open spec fn padding(cursor: int, align: int) -> int {
    (align - cursor % align) % align
}

/// A request for `count` elements of `size` bytes each, placed at a multiple
/// of `align`.
pub struct Request {
    pub count: nat,
    pub size: nat,
    pub align: nat,
}

impl Request {
    /// The bytes that the elements occupy.
    pub open spec fn bytes(self) -> nat {
        self.count * self.size
    }

    /// The bytes skipped in front of the elements when the bump cursor stands
    /// at `cursor`. A request for no bytes skips none.
    pub open spec fn padding_at(self, cursor: int) -> nat {
        if self.bytes() == 0 {
            0
        } else {
            padding(cursor, self.align as int) as nat
        }
    }

    /// The bytes that the request takes from the arena when the bump cursor
    /// stands at `cursor`: the elements and the padding in front of them. A
    /// request for no bytes takes nothing.
    pub open spec fn required_at(self, cursor: int) -> nat {
        self.padding_at(cursor) + self.bytes()
    }

    /// Whether an arena with its bump cursor at `cursor` and `capacity` free
    /// bytes can serve the request.
    pub open spec fn fits(self, cursor: int, capacity: nat) -> bool {
        self.required_at(cursor) <= capacity
    }
}

/// The state of an arena: the block it was made over, where the block lies,
/// and how much of it is used up.
pub struct Bump {
    /// The address of the first byte of the block.
    pub base: int,
    /// The bytes of the block, as they were when the arena was made.
    pub block: Seq<u8>,
    /// The number of bytes from the front of the block that are handed out or
    /// skipped as padding.
    pub used: nat,
}

impl Bump {
    /// No more is used than the block holds.
    pub open spec fn wf(self) -> bool {
        self.used <= self.block.len()
    }

    /// An arena over `block` at address `base`, with nothing used.
    pub open spec fn fresh(base: int, block: Seq<u8>) -> Bump {
        Bump { base, block, used: 0 }
    }

    /// The address of the next free byte.
    pub open spec fn cursor(self) -> int {
        self.base + self.used
    }

    /// The number of free bytes.
    pub open spec fn capacity(self) -> nat {
        (self.block.len() - self.used) as nat
    }

    /// The free bytes: the block behind what is used.
    pub open spec fn remaining(self) -> Seq<u8> {
        self.block.skip(self.used as int)
    }

    /// Whether the arena has room for `request`, padding included.
    pub open spec fn fits(self, request: Request) -> bool {
        request.fits(self.cursor(), self.capacity())
    }

    /// The offset in the block at which the region for `request` starts.
    pub open spec fn region_offset(self, request: Request) -> nat {
        self.used + request.padding_at(self.cursor())
    }

    /// The bytes handed out for `request`: those behind the padding.
    pub open spec fn region(self, request: Request) -> Seq<u8>
        recommends
            self.fits(request),
    {
        self.block.subrange(
            self.region_offset(request) as int,
            (self.region_offset(request) + request.bytes()) as int,
        )
    }

    /// The state after `request` is served: padding and elements are used.
    pub open spec fn serve(self, request: Request) -> Bump
        recommends
            self.fits(request),
    {
        Bump { base: self.base, block: self.block, used: self.used + request.required_at(self.cursor()) }
    }

    /// The state after `requests` are served one after the other.
    pub open spec fn serve_all(self, requests: Seq<Request>) -> Bump
        decreases requests.len(),
    {
        if requests.len() == 0 {
            self
        } else {
            self.serve_all(requests.drop_last()).serve(requests.last())
        }
    }
}

/// Padding is less than the alignment and leads to a multiple of it, the
/// nearest one: no shorter step does.
pub proof fn lemma_padding(cursor: int, align: int)
    requires
        align > 0,
    ensures
        0 <= padding(cursor, align) < align,
        is_aligned(cursor + padding(cursor, align), align),
        is_aligned(cursor, align) ==> padding(cursor, align) == 0,
        forall|address: int|
            cursor <= address < cursor + padding(cursor, align) ==> !#[trigger] is_aligned(
                address,
                align,
            ),
{
    assert forall|address: int| cursor <= address < cursor + padding(cursor, align) implies !#[trigger] is_aligned(
        address,
        align,
    ) by {
        lemma_mod_of_sum(cursor, address - cursor, align);
        lemma_small_mod((address - cursor) as nat, align as nat);
    }
    let r = cursor % align;
    let p = padding(cursor, align);
    lemma_fundamental_div_mod(cursor, align);
    if r == 0 {
        assert(p == align % align);
        assert(align % align == 0) by {
            vstd::arithmetic::div_mod::lemma_mod_self_0(align);
        }
    } else {
        lemma_small_mod((align - r) as nat, align as nat);
        assert(p == align - r);
        assert(cursor + p == align * (cursor / align + 1)) by (nonlinear_arith)
            requires
                cursor == align * (cursor / align) + r,
                p == align - r,
        ;
        vstd::arithmetic::div_mod::lemma_mod_multiples_basic(cursor / align + 1, align);
        assert((cursor + p) % align == 0) by (nonlinear_arith)
            requires
                cursor + p == align * (cursor / align + 1),
                ((cursor / align + 1) * align) % align == 0,
        ;
    }
}

/// The remainder of a sum from the remainders of its terms, without adding
/// the terms themselves.
pub proof fn lemma_mod_of_sum(a: int, b: int, m: int)
    requires
        m > 0,
    ensures
        (a + b) % m == if a % m + b % m >= m {
            a % m + b % m - m
        } else {
            a % m + b % m
        },
{
    lemma_add_mod_noop(a, b, m);
    let s = a % m + b % m;
    if s >= m {
        lemma_small_mod((s - m) as nat, m as nat);
        vstd::arithmetic::div_mod::lemma_mod_sub_multiples_vanish(s, m);
    } else {
        lemma_small_mod(s as nat, m as nat);
    }
}

/// What serving one request does: the region has the length asked for, lies
/// in the free part of the block behind the padding, and starts at a multiple
/// of the alignment if it holds any bytes; the free bytes lose the padding and
/// the region from their front. A request for no bytes changes nothing.
pub proof fn lemma_serve(bump: Bump, request: Request)
    requires
        bump.wf(),
        request.align > 0,
        bump.fits(request),
    ensures
        bump.serve(request).wf(),
        bump.used <= bump.region_offset(request),
        bump.region_offset(request) + request.bytes() == bump.serve(request).used,
        bump.region(request).len() == request.bytes(),
        bump.region(request) == bump.remaining().subrange(
            request.padding_at(bump.cursor()) as int,
            request.required_at(bump.cursor()) as int,
        ),
        bump.serve(request).remaining() == bump.remaining().skip(
            request.required_at(bump.cursor()) as int,
        ),
        bump.serve(request).capacity() == bump.capacity() - request.required_at(bump.cursor()),
        request.bytes() > 0 ==> is_aligned(
            bump.base + bump.region_offset(request),
            request.align as int,
        ),
        request.bytes() == 0 ==> bump.serve(request) == bump,
{
    lemma_padding(bump.cursor(), request.align as int);
    assert(bump.region(request) =~= bump.remaining().subrange(
        request.padding_at(bump.cursor()) as int,
        request.required_at(bump.cursor()) as int,
    ));
    assert(bump.serve(request).remaining() =~= bump.remaining().skip(
        request.required_at(bump.cursor()) as int,
    ));
}

impl Bump {
    /// The offset in the block at which the region of request `i` starts,
    /// when the arena serves `requests` one after the other.
    pub open spec fn nth_start(self, requests: Seq<Request>, i: int) -> nat
        recommends
            0 <= i < requests.len(),
    {
        self.serve_all(requests.take(i)).region_offset(requests[i])
    }

    /// The offset in the block behind the last byte of the region of request
    /// `i`.
    pub open spec fn nth_end(self, requests: Seq<Request>, i: int) -> nat
        recommends
            0 <= i < requests.len(),
    {
        self.nth_start(requests, i) + requests[i].bytes()
    }
}

/// Serving requests changes neither the block nor where it lies.
pub proof fn lemma_serve_all_keeps_block(bump: Bump, requests: Seq<Request>)
    ensures
        bump.serve_all(requests).base == bump.base,
        bump.serve_all(requests).block == bump.block,
    decreases requests.len(),
{
    if requests.len() > 0 {
        lemma_serve_all_keeps_block(bump, requests.drop_last());
    }
}

/// A region ends where the used part of the block ends once its request is
/// served.
pub proof fn lemma_nth_end_is_used(bump: Bump, requests: Seq<Request>, i: int)
    requires
        0 <= i < requests.len(),
    ensures
        bump.nth_end(requests, i) == bump.serve_all(requests.take(i + 1)).used,
        bump.serve_all(requests.take(i)).used <= bump.nth_start(requests, i),
{
    let upto = requests.take(i + 1);
    assert(upto.drop_last() =~= requests.take(i));
    assert(upto.last() == requests[i]);
}

/// The used part of the block never shrinks: after more requests it is at
/// least what it was after fewer.
pub proof fn lemma_used_monotonic(bump: Bump, requests: Seq<Request>, i: int, j: int)
    requires
        0 <= i <= j <= requests.len(),
    ensures
        bump.serve_all(requests.take(i)).used <= bump.serve_all(requests.take(j)).used,
    decreases j - i,
{
    if i < j {
        lemma_used_monotonic(bump, requests, i, j - 1);
        lemma_nth_end_is_used(bump, requests, j - 1);
    }
}

/// When an arena serves requests that together, padding included, take no
/// more than its free bytes, each request finds room when its turn comes,
/// each region lies in the part of the block that was free, each region that
/// holds any bytes starts at a multiple of its alignment, and no two regions
/// overlap: an earlier one ends before a later one starts.
pub proof fn lemma_regions_apart_and_aligned(bump: Bump, requests: Seq<Request>)
    requires
        bump.wf(),
        forall|i: int| 0 <= i < requests.len() ==> (#[trigger] requests[i]).align > 0,
        bump.serve_all(requests).used <= bump.block.len(),
    ensures
        forall|i: int|
            0 <= i < requests.len() ==> (#[trigger] bump.serve_all(requests.take(i))).fits(
                requests[i],
            ),
        forall|i: int|
            0 <= i < requests.len() ==> bump.used <= #[trigger] bump.nth_start(requests, i)
                && bump.nth_end(requests, i) <= bump.block.len(),
        forall|i: int|
            0 <= i < requests.len() && requests[i].bytes() > 0 ==> is_aligned(
                bump.base + #[trigger] bump.nth_start(requests, i),
                requests[i].align as int,
            ),
        forall|i: int, j: int|
            0 <= i < j < requests.len() ==> #[trigger] bump.nth_end(requests, i)
                <= #[trigger] bump.nth_start(requests, j),
{
    let total = requests.len() as int;
    assert(requests.take(total) =~= requests);
    assert(requests.take(0) =~= Seq::<Request>::empty());
    assert forall|i: int| 0 <= i < requests.len() implies (#[trigger] bump.serve_all(
        requests.take(i),
    )).fits(requests[i]) && bump.used <= bump.nth_start(requests, i) && bump.nth_end(requests, i)
        <= bump.block.len() && (requests[i].bytes() > 0 ==> is_aligned(
        bump.base + bump.nth_start(requests, i),
        requests[i].align as int,
    )) by {
        let before = bump.serve_all(requests.take(i));
        lemma_serve_all_keeps_block(bump, requests.take(i));
        lemma_used_monotonic(bump, requests, 0, i);
        lemma_nth_end_is_used(bump, requests, i);
        lemma_used_monotonic(bump, requests, i + 1, total);
        lemma_padding(before.cursor(), requests[i].align as int);
    }
    assert forall|i: int, j: int| 0 <= i < j < requests.len() implies #[trigger] bump.nth_end(
        requests,
        i,
    ) <= #[trigger] bump.nth_start(requests, j) by {
        lemma_nth_end_is_used(bump, requests, i);
        lemma_used_monotonic(bump, requests, i + 1, j);
        lemma_nth_end_is_used(bump, requests, j);
    }
}

/// Requests for no bytes take nothing: an arena serves any number of them,
/// whatever its capacity, and stays as it was.
pub proof fn lemma_empty_requests_take_nothing(bump: Bump, requests: Seq<Request>)
    requires
        forall|i: int| 0 <= i < requests.len() ==> (#[trigger] requests[i]).bytes() == 0,
    ensures
        bump.serve_all(requests) == bump,
        forall|i: int| 0 <= i < requests.len() ==> bump.fits(#[trigger] requests[i]),
    decreases requests.len(),
{
    if requests.len() > 0 {
        lemma_empty_requests_take_nothing(bump, requests.drop_last());
    }
}

} // verus!
