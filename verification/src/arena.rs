//! Arena bookkeeping: where each allocation of a bump allocator lands, and
//! how large a one-allocation arena must be. The memory itself is the
//! allocator's; what is here is the arithmetic that decides offsets,
//! chunk sizes and the errors.
use vstd::prelude::*;
use crate::error::ParseError;

verus! {

/// Chunks are aligned to this, so any value with a smaller alignment can be
/// placed by bumping the offset.
pub const CHUNK_ALIGN: usize = 16;

pub const ARENA_ALIGN: usize = 16;

/// The largest size a layout aligned to 16 can have.
pub open spec fn max_layout() -> int {
    isize::MAX - 15
}

/// `x` rounded up to a multiple of `a`.
pub open spec fn next_mult(x: int, a: int) -> int {
    if x % a == 0 {
        x
    } else {
        x + (a - x % a)
    }
}

pub open spec fn is_align(a: usize) -> bool {
    a == 1 || a == 2 || a == 4 || a == 8 || a == 16
}

pub open spec fn max(a: int, b: int) -> int {
    if a >= b {
        a
    } else {
        b
    }
}

/// Where an allocation landed: which chunk, at what offset, how long.
#[derive(Clone, Copy, PartialEq, Eq, Structural, Debug)]
pub struct Placement {
    pub chunk: usize,
    pub offset: usize,
    pub len: usize,
}

/// Rounding up to an alignment gives a multiple of it, no less and less
/// than one alignment more.
pub proof fn lemma_next_mult(x: int, a: usize)
    requires
        is_align(a),
        x >= 0,
    ensures
        next_mult(x, a as int) % (a as int) == 0,
        x <= next_mult(x, a as int) < x + a,
{
    let d = a as int;
    let q = x / d;
    let r = x % d;
    vstd::arithmetic::div_mod::lemma_fundamental_div_mod(x, d);
    vstd::arithmetic::div_mod::lemma_mod_pos_bound(x, d);
    assert(x == d * q + r);
    if r == 0 {
        assert(next_mult(x, d) == x);
    } else {
        assert(next_mult(x, d) == x + (d - r));
        assert(x + (d - r) == (q + 1) * d) by (nonlinear_arith)
            requires
                x == d * q + r,
        ;
        vstd::arithmetic::div_mod::lemma_mod_multiples_basic(q + 1, d);
    }
}

/// A bump allocator. Allocation bumps an offset; deallocation does
/// nothing; a reset frees everything at once.
///
/// When the current chunk runs out another is added, at least twice the
/// last and large enough for the request, so allocation never fails;
/// `chunks` reports how many there are.
pub struct Bump {
    /// The size of every chunk, the first first; the last is bumped.
    sizes: Vec<usize>,
    used: usize,
    /// Every byte handed out, across chunks.
    allocated: usize,
}

impl Bump {
    #[verifier::type_invariant]
    spec fn inv(self) -> bool {
        &&& self.sizes@.len() >= 1
        &&& self.used <= self.sizes@.last()
        &&& forall|i: int| 0 <= i < self.sizes@.len() ==> #[trigger] self.sizes@[i] <= max_layout()
    }

    /// The chunk sizes, oldest first.
    pub closed spec fn chunk_sizes(&self) -> Seq<usize> {
        self.sizes@
    }

    pub closed spec fn spec_used(&self) -> usize {
        self.used
    }

    pub closed spec fn spec_allocated(&self) -> usize {
        self.allocated
    }

    /// An arena with `capacity` bytes in its first chunk, at least the
    /// alignment.
    pub fn with_capacity(capacity: usize) -> (b: Bump)
        requires
            capacity <= max_layout(),
        ensures
            b.chunk_sizes() == seq![max(capacity as int, 16) as usize],
            b.spec_used() == 0,
            b.spec_allocated() == 0,
    {
        let first = if capacity < CHUNK_ALIGN { CHUNK_ALIGN } else { capacity };
        let mut sizes: Vec<usize> = Vec::new();
        sizes.push(first);
        assert(sizes@ =~= seq![max(capacity as int, 16) as usize]);
        Bump { sizes, used: 0, allocated: 0 }
    }

    /// How many chunks have been allocated. One means the initial capacity
    /// was enough.
    pub fn chunks(&self) -> (n: usize)
        ensures
            n == self.chunk_sizes().len(),
    {
        self.sizes.len()
    }

    /// Bytes handed out so far, across chunks.
    pub fn allocated(&self) -> (n: usize)
        ensures
            n == self.spec_allocated(),
    {
        self.allocated
    }

    /// Bytes used in the current chunk, alignment padding included.
    pub fn used(&self) -> (n: usize)
        ensures
            n == self.spec_used(),
    {
        self.used
    }

    /// Frees everything allocated, for reuse: the added chunks are released
    /// and the first is bumped from its start again.
    pub fn reset(&mut self)
        ensures
            final(self).chunk_sizes() == seq![old(self).chunk_sizes()[0]],
            final(self).spec_used() == 0,
            final(self).spec_allocated() == 0,
    {
        proof {
            use_type_invariant(&*self);
        }
        let first = self.sizes[0];
        let mut sizes: Vec<usize> = Vec::new();
        sizes.push(first);
        assert(sizes@ =~= seq![old(self).sizes@[0]]);
        self.used = 0;
        self.sizes = sizes;
        self.allocated = 0;
    }

    /// Whether a request of `size` bytes aligned to `align` can be met
    /// without a chunk larger than a layout can describe.
    pub open spec fn can_allocate(&self, size: usize, align: usize) -> bool {
        &&& is_align(align)
        &&& size <= max_layout()
        &&& self.spec_allocated() + size <= usize::MAX
        &&& (next_mult(self.spec_used() as int, align as int) + size > self.chunk_sizes().last()
            ==> max(self.chunk_sizes().last() as int, size as int) * 2 <= max_layout())
    }

    /// Places `size` bytes aligned to `align`: in the current chunk after
    /// what is used, rounded up to the alignment, or at the start of a new
    /// chunk at least twice the last and twice the request.
    pub fn allocate(&mut self, size: usize, align: usize) -> (p: Placement)
        requires
            old(self).can_allocate(size, align),
        ensures
            ({
                let start = next_mult(old(self).spec_used() as int, align as int);
                let last = old(self).chunk_sizes().last();
                if start + size <= last {
                    &&& final(self).chunk_sizes() == old(self).chunk_sizes()
                    &&& final(self).spec_used() == start + size
                    &&& p == Placement {
                        chunk: (old(self).chunk_sizes().len() - 1) as usize,
                        offset: start as usize,
                        len: size,
                    }
                } else {
                    &&& final(self).chunk_sizes() == old(self).chunk_sizes().push(
                        (max(last as int, size as int) * 2) as usize,
                    )
                    &&& final(self).spec_used() == size
                    &&& p == Placement {
                        chunk: old(self).chunk_sizes().len() as usize,
                        offset: 0,
                        len: size,
                    }
                }
            }),
            final(self).spec_allocated() == old(self).spec_allocated() + size,
            // What each placement is: aligned, in the newest chunk, and
            // right after what the chunk held before.
            p.offset % align == 0,
            p.chunk == final(self).chunk_sizes().len() - 1,
            p.offset + p.len == final(self).spec_used() <= final(self).chunk_sizes().last(),
            p.chunk == old(self).chunk_sizes().len() - 1 ==> p.offset >= old(self).spec_used(),
    {
        proof {
            use_type_invariant(&*self);
            lemma_next_mult(self.used as int, align);
        }
        let r = self.used % align;
        let start = if r == 0 { self.used } else { self.used + (align - r) };
        let end = start + size;
        let last = self.sizes[self.sizes.len() - 1];
        if end > last {
            return self.allocate_slow(size);
        }
        self.used = end;
        self.allocated = self.allocated + size;
        Placement { chunk: self.sizes.len() - 1, offset: start, len: size }
    }

    /// A new chunk at least twice the last and twice the request.
    fn allocate_slow(&mut self, size: usize) -> (p: Placement)
        requires
            size <= max_layout(),
            old(self).spec_allocated() + size <= usize::MAX,
            max(old(self).chunk_sizes().last() as int, size as int) * 2 <= max_layout(),
        ensures
            final(self).chunk_sizes() == old(self).chunk_sizes().push(
                (max(old(self).chunk_sizes().last() as int, size as int) * 2) as usize,
            ),
            final(self).spec_used() == size,
            final(self).spec_allocated() == old(self).spec_allocated() + size,
            p == (Placement { chunk: old(self).chunk_sizes().len() as usize, offset: 0, len: size }),
    {
        proof {
            use_type_invariant(&*self);
        }
        let last = self.sizes[self.sizes.len() - 1];
        let grown = if last >= size { last * 2 } else { size * 2 };
        let mut sizes: Vec<usize> = Vec::new();
        let mut i: usize = 0;
        while i < self.sizes.len()
            invariant
                i <= self.sizes@.len(),
                sizes@ == self.sizes@.subrange(0, i as int),
            decreases self.sizes@.len() - i,
        {
            sizes.push(self.sizes[i]);
            assert(self.sizes@.subrange(0, i + 1) =~= self.sizes@.subrange(0, i as int).push(self.sizes@[i as int]));
            i = i + 1;
        }
        assert(sizes@ =~= self.sizes@);
        sizes.push(grown);
        let chunk = sizes.len() - 1;
        proof {
            assert forall|i: int| 0 <= i < sizes@.len() implies #[trigger] sizes@[i] <= max_layout() by {
                if i < old(self).sizes@.len() {
                    assert(sizes@[i] == old(self).sizes@[i]);
                }
            }
        }
        *self = Bump { sizes, used: size, allocated: self.allocated + size };
        Placement { chunk, offset: 0, len: size }
    }
}

impl Default for Bump {
    /// A first chunk of 64 KiB.
    fn default() -> (b: Bump)
        ensures
            b.chunk_sizes() == seq![65536usize],
            b.spec_used() == 0,
            b.spec_allocated() == 0,
    {
        Bump::with_capacity(65536)
    }
}

/// Places a value of `size` bytes aligned to `align` at the offset `*off`
/// rounded up, and moves the offset past it; an arena that cannot be
/// addressed is a wire too large to parse.
pub fn bump(off: &mut usize, size: usize, align: usize) -> (res: Result<usize, ParseError>)
    requires
        align > 0,
    ensures
        ({
            let start = next_mult(*old(off) as int, align as int);
            if start > usize::MAX || start + size > usize::MAX {
                res == Err::<usize, ParseError>(ParseError::WireTooLarge)
            } else {
                res == Ok::<usize, ParseError>(start as usize) && *final(off) == start + size
            }
        }),
{
    let r = *off % align;
    let start = if r == 0 {
        *off
    } else {
        match off.checked_add(align - r) {
            Some(s) => s,
            None => {
                return Err(ParseError::WireTooLarge);
            },
        }
    };
    match start.checked_add(size) {
        Some(end) => {
            *off = end;
            Ok(start)
        },
        None => Err(ParseError::WireTooLarge),
    }
}

/// The size of an array of `n` values of `elem_size` bytes aligned to
/// `elem_align`, when a layout can describe it.
pub open spec fn array_size(n: usize, elem_size: usize, elem_align: usize) -> Option<int> {
    if n * elem_size > isize::MAX - (elem_align - 1) {
        None
    } else {
        Some(n * elem_size)
    }
}

fn array_bytes(n: usize, elem_size: usize, elem_align: usize) -> (res: Result<usize, ParseError>)
    requires
        0 < elem_align <= 16,
    ensures
        match array_size(n, elem_size, elem_align) {
            Some(sz) => res == Ok::<usize, ParseError>(sz as usize),
            None => res == Err::<usize, ParseError>(ParseError::WireTooLarge),
        },
{
    match n.checked_mul(elem_size) {
        Some(total) => {
            if total > (isize::MAX as usize) - (elem_align - 1) {
                Err(ParseError::WireTooLarge)
            } else {
                Ok(total)
            }
        },
        None => Err(ParseError::WireTooLarge),
    }
}

/// Where an array of `n` values of `elem_size` bytes aligned to
/// `elem_align` goes when the arena is filled up to `off`: its start and
/// its end, or why no arena can hold it.
pub open spec fn slot(off: int, n: usize, elem_size: usize, elem_align: usize) -> Result<(int, int), ParseError> {
    match array_size(n, elem_size, elem_align) {
        Some(sz) => {
            let start = next_mult(off, elem_align as int);
            if start > usize::MAX || start + sz > usize::MAX {
                Err(ParseError::WireTooLarge)
            } else {
                Ok((start, start + sz))
            }
        },
        None => Err(ParseError::WireTooLarge),
    }
}

/// One array that a pass places.
pub struct ArrayCall {
    pub n: usize,
    pub elem_size: usize,
    pub elem_align: usize,
}

/// The size the measure pass reaches over `calls`, or its error.
pub open spec fn measured(calls: Seq<ArrayCall>) -> Result<int, ParseError>
    decreases calls.len(),
{
    if calls.len() == 0 {
        Ok(0)
    } else {
        let c = calls.last();
        match measured(calls.drop_last()) {
            Ok(off) => match slot(off, c.n, c.elem_size, c.elem_align) {
                Ok((_, end)) => Ok(end),
                Err(e) => Err(e),
            },
            Err(e) => Err(e),
        }
    }
}

/// Where the build pass ends over `calls` in an arena of `capacity` bytes,
/// or its error.
pub open spec fn built(calls: Seq<ArrayCall>, capacity: int) -> Result<int, ParseError>
    decreases calls.len(),
{
    if calls.len() == 0 {
        Ok(0)
    } else {
        let c = calls.last();
        match built(calls.drop_last(), capacity) {
            Ok(off) => match slot(off, c.n, c.elem_size, c.elem_align) {
                Ok((_, end)) => if end > capacity {
                    Err(ParseError::ArenaMismatch)
                } else {
                    Ok(end)
                },
                Err(e) => Err(e),
            },
            Err(e) => Err(e),
        }
    }
}

/// The two passes agree: when the measure pass over some calls reaches a
/// size, the build pass over the same calls in an arena of that size (or
/// larger) places every array and ends at the same offset, so it never
/// reports a mismatch.
pub proof fn lemma_passes_agree(calls: Seq<ArrayCall>, capacity: int)
    requires
        forall|i: int| 0 <= i < calls.len() ==> 0 < #[trigger] calls[i].elem_align <= 16,
        measured(calls) is Ok,
        measured(calls)->Ok_0 <= capacity,
    ensures
        built(calls, capacity) == measured(calls),
    decreases calls.len(),
{
    if calls.len() > 0 {
        let pre = calls.drop_last();
        let c = calls.last();
        assert forall|i: int| 0 <= i < pre.len() implies 0 < #[trigger] pre[i].elem_align <= 16 by {
            assert(pre[i] == calls[i]);
        }
        let off = measured(pre)->Ok_0;
        lemma_measured_nonneg(pre);
        assert(0 < c.elem_align <= 16) by {
            assert(calls[calls.len() - 1] == c);
        }
        assert(slot(off, c.n, c.elem_size, c.elem_align) is Ok);
        let start = next_mult(off, c.elem_align as int);
        assert(off <= start) by {
            if off % (c.elem_align as int) != 0 {
                assert(c.elem_align as int - off % (c.elem_align as int) > 0);
            }
        }
        lemma_passes_agree(pre, capacity);
    }
}

/// Offsets never go below zero.
pub proof fn lemma_measured_nonneg(calls: Seq<ArrayCall>)
    requires
        forall|i: int| 0 <= i < calls.len() ==> 0 < #[trigger] calls[i].elem_align <= 16,
        measured(calls) is Ok,
    ensures
        measured(calls)->Ok_0 >= 0,
    decreases calls.len(),
{
    if calls.len() > 0 {
        let pre = calls.drop_last();
        assert forall|i: int| 0 <= i < pre.len() implies 0 < #[trigger] pre[i].elem_align <= 16 by {
            assert(pre[i] == calls[i]);
        }
        lemma_measured_nonneg(pre);
        let c = calls.last();
        assert(0 < c.elem_align <= 16) by {
            assert(calls[calls.len() - 1] == c);
        }
        let off = measured(pre)->Ok_0;
        assert(next_mult(off, c.elem_align as int) >= off) by {
            if off % (c.elem_align as int) != 0 {
                assert(c.elem_align as int - off % (c.elem_align as int) > 0);
            }
        }
    }
}

/// The first pass of a two-pass parse: adds up what the second will
/// allocate.
pub struct Measure {
    off: usize,
}

impl Measure {
    pub closed spec fn spec_size(&self) -> usize {
        self.off
    }

    pub fn new() -> (m: Measure)
        ensures
            m.spec_size() == 0,
    {
        Measure { off: 0 }
    }

    pub fn size(&self) -> (n: usize)
        ensures
            n == self.spec_size(),
    {
        self.off
    }

    /// Counts an array of `n` values of `elem_size` bytes aligned to
    /// `elem_align`.
    pub fn slice(&mut self, n: usize, elem_size: usize, elem_align: usize) -> (res: Result<(), ParseError>)
        requires
            0 < elem_align <= 16,
        ensures
            match slot(old(self).spec_size() as int, n, elem_size, elem_align) {
                Ok((_, end)) => res is Ok && final(self).spec_size() == end,
                Err(e) => res == Err::<(), ParseError>(e),
            },
    {
        let size = array_bytes(n, elem_size, elem_align)?;
        bump(&mut self.off, size, elem_align)?;
        Ok(())
    }
}

/// An arena of one allocation, of the size a measure found.
pub struct Arena {
    size: usize,
}

impl Arena {
    pub closed spec fn spec_size(&self) -> usize {
        self.size
    }

    /// An arena of `size` bytes aligned to 16, when a layout can describe
    /// it.
    pub fn new(size: usize) -> (res: Result<Arena, ParseError>)
        ensures
            size <= max_layout() ==> (res matches Ok(a) && a.spec_size() == size),
            size > max_layout() ==> res == Err::<Arena, ParseError>(ParseError::WireTooLarge),
    {
        if size > (isize::MAX as usize) - 15 {
            return Err(ParseError::WireTooLarge);
        }
        Ok(Arena { size })
    }

    pub fn size(&self) -> (n: usize)
        ensures
            n == self.spec_size(),
    {
        self.size
    }
}

/// The second pass of a two-pass parse: places each array in the arena.
pub struct Build {
    size: usize,
    off: usize,
}

impl Build {
    pub closed spec fn spec_used(&self) -> usize {
        self.off
    }

    pub closed spec fn spec_capacity(&self) -> usize {
        self.size
    }

    pub fn new(arena: &Arena) -> (b: Build)
        ensures
            b.spec_used() == 0,
            b.spec_capacity() == arena.spec_size(),
    {
        Build { size: arena.size, off: 0 }
    }

    pub fn used(&self) -> (n: usize)
        ensures
            n == self.spec_used(),
    {
        self.off
    }

    /// Places an array of `n` values of `elem_size` bytes aligned to
    /// `elem_align`, at the offset it returns; an array past the end of the
    /// arena means the passes disagree.
    pub fn slice(&mut self, n: usize, elem_size: usize, elem_align: usize) -> (res: Result<usize, ParseError>)
        requires
            0 < elem_align <= 16,
        ensures
            final(self).spec_capacity() == old(self).spec_capacity(),
            match slot(old(self).spec_used() as int, n, elem_size, elem_align) {
                Ok((start, end)) => if end > old(self).spec_capacity() {
                    res == Err::<usize, ParseError>(ParseError::ArenaMismatch)
                        && final(self).spec_used() == old(self).spec_used()
                } else {
                    res == Ok::<usize, ParseError>(start as usize) && final(self).spec_used() == end
                },
                Err(e) => res == Err::<usize, ParseError>(e),
            },
    {
        let size = array_bytes(n, elem_size, elem_align)?;
        let mut off = self.off;
        let start = bump(&mut off, size, elem_align)?;
        if off > self.size {
            return Err(ParseError::ArenaMismatch);
        }
        self.off = off;
        Ok(start)
    }
}

} // verus!
