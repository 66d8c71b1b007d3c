//! The kernel's slab allocator.
//!
//! Small allocations are served from fixed-sized slabs, each managing a free list of equally sized
//! areas; everything else falls back to the C heap. The C heap (`malloc`, `calloc`, `realloc`,
//! `free`) is reached only by the caller: the functions here decide, and hand back what the caller
//! has to do with the heap.
use vstd::prelude::*;

verus! {

/// Alignment that every allocation is guaranteed to have (that of `max_align_t`).
pub const MAX_ALIGN: usize = 16;

/// Size of the link that a free area stores at its beginning (one pointer).
pub const AREA_LINK_SIZE: usize = 8;

/// Number of areas that a newly requested slab holds.
pub const NEW_AREA_COUNT: usize = 64;

/// Per-allocation bookkeeping overhead of the slab allocator (areas are used as a whole).
pub const HEADER_SIZE: usize = 0;

/// Estimated overhead of a fallback allocation on the C heap.
pub const FALLBACK_OVERHEAD: usize = 64;

/// Does an allocation of `size` bytes with alignment `align` fit a slab of the given area size?
pub open spec fn spec_fits(slab_size: Option<usize>, size: usize, align: usize) -> bool {
    let by_size = match slab_size {
        Some(s) => size <= s,
        None => true,
    };
    by_size && align <= MAX_ALIGN
}

/// The size requested from the heap for a fallback allocation of `size` bytes.
pub open spec fn spec_ceil_size(size: usize) -> usize {
    if size < AREA_LINK_SIZE {
        AREA_LINK_SIZE
    } else {
        size
    }
}

/// The sizes of the slabs of the kernel allocator, strictly increasing, the last one unsized.
pub open spec fn slab_sizes() -> Seq<Option<usize>> {
    seq![Some(64usize), Some(128usize), None]
}

/// The index of the first slab whose areas can hold `obj_size` bytes.
pub open spec fn spec_get_slab(obj_size: usize) -> usize {
    if obj_size <= 64 {
        0
    } else if obj_size <= 128 {
        1
    } else {
        2
    }
}

/// The memory that an allocation of `obj_size` bytes is accounted with.
pub open spec fn spec_area_size(obj_size: usize) -> int {
    match slab_sizes()[spec_get_slab(obj_size) as int] {
        Some(s) => s as int,
        None => obj_size + FALLBACK_OVERHEAD,
    }
}

/// A slab allocator for one area size.
///
/// The free areas form a stack: the last element of the list is the head, the area that the next
/// allocation receives.
pub struct Slab {
    free: Vec<usize>,
    size: Option<usize>,
}

/// What an allocation attempt on a single slab leads to.
#[derive(Debug, PartialEq, Eq, Structural)]
pub enum SlabAlloc {
    /// The allocation does not fit this slab, or the slab could not be extended.
    Null,
    /// The allocation is served by the free area at this address (to be zeroed if requested).
    Area(usize),
    /// The slab has no free area left and needs a block of this many bytes from the heap.
    NeedMemory(usize),
    /// Fallback slab: the caller takes this many bytes from the heap (zeroed if requested).
    Heap(usize),
}

impl Slab {
    /// The free areas, the head last.
    pub closed spec fn areas(&self) -> Seq<usize> {
        self.free@
    }

    /// The area size of this slab; `None` for the fallback slab.
    pub closed spec fn size_spec(&self) -> Option<usize> {
        self.size
    }

    /// Requirements on the area size that the constructor checks.
    pub open spec fn valid_size(size: Option<usize>) -> bool {
        match size {
            Some(s) => s >= MAX_ALIGN && s >= AREA_LINK_SIZE && s % AREA_LINK_SIZE == 0,
            None => true,
        }
    }

    pub closed spec fn wf(&self) -> bool {
        Self::valid_size(self.size)
    }

    /// Creates a slab with no free areas.
    pub fn new(size: Option<usize>) -> (r: Self)
        requires
            Self::valid_size(size),
        ensures
            r.wf(),
            r.areas() == Seq::<usize>::empty(),
            r.size_spec() == size,
    {
        Slab { free: Vec::new(), size }
    }

    /// The area size of this slab.
    pub fn size(&self) -> (r: Option<usize>)
        ensures
            r == self.size_spec(),
    {
        self.size
    }

    /// The number of free areas.
    pub fn free_count(&self) -> (r: usize)
        ensures
            r == self.areas().len(),
    {
        self.free.len()
    }

    /// Would an allocation of `size` bytes with alignment `align` fit into this slab?
    pub fn fits(&self, size: usize, align: usize) -> (r: bool)
        ensures
            r == spec_fits(self.size_spec(), size, align),
    {
        let by_size = match self.size {
            Some(self_size) => size <= self_size,
            None => true,
        };
        let by_align = align <= MAX_ALIGN;
        by_size && by_align
    }

    /// Ensures that `size` is large enough to hold the free-list link of an area.
    pub fn ceil_size(size: usize) -> (r: usize)
        ensures
            r == spec_ceil_size(size),
            r >= size,
            r >= AREA_LINK_SIZE,
    {
        if size < AREA_LINK_SIZE {
            AREA_LINK_SIZE
        } else {
            size
        }
    }

    /// The number of bytes that extending this slab requests from the heap.
    pub fn extend_bytes(&self) -> (r: usize)
        requires
            self.size_spec().is_some(),
            self.size_spec().unwrap() * NEW_AREA_COUNT <= usize::MAX,
        ensures
            r == self.size_spec().unwrap() * NEW_AREA_COUNT,
    {
        let s = self.size.unwrap();
        s * NEW_AREA_COUNT
    }

    /// Extends the slab with the block at `base` (of `extend_bytes()` bytes) that the heap
    /// returned, or reports failure if the heap returned nothing.
    ///
    /// The block is cut into `NEW_AREA_COUNT` areas that are pushed onto the free list in
    /// ascending order, so that the area at the highest address becomes the head.
    pub fn extend(&mut self, base: Option<usize>) -> (r: bool)
        requires
            old(self).wf(),
            old(self).size_spec().is_some(),
            base.is_some() ==> base.unwrap() + old(self).size_spec().unwrap() * NEW_AREA_COUNT
                <= usize::MAX,
        ensures
            final(self).wf(),
            final(self).size_spec() == old(self).size_spec(),
            r == base.is_some(),
            !r ==> final(self).areas() == old(self).areas(),
            r ==> final(self).areas().len() == old(self).areas().len() + NEW_AREA_COUNT,
            r ==> final(self).areas().subrange(0, old(self).areas().len() as int) == old(self).areas(),
            r ==> forall|i: int|
                0 <= i < NEW_AREA_COUNT ==> #[trigger] final(self).areas()[old(self).areas().len()
                    + i] == base.unwrap() + i * old(self).size_spec().unwrap(),
    {
        let size = self.size.unwrap();
        match base {
            None => false,
            Some(b) => {
                let ghost old_free = self.free@;
                let mut i: usize = 0;
                while i < NEW_AREA_COUNT
                    invariant
                        i <= NEW_AREA_COUNT,
                        self.size == Some(size),
                        Self::valid_size(self.size),
                        b + size * NEW_AREA_COUNT <= usize::MAX,
                        self.free@.len() == old_free.len() + i,
                        self.free@.subrange(0, old_free.len() as int) == old_free,
                        forall|j: int|
                            0 <= j < i ==> #[trigger] self.free@[old_free.len() + j] == b + j
                                * size,
                    decreases NEW_AREA_COUNT - i,
                {
                    proof {
                        assert(i * size <= NEW_AREA_COUNT * size) by (nonlinear_arith)
                            requires
                                i < NEW_AREA_COUNT,
                        ;
                    }
                    let a = b + i * size;
                    self.free.push(a);
                    i = i + 1;
                    assert(self.free@.subrange(0, old_free.len() as int) =~= old_free);
                }
                true
            },
        }
    }

    /// Allocation of `size` bytes with alignment `align` on this slab.
    ///
    /// `fresh` is what the heap returned for a block of `extend_bytes()` bytes, if the caller
    /// requested one after this slab answered `NeedMemory`; `None` when no block was requested.
    pub fn alloc_area(&mut self, size: usize, align: usize, fresh: Option<Option<usize>>) -> (r:
        SlabAlloc)
        requires
            old(self).wf(),
            old(self).size_spec().is_some() && old(self).areas().len() == 0 ==> old(
                self,
            ).size_spec().unwrap() * NEW_AREA_COUNT <= usize::MAX,
            fresh matches Some(Some(b)) ==> old(self).size_spec().is_some() && b + old(self).size_spec().unwrap() * NEW_AREA_COUNT <= usize::MAX,
        ensures
            final(self).wf(),
            final(self).size_spec() == old(self).size_spec(),
            !spec_fits(old(self).size_spec(), size, align) ==> r == SlabAlloc::Null && final(self).areas() == old(self).areas(),
            spec_fits(old(self).size_spec(), size, align) ==> match old(self).size_spec() {
                None => r == SlabAlloc::Heap(spec_ceil_size(size)) && final(self).areas() == old(self).areas(),
                Some(s) => if old(self).areas().len() > 0 {
                    r == SlabAlloc::Area(old(self).areas().last()) && final(self).areas() == old(self).areas().drop_last()
                } else {
                    match fresh {
                        None => r == SlabAlloc::NeedMemory((s * NEW_AREA_COUNT) as usize)
                            && final(self).areas() == old(self).areas(),
                        Some(None) => r == SlabAlloc::Null && final(self).areas() == old(self).areas(),
                        Some(Some(b)) => r == SlabAlloc::Area(
                            (b + (NEW_AREA_COUNT - 1) * s) as usize,
                        ) && final(self).areas().len() == NEW_AREA_COUNT - 1 && (forall|i: int|
                            0 <= i < NEW_AREA_COUNT - 1 ==> #[trigger] final(self).areas()[i]
                                == b + i * s),
                    }
                },
            },
    {
        if !self.fits(size, align) {
            return SlabAlloc::Null;
        }
        match self.size {
            Some(s) => {
                if self.free.len() == 0 {
                    match fresh {
                        None => {
                            return SlabAlloc::NeedMemory(self.extend_bytes());
                        },
                        Some(base) => {
                            let ghost old_len = self.free@.len();
                            if !self.extend(base) {
                                return SlabAlloc::Null;
                            }
                            let ghost ext = self.free@;
                            assert forall|i: int| 0 <= i < NEW_AREA_COUNT implies #[trigger] ext[i]
                                == base.unwrap() + i * s by {
                                assert(ext[old_len + i] == base.unwrap() + i * s);
                            }
                            let res = self.free.pop().unwrap();
                            assert(res == ext[NEW_AREA_COUNT - 1]);
                            assert forall|i: int|
                                0 <= i < NEW_AREA_COUNT - 1 implies #[trigger] self.free@[i]
                                == base.unwrap() + i * s by {
                                assert(self.free@[i] == ext[i]);
                            }
                            return SlabAlloc::Area(res);
                        },
                    }
                }
                let res = self.free.pop().unwrap();
                SlabAlloc::Area(res)
            },
            None => SlabAlloc::Heap(Self::ceil_size(size)),
        }
    }

    /// Frees the allocation at `ptr` of `size` bytes with alignment `align`.
    ///
    /// Returns `false` if the allocation does not fit this slab. On the fallback slab the caller
    /// hands `ptr` back to the heap.
    pub fn dealloc(&mut self, ptr: usize, size: usize, align: usize) -> (r: bool)
        requires
            old(self).wf(),
        ensures
            final(self).wf(),
            final(self).size_spec() == old(self).size_spec(),
            r == spec_fits(old(self).size_spec(), size, align),
            (r && old(self).size_spec().is_some()) ==> final(self).areas() == old(self).areas().push(ptr),
            !(r && old(self).size_spec().is_some()) ==> final(self).areas() == old(self).areas(),
    {
        if !self.fits(size, align) {
            return false;
        }
        match self.size {
            Some(_) => {
                self.free.push(ptr);
            },
            None => {},
        }
        true
    }

    /// Does reallocation within this slab keep the pointer (`true`), or does the heap have to
    /// reallocate (`false`, fallback slab)?
    pub fn realloc_in_place(&self) -> (r: bool)
        ensures
            r == self.size_spec().is_some(),
    {
        self.size.is_some()
    }
}

/// Law: a freed area is the next one handed out again by the same slab, without a block from
/// the heap: after `dealloc` of `ptr` the slab's free areas are `s0.push(ptr)`, which is not
/// empty, so `alloc_area` hands out `ptr` and leaves the free areas `s0` of before.
pub proof fn lemma_dealloc_then_alloc(s0: Seq<usize>, ptr: usize)
    ensures
        s0.push(ptr).len() > 0,
        s0.push(ptr).last() == ptr,
        s0.push(ptr).drop_last() == s0,
{
    assert(s0.push(ptr).drop_last() =~= s0);
}

/// What the kernel allocator decides for an allocation request.
#[derive(Debug, PartialEq, Eq, Structural)]
pub enum AllocStep {
    /// The request is served by the area at this address of slab `slab`.
    Area { slab: usize, addr: usize },
    /// Slab `slab` needs a block of `bytes` bytes from the heap before it can serve the request.
    Grow { slab: usize, bytes: usize },
    /// The request goes to the heap with this many bytes.
    Heap(usize),
    /// No slab can serve the request.
    Null,
}

/// What the kernel allocator decides for a reallocation request.
#[derive(Debug, PartialEq, Eq, Structural)]
pub enum ReallocPlan {
    /// The allocation stays where it is.
    InPlace,
    /// The heap reallocates the allocation (fallback slab).
    Heap,
    /// A new allocation is made, the contents copied and the old allocation freed.
    Move,
}

/// An allocator combining the slabs of `slab_sizes()`, choosing the first fitting one.
pub struct SlabAllocator {
    slabs: Vec<Slab>,
}

impl SlabAllocator {
    pub closed spec fn wf(&self) -> bool {
        &&& self.slabs@.len() == 3
        &&& forall|i: int| 0 <= i < 3 ==> #[trigger] self.slabs@[i].wf()
        &&& forall|i: int| 0 <= i < 3 ==> #[trigger] self.slabs@[i].size_spec() == slab_sizes()[i]
    }

    /// The free areas of slab `i`.
    pub closed spec fn areas(&self, i: int) -> Seq<usize> {
        self.slabs@[i].areas()
    }

    /// Creates the allocator with empty slabs of 64 and 128 bytes and the fallback slab.
    pub fn new() -> (r: Self)
        ensures
            r.wf(),
            forall|i: int| 0 <= i < 3 ==> #[trigger] r.areas(i) == Seq::<usize>::empty(),
    {
        let mut slabs = Vec::new();
        slabs.push(Slab::new(Some(64)));
        slabs.push(Slab::new(Some(128)));
        slabs.push(Slab::new(None));
        let r = SlabAllocator { slabs };
        assert(r.slabs@[0].size_spec() == slab_sizes()[0]);
        assert(r.slabs@[1].size_spec() == slab_sizes()[1]);
        assert(r.slabs@[2].size_spec() == slab_sizes()[2]);
        r
    }

    /// The index of the slab that allocations of `obj_size` bytes use.
    pub fn get_slab(obj_size: usize) -> (r: usize)
        ensures
            r == spec_get_slab(obj_size),
            r < 3,
            slab_sizes()[r as int] is None || slab_sizes()[r as int].unwrap() >= obj_size,
            forall|j: int|
                0 <= j < r ==> slab_sizes()[j] is Some && #[trigger] slab_sizes()[j].unwrap()
                    < obj_size,
    {
        if obj_size <= 64 {
            0
        } else if obj_size <= 128 {
            1
        } else {
            2
        }
    }

    /// The allocation step for `size` bytes with alignment `align`, trying the slabs from
    /// `from` on.
    ///
    /// `fresh` is the heap's block for slab `from` if that slab asked for one with `Grow`, or
    /// `None` if no block was requested. After a `Grow { slab, .. }` the caller asks the heap
    /// for the block and calls again with `from = slab` and the block, or with
    /// `from = slab + 1` and `None` when the heap returned nothing.
    pub fn alloc_step(&mut self, size: usize, align: usize, from: usize, fresh: Option<usize>) -> (r:
        AllocStep)
        requires
            old(self).wf(),
            from <= 3,
            fresh matches Some(b) ==> from < 2 && b + slab_sizes()[from as int].unwrap()
                * NEW_AREA_COUNT <= usize::MAX && old(self).areas(from as int).len() == 0
                && spec_fits(slab_sizes()[from as int], size, align),
        ensures
            final(self).wf(),
            forall|k: int|
                0 <= k < 3 ==> (match r {
                    AllocStep::Area { slab, addr } => k != slab,
                    _ => true,
                }) ==> #[trigger] final(self).areas(k) == old(self).areas(k),
            match r {
                AllocStep::Area { slab, addr } => {
                    &&& from <= slab < 2
                    &&& spec_fits(slab_sizes()[slab as int], size, align)
                    &&& forall|j: int|
                        from <= j < slab ==> !spec_fits(#[trigger] slab_sizes()[j], size, align)
                    &&& match fresh {
                        Some(b) => {
                            &&& slab == from
                            &&& addr == b + (NEW_AREA_COUNT - 1) * slab_sizes()[slab as int].unwrap()
                            &&& final(self).areas(slab as int).len() == NEW_AREA_COUNT - 1
                            &&& forall|i: int|
                                0 <= i < NEW_AREA_COUNT - 1 ==> #[trigger] final(self).areas(
                                    slab as int,
                                )[i] == b + i * slab_sizes()[slab as int].unwrap()
                        },
                        None => {
                            &&& old(self).areas(slab as int).len() > 0
                            &&& addr == old(self).areas(slab as int).last()
                            &&& final(self).areas(slab as int) == old(self).areas(
                                slab as int,
                            ).drop_last()
                        },
                    }
                },
                AllocStep::Grow { slab, bytes } => {
                    &&& from <= slab < 2
                    &&& fresh is None
                    &&& spec_fits(slab_sizes()[slab as int], size, align)
                    &&& old(self).areas(slab as int).len() == 0
                    &&& bytes == slab_sizes()[slab as int].unwrap() * NEW_AREA_COUNT
                    &&& forall|j: int|
                        from <= j < slab ==> !spec_fits(#[trigger] slab_sizes()[j], size, align)
                },
                AllocStep::Heap(n) => {
                    &&& n == spec_ceil_size(size)
                    &&& from <= 2
                    &&& fresh is None
                    &&& align <= MAX_ALIGN
                    &&& forall|j: int|
                        from <= j < 2 ==> !spec_fits(#[trigger] slab_sizes()[j], size, align)
                },
                AllocStep::Null => align > MAX_ALIGN || from == 3,
            },
    {
        let mut i = from;
        let mut fresh_here: Option<Option<usize>> = match fresh {
            Some(b) => Some(Some(b)),
            None => None,
        };
        while i < 3
            invariant
                from <= i <= 3,
                self.wf(),
                forall|k: int| 0 <= k < 3 ==> #[trigger] self.areas(k) == old(self).areas(k),
                forall|j: int|
                    from <= j < i ==> !spec_fits(#[trigger] slab_sizes()[j], size, align),
                fresh_here matches Some(x) ==> i == from && x == fresh && fresh is Some,
                fresh_here is None ==> (i == from ==> fresh is None),
                fresh matches Some(b) ==> from < 2 && b + slab_sizes()[from as int].unwrap()
                    * NEW_AREA_COUNT <= usize::MAX && old(self).areas(from as int).len() == 0
                    && spec_fits(slab_sizes()[from as int], size, align),
            decreases 3 - i,
        {
            assert(self.slabs@[i as int].wf());
            assert(self.slabs@[i as int].size_spec() == slab_sizes()[i as int]);
            if self.slabs[i].fits(size, align) {
                let ghost before = self.slabs@;
                assert forall|k: int| 0 <= k < 3 implies #[trigger] before[k].areas() == old(
                    self).areas(k) by {
                    assert(self.areas(k) == old(self).areas(k));
                }
                let mut slab = self.slabs.remove(i);
                proof {
                    assert(slab_sizes()[0] == Some(64usize));
                    assert(slab_sizes()[1] == Some(128usize));
                }
                let res = slab.alloc_area(size, align, fresh_here);
                self.slabs.insert(i, slab);
                assert(self.slabs@ =~= before.update(i as int, slab));
                assert forall|k: int| 0 <= k < 3 && k != i implies #[trigger] self.areas(k)
                    == old(self).areas(k) by {
                    assert(self.slabs@[k] == before[k]);
                }
                assert(self.slabs@[i as int] == slab);
                match res {
                    SlabAlloc::Area(addr) => {
                        return AllocStep::Area { slab: i, addr };
                    },
                    SlabAlloc::NeedMemory(bytes) => {
                        return AllocStep::Grow { slab: i, bytes };
                    },
                    SlabAlloc::Heap(n) => {
                        return AllocStep::Heap(n);
                    },
                    SlabAlloc::Null => {},
                }
            }
            fresh_here = None;
            i += 1;
        }
        AllocStep::Null
    }
    /// Frees the allocation at `ptr` of `size` bytes with alignment `align` on the first slab
    /// it fits, which is the slab that allocated it; returns that slab's index.
    ///
    /// On the fallback slab (index 2) the caller hands `ptr` back to the heap.
    pub fn dealloc(&mut self, ptr: usize, size: usize, align: usize) -> (r: usize)
        requires
            old(self).wf(),
            align <= MAX_ALIGN,
        ensures
            final(self).wf(),
            r == spec_get_slab(size),
            r < 2 ==> final(self).areas(r as int) == old(self).areas(r as int).push(ptr),
            forall|k: int|
                0 <= k < 3 && (k != r || r == 2) ==> #[trigger] final(self).areas(k) == old(
                    self).areas(k),
    {
        let i = Self::get_slab(size);
        let ghost before = self.slabs@;
        assert(self.slabs@[i as int].wf());
        assert(self.slabs@[i as int].size_spec() == slab_sizes()[i as int]);
        let mut slab = self.slabs.remove(i);
        let fit = slab.dealloc(ptr, size, align);
        assert(fit);
        self.slabs.insert(i, slab);
        assert(self.slabs@ =~= before.update(i as int, slab));
        assert(self.slabs@[i as int] == slab);
        assert forall|k: int| 0 <= k < 3 && k != i implies #[trigger] self.areas(k) == old(
            self).areas(k) by {
            assert(self.slabs@[k] == before[k]);
        }
        i
    }

    /// How a reallocation from `old_size` to `new_size` bytes with alignment `align` proceeds.
    pub fn realloc_plan(&self, old_size: usize, align: usize, new_size: usize) -> (r: ReallocPlan)
        requires
            self.wf(),
        ensures
            r == spec_realloc_plan(old_size, align, new_size),
    {
        let mut i: usize = 0;
        while i < 3
            invariant
                i <= 3,
                self.wf(),
                forall|j: int|
                    0 <= j < i ==> !spec_fits(#[trigger] slab_sizes()[j], old_size, align)
                        && !spec_fits(slab_sizes()[j], new_size, align),
            decreases 3 - i,
        {
            assert(self.slabs@[i as int].size_spec() == slab_sizes()[i as int]);
            let old_fits = self.slabs[i].fits(old_size, align);
            let new_fits = self.slabs[i].fits(new_size, align);
            if old_fits != new_fits {
                return ReallocPlan::Move;
            }
            if old_fits && new_fits {
                if self.slabs[i].realloc_in_place() {
                    return ReallocPlan::InPlace;
                } else {
                    return ReallocPlan::Heap;
                }
            }
            i += 1;
        }
        ReallocPlan::Move
    }
}

/// The reallocation plan: in place if old and new size fall into the same sized slab, on the heap
/// if both fall into the fallback slab, and by moving otherwise.
pub open spec fn spec_realloc_plan(old_size: usize, align: usize, new_size: usize) -> ReallocPlan {
    if align > MAX_ALIGN {
        ReallocPlan::Move
    } else if spec_get_slab(old_size) == spec_get_slab(new_size) {
        if spec_get_slab(old_size) < 2 {
            ReallocPlan::InPlace
        } else {
            ReallocPlan::Heap
        }
    } else {
        ReallocPlan::Move
    }
}

/// Checks that an allocation of `obj_size` bytes would use the slab allocator at index `slab`.
pub fn fits_slab(obj_size: usize, slab: usize) -> (r: bool)
    ensures
        r == (spec_get_slab(obj_size) == slab),
{
    let i = SlabAllocator::get_slab(obj_size);
    i == slab
}

/// The area size used by the slab that allocations of `obj_size` bytes use, or an estimate of the
/// heap's memory usage for allocations that use the fallback.
pub fn area_size(obj_size: usize) -> (r: usize)
    requires
        obj_size + FALLBACK_OVERHEAD <= usize::MAX,
    ensures
        r == spec_area_size(obj_size),
        r >= obj_size,
{
    let i = SlabAllocator::get_slab(obj_size);
    if i == 0 {
        64
    } else if i == 1 {
        128
    } else {
        obj_size + FALLBACK_OVERHEAD
    }
}

} // verus!
