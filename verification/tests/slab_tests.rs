use m3kern::slab::{
    area_size, fits_slab, AllocStep, ReallocPlan, Slab, SlabAlloc, SlabAllocator, AREA_LINK_SIZE,
    FALLBACK_OVERHEAD, NEW_AREA_COUNT,
};

#[test]
fn fits_slab_picks_first_fitting_slab() {
    assert!(fits_slab(1, 0));
    assert!(fits_slab(64, 0));
    assert!(!fits_slab(64, 1));
    assert!(fits_slab(65, 1));
    assert!(fits_slab(128, 1));
    assert!(fits_slab(129, 2));
    assert!(fits_slab(100_000, 2));
    assert!(!fits_slab(100_000, 1));
}

#[test]
fn area_size_of_slabs_and_fallback() {
    assert_eq!(area_size(0), 64);
    assert_eq!(area_size(17), 64);
    assert_eq!(area_size(64), 64);
    assert_eq!(area_size(65), 128);
    assert_eq!(area_size(128), 128);
    assert_eq!(area_size(129), 129 + FALLBACK_OVERHEAD);
    assert_eq!(area_size(4096), 4096 + 64);
}

#[test]
fn slab_ceil_size() {
    assert_eq!(Slab::ceil_size(0), AREA_LINK_SIZE);
    assert_eq!(Slab::ceil_size(7), 8);
    assert_eq!(Slab::ceil_size(8), 8);
    assert_eq!(Slab::ceil_size(300), 300);
}

#[test]
fn slab_grows_and_hands_out_highest_area_first() {
    let mut s = Slab::new(Some(64));
    assert!(s.fits(64, 8));
    assert!(!s.fits(65, 8));
    assert!(!s.fits(8, 32));
    assert_eq!(s.extend_bytes(), 64 * NEW_AREA_COUNT);
    // empty: the slab asks for memory
    assert_eq!(s.alloc_area(10, 8, None), SlabAlloc::NeedMemory(64 * 64));
    // the heap gave nothing
    assert_eq!(s.alloc_area(10, 8, Some(None)), SlabAlloc::Null);
    // the heap gave a block at 0x1000
    assert_eq!(s.alloc_area(10, 8, Some(Some(0x1000))), SlabAlloc::Area(0x1000 + 63 * 64));
    assert_eq!(s.free_count(), 63);
    assert_eq!(s.alloc_area(10, 8, None), SlabAlloc::Area(0x1000 + 62 * 64));
    // too large for this slab
    assert_eq!(s.alloc_area(100, 8, None), SlabAlloc::Null);
}

#[test]
fn slab_dealloc_then_alloc_returns_same_area() {
    let mut s = Slab::new(Some(128));
    assert_eq!(s.alloc_area(100, 16, Some(Some(0x8000))), SlabAlloc::Area(0x8000 + 63 * 128));
    assert!(s.dealloc(0x4242, 100, 16));
    assert_eq!(s.alloc_area(100, 16, None), SlabAlloc::Area(0x4242));
    assert!(!s.dealloc(0x4242, 200, 16));
}

#[test]
fn fallback_slab_goes_to_heap() {
    let mut s = Slab::new(None);
    assert_eq!(s.alloc_area(4, 8, None), SlabAlloc::Heap(8));
    assert_eq!(s.alloc_area(5000, 8, None), SlabAlloc::Heap(5000));
    assert!(s.dealloc(0x1234, 5000, 8));
    assert_eq!(s.free_count(), 0);
    assert!(!s.realloc_in_place());
    assert!(Slab::new(Some(64)).realloc_in_place());
}

#[test]
fn allocator_protocol_grow_then_serve() {
    let mut a = SlabAllocator::new();
    assert_eq!(SlabAllocator::get_slab(10), 0);
    assert_eq!(SlabAllocator::get_slab(100), 1);
    assert_eq!(SlabAllocator::get_slab(1000), 2);
    // the first slab is empty: grow it
    let step = a.alloc_step(10, 8, 0, None);
    assert_eq!(step, AllocStep::Grow { slab: 0, bytes: 64 * 64 });
    // retry with the block from the heap
    let step = a.alloc_step(10, 8, 0, Some(0x10000));
    assert_eq!(step, AllocStep::Area { slab: 0, addr: 0x10000 + 63 * 64 });
    // served without growing now
    let step = a.alloc_step(10, 8, 0, None);
    assert_eq!(step, AllocStep::Area { slab: 0, addr: 0x10000 + 62 * 64 });
    // large requests go to the heap
    assert_eq!(a.alloc_step(1000, 8, 0, None), AllocStep::Heap(1000));
    // too strict alignment
    assert_eq!(a.alloc_step(10, 64, 0, None), AllocStep::Null);
    // if the heap gives nothing for slab 0, the search goes on at slab 1
    let step = a.alloc_step(10, 8, 1, None);
    assert_eq!(step, AllocStep::Grow { slab: 1, bytes: 128 * 64 });
}

#[test]
fn allocator_dealloc_and_realloc_plan() {
    let mut a = SlabAllocator::new();
    assert_eq!(a.dealloc(0x5000, 40, 8), 0);
    assert_eq!(a.alloc_step(40, 8, 0, None), AllocStep::Area { slab: 0, addr: 0x5000 });
    assert_eq!(a.dealloc(0x6000, 4000, 8), 2);
    assert_eq!(a.realloc_plan(10, 8, 60), ReallocPlan::InPlace);
    assert_eq!(a.realloc_plan(10, 8, 100), ReallocPlan::Move);
    assert_eq!(a.realloc_plan(1000, 8, 2000), ReallocPlan::Heap);
    assert_eq!(a.realloc_plan(10, 32, 20), ReallocPlan::Move);
}
