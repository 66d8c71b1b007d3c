use m3kern::errors::Code;
use m3kern::loader::{
    get_mod, heap_start, map_range, mod_name_matches, plan_load, segment, BootModReader,
    ProgHeader, Segment,
};

#[test]
fn boot_module_names() {
    assert!(mod_name_matches(&b"root arg1".to_vec(), &b"root".to_vec()));
    assert!(mod_name_matches(&b"root".to_vec(), &b"root".to_vec()));
    assert!(!mod_name_matches(&b"rootfs".to_vec(), &b"root".to_vec()));
    assert!(!mod_name_matches(&b"roo".to_vec(), &b"root".to_vec()));
    assert!(mod_name_matches(&b" x".to_vec(), &b"".to_vec()));
    let names = vec![b"tilemux a b".to_vec(), b"pager".to_vec(), b"root  x".to_vec()];
    assert_eq!(get_mod(&names, &b"root".to_vec()), Some(2));
    assert_eq!(get_mod(&names, &b"tilemux".to_vec()), Some(0));
    assert_eq!(get_mod(&names, &b"disk".to_vec()), None);
}

#[test]
fn reading_boot_modules() {
    let mut r = BootModReader::new(100);
    assert_eq!(r.read(64), Ok(0));
    assert_eq!(r.off, 64);
    assert_eq!(r.read(40), Err(Code::InvalidElf));
    assert_eq!(r.off, 64);
    r.seek(60);
    assert_eq!(r.read(40), Ok(60));
    assert_eq!(r.off, 100);
    r.seek(u64::MAX);
    assert_eq!(r.read(1), Err(Code::InvalidElf));
}

#[test]
fn segments_of_program_headers() {
    assert_eq!(segment(false, 0, 0x1000, 10, 10), Segment::Skip);
    assert_eq!(segment(true, 0, 0x1000, 0, 0), Segment::Skip);
    // bss: cleared from the page start up to the next page boundary
    assert_eq!(segment(true, 0, 0x20100, 0, 0x100), Segment::Zero { virt: 0x20000, size: 0x1000 });
    assert_eq!(segment(true, 0, 0x20000, 0, 0x2000), Segment::Zero { virt: 0x20000, size: 0x2000 });
    assert_eq!(segment(true, 0x1010, 0x10010, 0x30, 0x30), Segment::Load { virt: 0x10000, src: 0x1000, size: 0x40 });
}

#[test]
fn mapping_ranges_and_heap() {
    assert_eq!(map_range(0x10000, 0x40, 0x2_0123), (0x10, 1, 0x2_0000));
    assert_eq!(map_range(0x3000, 0x2000, 0), (3, 2, 0));
    assert_eq!(heap_start(0x10040), 0x11000);
    assert_eq!(heap_start(0x11000), 0x11000);
    assert_eq!(heap_start(0), 0);
}

#[test]
fn load_plans() {
    let hs = vec![
        ProgHeader { is_load: true, offset: 0x1000, virt_addr: 0x10000, file_size: 0x1800, mem_size: 0x1800 },
        ProgHeader { is_load: false, offset: 0, virt_addr: 0, file_size: 0, mem_size: 0x10 },
        ProgHeader { is_load: true, offset: 0, virt_addr: 0x12100, file_size: 0, mem_size: 0x100 },
        ProgHeader { is_load: true, offset: 0, virt_addr: 0x90000, file_size: 0, mem_size: 0 },
    ];
    let (segs, heap) = plan_load(&hs);
    assert_eq!(
        segs,
        vec![
            Segment::Load { virt: 0x10000, src: 0x1000, size: 0x1800 },
            Segment::Skip,
            Segment::Zero { virt: 0x12000, size: 0x1000 },
            Segment::Skip,
        ]
    );
    assert_eq!(heap, 0x13000);
    let (none, start) = plan_load(&vec![]);
    assert!(none.is_empty());
    assert_eq!(start, 0);
}
