use m3kern::sysc::TileType;
use m3kern::tilemng::{
    find_tile, new_comp_tile_obj, new_mem_tile_obj, shutdown_order, PerTile, TileStatus, UserTile,
    KERNEL_EPREGS,
};
use m3kern::tiles::{QuotaTable, TileObject};

#[test]
fn per_tile_tables() {
    let mut t: PerTile<u32> = PerTile::new();
    t.add(0, 0, 10);
    t.add(0, 2, 12);
    t.add(1, 1, 21);
    assert_eq!(t.get(0, 0), Some(&10));
    assert_eq!(t.get(0, 1), None);
    assert_eq!(t.get(0, 2), Some(&12));
    assert_eq!(t.get(1, 0), None);
    assert_eq!(t.get(1, 1), Some(&21));
}

#[test]
fn shutdown_resets_the_root_of_trust_last() {
    let tiles = vec![
        TileStatus { id: 1, initialized: true, rot: false },
        TileStatus { id: 2, initialized: true, rot: true },
        TileStatus { id: 3, initialized: false, rot: false },
        TileStatus { id: 4, initialized: true, rot: false },
    ];
    assert_eq!(shutdown_order(&tiles), vec![1, 4, 2]);
    let stopped_rot = vec![TileStatus { id: 2, initialized: false, rot: true }, TileStatus { id: 5, initialized: true, rot: false }];
    assert_eq!(shutdown_order(&stopped_rot), vec![5]);
    assert_eq!(shutdown_order(&vec![]), Vec::<u64>::new());
}

#[test]
fn tile_objects_for_whole_tiles() {
    let mut q = QuotaTable::new();
    assert_eq!(q.create(64), 0);
    assert_eq!(q.create(0), 1);
    q.allocate(0, 10);
    let mux_tile = TileObject::new(3, 0, 1, 7, 8, false);
    let t = new_comp_tile_obj(&mux_tile, &mut q, 2);
    assert_eq!((t.tile, t.ep_quota, t.exregs_quota, t.time_quota, t.pt_quota, t.derived), (3, 2, 3, 7, 8, false));
    assert_eq!((q.get(2).total(), q.get(2).left()), (64, 64));
    assert_eq!((q.get(3).total(), q.get(3).left()), (2, 2));

    // the endpoint-memory tile keeps some of its regions for the kernel
    assert_eq!(q.create(0), 4);
    assert_eq!(q.create(16), 5);
    let epm = TileObject::new(9, 4, 5, 0, 0, false);
    let m = new_mem_tile_obj(9, &epm, &mut q, 16);
    assert!(m.derived);
    assert_eq!(q.get(m.exregs_quota).total(), 16 - KERNEL_EPREGS);
    assert_eq!(q.get(5).left(), KERNEL_EPREGS);
    assert_eq!(q.get(m.ep_quota).total(), 0);
    let other = new_mem_tile_obj(10, &epm, &mut q, 8);
    assert!(!other.derived);
    assert_eq!(q.get(other.exregs_quota).total(), 8);
    assert_eq!((other.time_quota, other.pt_quota), (0, 0));
}

#[test]
fn finding_tiles() {
    let tiles = vec![
        UserTile { id: 1, isa: 1, ty: TileType::Comp },
        UserTile { id: 2, isa: 2, ty: TileType::Comp },
        UserTile { id: 3, isa: 2, ty: TileType::Comp },
        UserTile { id: 4, isa: 0, ty: TileType::Mem },
    ];
    assert_eq!(find_tile(&tiles, 2, TileType::Comp), Some(2));
    assert_eq!(find_tile(&tiles, 0, TileType::Mem), Some(4));
    assert_eq!(find_tile(&tiles, 2, TileType::Mem), None);
}
