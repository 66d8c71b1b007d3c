use m3kern::errors::Code;
use m3kern::exregs::{ExRegs, ExclRegion, MemMux};
use m3kern::kobjs::{GlobAddr, MGateObject, PERM_RWX};
use m3kern::tiles::{QuotaTable, TileObject};

fn mem_tile() -> (QuotaTable, TileObject) {
    let mut q = QuotaTable::new();
    assert_eq!(q.create(8), 0);
    assert_eq!(q.create(2), 1);
    (q, TileObject::new(9, 0, 1, 0, 0, false))
}

#[test]
fn exregs_add_and_remove() {
    let (mut q, mt) = mem_tile();
    let mut e = ExRegs::new(9, 4);
    assert_eq!(e.add_start(false, &mt, &q), Err(Code::NotSup));
    assert_eq!(e.add_start(true, &mt, &q), Ok(0));
    let mut g = MGateObject::new(GlobAddr { tile: 9, offset: 0x1000 }, 0x1000, PERM_RWX, false);
    e.add_finish(&mut g, 77, &mut q, &mt, 4, 0);
    assert_eq!(g.exclusive_tile(), Some(4));
    assert_eq!(q.get(1).left(), 1);
    assert_eq!(e.add_start(true, &mt, &q), Ok(1));
    let mut g2 = MGateObject::new(GlobAddr { tile: 9, offset: 0x4000 }, 0x1000, PERM_RWX, false);
    e.add_finish(&mut g2, 78, &mut q, &mt, 5, 1);
    // the quota is used up
    assert_eq!(e.add_start(true, &mt, &q), Err(Code::NoSpace));
    // access by overlap with a region of the tile whose gate still exists
    assert!(e.has_access(4, 0x1800, 0x100, &vec![true, true]));
    assert!(!e.has_access(4, 0x2000, 0x100, &vec![true, true]));
    assert!(!e.has_access(4, 0x1800, 0x100, &vec![false, true]));
    assert!(e.has_access(5, 0x3000, 0x1001, &vec![true, true]));
    // removing the regions of tile 4
    assert_eq!(
        e.remove_first_of(4),
        Some((0, ExclRegion { idx: 0, user_tile: 4, mgate: 77, offset: 0x1000, size: 0x1000 }))
    );
    assert_eq!(e.remove_first_of(4), None);
    assert_eq!(e.regions.len(), 1);
    assert!(!e.used[0]);
    // without regions, tile 4 has no access any more; tile 5 keeps its own
    assert!(!e.has_access(4, 0x1800, 0x100, &vec![true]));
    assert!(e.has_access(5, 0x4000, 0x10, &vec![true]));
}

#[test]
fn memmux_add_and_invalidate() {
    let (mut q, mt) = mem_tile();
    let mut m = MemMux::new(9, 4);
    let mut g = MGateObject::new(GlobAddr { tile: 9, offset: 0 }, 0x1000, PERM_RWX, false);
    assert_eq!(m.add_start(&mut g, &mt, &q, 4), Ok(0));
    assert_eq!(g.exclusive_tile(), Some(4));
    m.add_finish(&g, 1, &mut q, &mt, 4, 0);
    // exclusive to another tile
    let mut g2 = g;
    assert_eq!(m.add_start(&mut g2, &mt, &q, 5), Err(Code::Exists));
    let mut g3 = MGateObject::new(GlobAddr { tile: 9, offset: 0x1000 }, 0x1000, PERM_RWX, false);
    assert_eq!(m.add_start(&mut g3, &mt, &q, 5), Ok(1));
    m.add_finish(&g3, 2, &mut q, &mt, 5, 1);
    let mut g4 = MGateObject::new(GlobAddr { tile: 9, offset: 0x2000 }, 0x1000, PERM_RWX, false);
    assert_eq!(m.add_start(&mut g4, &mt, &q, 5), Err(Code::NoSpace));
    assert_eq!(g4.exclusive_tile(), None);
    let removed = m.invalidate(4);
    assert_eq!(removed.len(), 1);
    assert_eq!(removed[0].mgate, 1);
    assert_eq!(m.regions.len(), 1);
    assert_eq!(m.regions[0].user_tile, 5);
    assert!(m.invalidate(4).is_empty());
}

#[test]
fn invalidation_needs_a_root_of_trust() {
    let (mut q, mt) = mem_tile();
    let mut e = ExRegs::new(9, 4);
    let mut g = MGateObject::new(GlobAddr { tile: 9, offset: 0x1000 }, 0x1000, PERM_RWX, false);
    e.add_finish(&mut g, 77, &mut q, &mt, 4, 0);
    assert_eq!(e.invalidate_step(false, 4), None);
    assert_eq!(e.regions.len(), 1);
    assert_eq!(e.invalidate_step(true, 4).map(|x| x.0), Some(0));
    assert_eq!(e.invalidate_step(true, 4), None);
    assert!(e.regions.is_empty());
}
