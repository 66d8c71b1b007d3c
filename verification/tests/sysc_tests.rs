use m3kern::caps::CapSpace;
use m3kern::errors::Code;
use m3kern::kobjs::{EPCategory, EPObject, EpLoc, GateKind, GlobAddr, InvalidateType, KMemObject, KObjKind, MGateObject, RGateObject, PERM_R, PERM_RWX, PERM_W};
use m3kern::selrange::{CapRngDesc, CapType, SelRange};
use m3kern::sysc::{
    activate_mgate, activate_rgate, activate_sgate, alloc_ep, create_map, create_mgate, create_rgate,
    create_sem, create_sess, create_sgate, create_srv, derive_kmem, derive_mem, derive_srv_abort,
    activate_rgate_finish, derive_srv_caps, derive_srv_fin, take_pending_derive, derive_srv_req, do_exchange, exchange, exchange_over_sess_reply,
    find_sess, get_sess, insert_map_cap, is_power_of_two, mgate_mkexcl, revoke_check, tile_lock, tile_mem,
    alloc_ep_accel, alloc_ep_precheck, tile_quota, tile_reset, tile_set_pmp, tile_set_quota, MapCapInfo, MuxQuotaIds, MapPlan, RbufAddr, RbufMem, RecvConfig,
    SendStep, SessInfo, TileDesc, TileType, INVALID_SEL, PAGE_SIZE,
};
use m3kern::tcu::INVALID_EP;
use m3kern::tiles::{Activity, DeriveSrv, QuotaTable, Service, TileMux, TileObject};

const MEM_END: u64 = 0x1000_0000;

fn comp() -> TileDesc {
    TileDesc { ty: TileType::Comp, virtmem: true, memory: true, internal_eps: true }
}

#[test]
fn create_mgate_alignment_and_regions() {
    let map = MapCapInfo { start: 0x10, pages: 4, flags: 3 };
    // misaligned
    assert_eq!(create_mgate(0x10001, 0x1000, PERM_R, Ok(true), Ok(map), MEM_END), Err(Code::InvArgs));
    assert_eq!(create_mgate(0x10000, 0x800, PERM_R, Ok(true), Ok(map), MEM_END), Err(Code::InvArgs));
    // the target lookup failed
    assert_eq!(create_mgate(0x10000, 0x1000, PERM_R, Err(Code::InvCap), Ok(map), MEM_END), Err(Code::InvCap));
    // with virtual memory: within the mapping and its permissions
    assert_eq!(create_mgate(0x11000, 0x2000, PERM_R | PERM_W, Ok(true), Ok(map), MEM_END), Ok(0x11));
    assert_eq!(create_mgate(0x10000, 0, PERM_R, Ok(true), Ok(map), MEM_END), Err(Code::InvArgs));
    assert_eq!(create_mgate(0x10000, 0x1000, PERM_RWX, Ok(true), Ok(map), MEM_END), Err(Code::NoPerm));
    assert_eq!(create_mgate(0x10000, 0x1000, 8, Ok(true), Ok(map), MEM_END), Err(Code::NoPerm));
    assert_eq!(create_mgate(0x11000, 0x4000, PERM_R, Ok(true), Ok(map), MEM_END), Err(Code::InvArgs));
    assert_eq!(create_mgate(0x11000, 0x1000, PERM_R, Ok(true), Err(Code::InvCap), MEM_END), Err(Code::InvCap));
    // without: physical memory below the end
    assert_eq!(create_mgate(0x10000, 0x1000, PERM_RWX, Ok(false), Err(Code::InvCap), MEM_END), Ok(0x10));
    assert_eq!(create_mgate(0x10000, 0, PERM_RWX, Ok(false), Err(Code::InvCap), MEM_END), Err(Code::InvArgs));
    assert_eq!(create_mgate(MEM_END - 0x1000, 0x1000, PERM_RWX, Ok(false), Err(Code::InvCap), MEM_END), Err(Code::InvCap));
    assert_eq!(create_mgate(u64::MAX - 0xFFF, 0x2000, PERM_RWX, Ok(false), Err(Code::InvCap), MEM_END), Err(Code::InvCap));
}

#[test]
fn create_rgate_sizes() {
    let mut s = CapSpace::new();
    let mut k = KMemObject::new(0, 10_000);
    assert_eq!(create_rgate(&mut s, &mut k, 1, 5, 14, 8, 1, 64), Err(Code::InvArgs));
    assert_eq!(create_rgate(&mut s, &mut k, 1, 5, 8, 9, 1, 64), Err(Code::InvArgs));
    assert_eq!(create_rgate(&mut s, &mut k, 1, 5, u32::MAX, 1, 1, 64), Err(Code::InvArgs));
    assert_eq!(s.len(), 0);
    // 32 messages at most
    let (i, g) = create_rgate(&mut s, &mut k, 1, 5, 13, 8, 1, 64).unwrap();
    assert_eq!(i, 0);
    assert_eq!(g, RGateObject::new(13, 8, false));
    assert!(!g.activated());
    assert_eq!(s.cap(0).kind, KObjKind::RGate);
    assert_eq!(create_rgate(&mut s, &mut k, 1, 5, 13, 8, 2, 64), Err(Code::InvArgs));
    assert_eq!(create_rgate(&mut s, &mut k, 1, 6, 8, 8, 2, 64).map(|x| x.0), Ok(1));
}

#[test]
fn create_sgate_sess_srv_sem() {
    let mut s = CapSpace::new();
    let mut k = KMemObject::new(0, 100_000);
    assert_eq!(create_rgate(&mut s, &mut k, 1, 5, 10, 8, 1, 64).map(|x| x.0), Ok(0));
    assert_eq!(create_sgate(&mut s, &mut k, 1, 6, 5, 2, 64), Ok(1));
    assert_eq!(s.cap(1).parent, Some(0));
    assert_eq!(create_sgate(&mut s, &mut k, 1, 7, 6, 3, 64), Err(Code::InvArgs));
    assert_eq!(create_sgate(&mut s, &mut k, 1, 7, 9, 3, 64), Err(Code::InvCap));
    // a service needs a name and an activated receive gate
    assert_eq!(create_srv(&mut s, &mut k, 1, 8, 5, 0, true, 4, 64), Err(Code::InvArgs));
    assert_eq!(create_srv(&mut s, &mut k, 1, 8, 5, 3, false, 4, 64), Err(Code::InvArgs));
    assert_eq!(create_srv(&mut s, &mut k, 1, 8, 6, 3, true, 4, 64), Err(Code::InvArgs));
    assert_eq!(create_srv(&mut s, &mut k, 1, 8, 5, 3, true, 4, 64), Ok(2));
    // sessions come from the service's own capability
    assert_eq!(create_sess(&mut s, &mut k, 1, 9, 8, 5, 64), Ok(3));
    assert_eq!(s.cap(3).parent, Some(2));
    assert_eq!(create_sess(&mut s, &mut k, 1, 10, 9, 6, 64), Err(Code::InvArgs));
    assert_eq!(create_sess(&mut s, &mut k, 1, 10, 11, 6, 64), Err(Code::InvCap));
    let mut k2 = KMemObject::new(1, 100_000);
    assert_eq!(s.obtain(2, 1, 2, &mut k2), Ok(4));
    assert_eq!(create_sess(&mut s, &mut k2, 2, 2, 1, 6, 64), Err(Code::InvArgs));
    assert_eq!(create_sem(&mut s, &mut k, 1, 12, 7, 64), Ok(5));
    assert_eq!(create_sem(&mut s, &mut k, 1, 12, 8, 64), Err(Code::InvArgs));
}

fn two_tables() -> (CapSpace, KMemObject) {
    let mut s = CapSpace::new();
    let mut k = KMemObject::new(0, 100_000);
    assert_eq!(create_sem(&mut s, &mut k, 1, 10, 100, 64), Ok(0));
    assert_eq!(create_sem(&mut s, &mut k, 1, 12, 101, 64), Ok(1));
    (s, k)
}

#[test]
fn exchange_delegate_and_obtain() {
    let (mut s, _) = two_tables();
    let mut k2 = KMemObject::new(1, 100_000);
    let own = CapRngDesc::new(CapType::Object, 10, 3).unwrap();
    // delegate 10..13 of table 1 to 20..23 of table 2 (11 is free and skipped)
    assert_eq!(exchange(&mut s, &mut k2, 1, own, 20, Ok(2), false), Ok(()));
    assert_eq!(s.lookup(2, 20), Some(2));
    assert_eq!(s.lookup(2, 21), None);
    assert_eq!(s.lookup(2, 22), Some(3));
    assert_eq!(s.cap(3).obj, 101);
    assert!(s.cap(3).derived);
    // the destination selectors are taken now
    assert_eq!(exchange(&mut s, &mut k2, 1, own, 20, Ok(2), false), Err(Code::InvArgs));
    // same activity, or the lookup failed
    assert_eq!(exchange(&mut s, &mut k2, 1, own, 30, Ok(1), false), Err(Code::InvArgs));
    assert_eq!(exchange(&mut s, &mut k2, 1, own, 30, Err(Code::InvCap), false), Err(Code::InvCap));
    assert_eq!(exchange(&mut s, &mut k2, 1, own, u64::MAX, Ok(2), false), Err(Code::LastCapOverflow));
    // obtain 20..21 of table 2 into 40..43 of table 1
    let mut k1 = KMemObject::new(0, 100_000);
    let dst = CapRngDesc::new(CapType::Object, 40, 3).unwrap();
    let src = CapRngDesc::new(CapType::Object, 20, 1).unwrap();
    assert_eq!(do_exchange(&mut s, &mut k1, 1, 2, dst, src, true), Ok(()));
    assert_eq!(s.lookup(1, 40), Some(4));
    // differing types and counts
    let map = CapRngDesc::new(CapType::Mapping, 20, 1).unwrap();
    assert_eq!(do_exchange(&mut s, &mut k1, 1, 2, dst, map, true), Err(Code::InvArgs));
    let big = CapRngDesc::new(CapType::Object, 20, 4).unwrap();
    assert_eq!(do_exchange(&mut s, &mut k1, 1, 2, dst, big, true), Err(Code::InvArgs));
    assert_eq!(do_exchange(&mut s, &mut k1, 1, 2, dst, src, false), Err(Code::InvArgs));
}

#[test]
fn exchange_with_little_memory_stops() {
    let (mut s, _) = two_tables();
    let mut poor = KMemObject::new(1, 128);
    let own = CapRngDesc::new(CapType::Object, 10, 3).unwrap();
    // the first copy fits, the second not
    assert_eq!(exchange(&mut s, &mut poor, 1, own, 20, Ok(2), false), Err(Code::NoSpace));
    assert_eq!(s.lookup(2, 20), Some(2));
    assert_eq!(s.lookup(2, 22), None);
    assert_eq!(poor.left(), 0);
}

#[test]
fn exchange_over_session() {
    let (mut s, _) = two_tables();
    let mut k = KMemObject::new(1, 100_000);
    let crd = CapRngDesc::new(CapType::Object, 50, 1).unwrap();
    let srv = CapRngDesc::new(CapType::Object, 10, 1).unwrap();
    assert_eq!(exchange_over_sess_reply(&mut s, &mut k, Code::NoPerm, Ok(2), 1, crd, srv, true), Err(Code::NoPerm));
    assert_eq!(exchange_over_sess_reply(&mut s, &mut k, Code::Success, Err(Code::InvCap), 1, crd, srv, true), Err(Code::InvCap));
    // the client (table 2) obtains the server's (table 1) capability 10
    assert_eq!(exchange_over_sess_reply(&mut s, &mut k, Code::Success, Ok(2), 1, crd, srv, true), Ok(()));
    assert_eq!(s.cap(s.lookup(2, 50).unwrap()).obj, 100);
}

#[test]
fn revoke_protects_own_selectors() {
    let bad = CapRngDesc::new(CapType::Object, 2, 20).unwrap();
    assert_eq!(revoke_check(bad), Err(Code::InvArgs));
    let maps = CapRngDesc::new(CapType::Mapping, 0, 1).unwrap();
    assert_eq!(revoke_check(maps), Ok(1));
    let ok = CapRngDesc::new(CapType::Object, 3, 20).unwrap();
    assert_eq!(revoke_check(ok), Ok(23));
}

#[test]
fn derive_kmem_takes_quota() {
    let mut s = CapSpace::new();
    let mut kmems = vec![KMemObject::new(0, 10_000)];
    let mut tmp = kmems[0];
    assert_eq!(s.insert(1, SelRange::new(1), KObjKind::KMem, 0, 64, None, &mut tmp), Ok(0));
    kmems[0] = tmp;
    let left = kmems[0].left();
    // derive from the activity's own kernel memory
    assert_eq!(derive_kmem(&mut s, &mut kmems, 0, 1, 1, 5, 1000, 64), Ok(1));
    assert_eq!(kmems.len(), 2);
    assert_eq!(kmems[1], KMemObject::new(1, 1000));
    assert_eq!(kmems[0].left(), left - 1000 - 64 - 128);
    assert_eq!(s.cap(1).obj, 1);
    assert_eq!(s.cap(1).parent, Some(0));
    assert_eq!(derive_kmem(&mut s, &mut kmems, 0, 1, 1, 6, 1_000_000, 64), Err(Code::NoSpace));
    assert_eq!(derive_kmem(&mut s, &mut kmems, 0, 1, 2, 6, 10, 64), Err(Code::InvCap));
    assert_eq!(derive_kmem(&mut s, &mut kmems, 0, 1, 1, 5, 10, 64), Err(Code::InvArgs));
}

#[test]
fn derive_mem_subregions() {
    let mut s = CapSpace::new();
    let mut k = KMemObject::new(0, 10_000);
    let m = MGateObject::new(GlobAddr { tile: 3, offset: 0x10000 }, 0x4000, PERM_RWX, false);
    assert_eq!(s.insert(1, SelRange::new(4), KObjKind::MGate, 1, 64, None, &mut k), Ok(0));
    let mut kt = KMemObject::new(1, 10_000);
    let (i, d) = derive_mem(&mut s, &mut kt, Ok(1), 1, 4, 5, 0x1000, 0x2000, PERM_R, &m, 2, 64).unwrap();
    assert_eq!(i, 1);
    assert_eq!(d.addr, GlobAddr { tile: 3, offset: 0x12000 });
    assert_eq!(d.perms, PERM_R);
    assert_eq!(s.cap(1).parent, Some(0));
    assert_eq!(derive_mem(&mut s, &mut kt, Ok(1), 1, 4, 6, 0x1000, 0x3001, PERM_R, &m, 2, 64).unwrap_err(), Code::InvArgs);
    assert_eq!(derive_mem(&mut s, &mut kt, Ok(1), 1, 5, 6, 0, 0x1000, PERM_R, &m, 2, 64).unwrap_err(), Code::InvArgs);
    assert_eq!(derive_mem(&mut s, &mut kt, Err(Code::InvCap), 1, 4, 6, 0, 0x1000, PERM_R, &m, 2, 64).unwrap_err(), Code::InvCap);
}

#[test]
fn tile_requests() {
    let mem = TileDesc { ty: TileType::Mem, virtmem: false, memory: true, internal_eps: false };
    let own = TileObject::new(1, 0, 1, 10, 11, false);
    let derived = TileObject::new(1, 0, 1, 10, 11, true);
    assert_eq!(tile_set_quota(comp(), &own), Ok(10));
    assert_eq!(tile_set_quota(mem, &own), Err(Code::InvArgs));
    assert_eq!(tile_set_quota(comp(), &derived), Err(Code::NoPerm));
    let mut busy = TileObject::new(1, 0, 1, 10, 11, false);
    busy.add_activity(1, 2);
    assert_eq!(tile_set_pmp(comp(), &busy, 2, true), Err(Code::InvState));
    assert_eq!(tile_set_pmp(comp(), &busy, 2, false), Ok(()));
    assert_eq!(tile_set_pmp(comp(), &own, 0, false), Err(Code::InvArgs));
    assert_eq!(tile_set_pmp(comp(), &own, 4, false), Err(Code::InvArgs));
    assert_eq!(tile_reset(comp(), &own, true, Some(64)), Err(Code::InvArgs));
    assert_eq!(tile_reset(comp(), &own, true, None), Ok(()));
    assert_eq!(tile_reset(comp(), &own, false, Some(64)), Ok(()));
    assert_eq!(tile_lock(comp(), &own, true), Err(Code::Exists));
    assert_eq!(tile_lock(mem, &own, false), Err(Code::InvArgs));
    assert_eq!(tile_lock(comp(), &derived, false), Err(Code::NoPerm));
    assert_eq!(tile_lock(comp(), &own, false), Ok(()));
}

#[test]
fn tile_mem_capability() {
    let mut s = CapSpace::new();
    let mut k = KMemObject::new(0, 10_000);
    let own = TileObject::new(1, 0, 1, 10, 11, false);
    assert_eq!(s.insert(1, SelRange::new(0), KObjKind::Tile, 1, 64, None, &mut k), Ok(0));
    let nomem = TileDesc { ty: TileType::Comp, virtmem: true, memory: false, internal_eps: true };
    assert_eq!(tile_mem(&mut s, &mut k, 1, 5, 0, nomem, &own, 2, 64), Err(Code::InvArgs));
    assert_eq!(tile_mem(&mut s, &mut k, 1, 5, 1, comp(), &own, 2, 64), Err(Code::InvCap));
    assert_eq!(tile_mem(&mut s, &mut k, 1, 5, 0, comp(), &own, 2, 64), Ok(1));
    assert_eq!(s.cap(1).kind, KObjKind::MGate);
    assert_eq!(s.cap(1).parent, Some(0));
}

#[test]
fn create_map_decisions() {
    let mut s = CapSpace::new();
    let m = MGateObject::new(GlobAddr { tile: 3, offset: 0x20000 }, 0x8000, PERM_R | PERM_W, false);
    assert_eq!(
        create_map(&s, 7, Ok(true), Ok(m), 0x100, 2, 3, PERM_R),
        Ok(MapPlan { virt: 0x100000, phys: GlobAddr { tile: 3, offset: 0x22000 }, exists: false })
    );
    assert_eq!(create_map(&s, 7, Ok(false), Ok(m), 0x100, 2, 3, PERM_R), Err(Code::InvArgs));
    assert_eq!(create_map(&s, 7, Err(Code::InvCap), Ok(m), 0x100, 2, 3, PERM_R), Err(Code::InvCap));
    assert_eq!(create_map(&s, 7, Ok(true), Err(Code::InvArgs), 0x100, 2, 3, PERM_R), Err(Code::InvArgs));
    assert_eq!(create_map(&s, 7, Ok(true), Ok(m), 0x100, 2, 3, PERM_RWX), Err(Code::InvArgs));
    assert_eq!(create_map(&s, 7, Ok(true), Ok(m), 0x100, 6, 3, PERM_R), Err(Code::InvArgs));
    assert_eq!(create_map(&s, 7, Ok(true), Ok(m), 0x100, 8, 1, PERM_R), Err(Code::InvArgs));
    assert_eq!(create_map(&s, 7, Ok(true), Ok(m), 0x100, 0, 0, PERM_R), Err(Code::InvArgs));
    let odd = MGateObject::new(GlobAddr { tile: 3, offset: 0x20800 }, 0x8000, PERM_R, false);
    assert_eq!(create_map(&s, 7, Ok(true), Ok(odd), 0x100, 0, 1, PERM_R), Err(Code::InvArgs));
    // insert the mapping and map again
    let mut k = KMemObject::new(0, 10_000);
    assert_eq!(s.insert(1, SelRange::new(4), KObjKind::MGate, 1, 64, None, &mut k), Ok(0));
    assert_eq!(insert_map_cap(&mut s, &mut k, 7, 0x100, 3, 1, 4, 2, 64), Ok(1));
    assert_eq!(s.cap(1).parent, Some(0));
    assert_eq!(s.cap(1).sels, SelRange::new_range(0x100, 3));
    assert_eq!(create_map(&s, 7, Ok(true), Ok(m), 0x100, 2, 3, PERM_R).unwrap().exists, true);
    assert_eq!(create_map(&s, 7, Ok(true), Ok(m), 0x100, 2, 2, PERM_R), Err(Code::InvArgs));
    // overlapping a mapping
    assert_eq!(create_map(&s, 7, Ok(true), Ok(m), 0xFF, 2, 2, PERM_R), Err(Code::InvArgs));
    // a bad region is refused whatever the destination
    assert_eq!(create_map(&s, 7, Ok(true), Ok(m), u64::MAX, 6, 3, PERM_R), Err(Code::InvArgs));
    assert_eq!(create_map(&s, 7, Ok(true), Ok(m), u64::MAX, 0, 2, PERM_RWX), Err(Code::InvArgs));
    // selectors beyond the end of the selector space
    assert_eq!(create_map(&s, 7, Ok(true), Ok(m), u64::MAX, 0, 2, PERM_R), Err(Code::LastCapOverflow));
}

#[test]
fn alloc_ep_choices() {
    let mut q = QuotaTable::new();
    assert_eq!(q.create(8), 0);
    assert_eq!(q.create(1), 1);
    let tile = TileObject::new(2, 0, 1, 10, 11, false);
    let mut mux = TileMux::new(2);
    // not initialized
    assert_eq!(alloc_ep(&tile, &mut q, &mut mux, 0, INVALID_EP), Err(Code::InvState));
    mux.init_state(32);
    assert_eq!(alloc_ep(&tile, &mut q, &mut mux, 33, INVALID_EP), Err(Code::InvArgs));
    assert_eq!(alloc_ep(&tile, &mut q, &mut mux, 8, INVALID_EP), Err(Code::NoSpace));
    assert_eq!(alloc_ep(&tile, &mut q, &mut mux, 2, INVALID_EP), Ok(8));
    assert_eq!(q.get(0).left(), 5);
    assert_eq!(alloc_ep(&tile, &mut q, &mut mux, 0, 9), Err(Code::InvArgs));
    assert_eq!(alloc_ep(&tile, &mut q, &mut mux, 1, 31), Err(Code::InvArgs));
    assert_eq!(alloc_ep(&tile, &mut q, &mut mux, 1, 30), Ok(30));
    assert_eq!(q.get(0).left(), 3);
    assert_eq!(mux.find_eps(1), Ok(11));
}

#[test]
fn mkexcl_checks() {
    let m = MGateObject::new(GlobAddr { tile: 3, offset: 0x4000 }, 0x1000, PERM_RWX, false);
    assert_eq!(mgate_mkexcl(&m, 3), Ok(()));
    assert_eq!(mgate_mkexcl(&m, 4), Err(Code::InvArgs));
    let unaligned = MGateObject::new(GlobAddr { tile: 3, offset: 0x4800 }, 0x1000, PERM_RWX, false);
    assert_eq!(mgate_mkexcl(&unaligned, 3), Err(Code::InvArgs));
    let odd = MGateObject::new(GlobAddr { tile: 3, offset: 0x4000 }, 0x1800, PERM_RWX, false);
    assert_eq!(mgate_mkexcl(&odd, 3), Err(Code::InvArgs));
    let tiny = MGateObject::new(GlobAddr { tile: 3, offset: 0x4000 }, 4, PERM_RWX, false);
    assert_eq!(mgate_mkexcl(&tiny, 3), Err(Code::InvArgs));
    assert!(is_power_of_two(1));
    assert!(is_power_of_two(4096));
    assert!(!is_power_of_two(0));
    assert!(!is_power_of_two(6));
}

#[test]
fn activate_gates() {
    let ep = EPObject::new(EPCategory::Custom, Some(1), 20, 0, 2);
    let ep_replies = EPObject::new(EPCategory::Custom, Some(1), 20, 16, 2);
    let g = RGateObject::new(12, 8, false);
    let rb = RbufMem { addr: GlobAddr { tile: 9, offset: 0x8000 }, size: 0x2000, on_mem_tile: true };
    // the pager reply endpoint gets the standard buffer
    let pager = EPObject::new(EPCategory::Std, Some(1), 16 + 6, 0, 2);
    assert_eq!(
        activate_rgate(&pager, 16, 0x1000, 0x700, Ok(g), true, INVALID_SEL, Err(Code::InvCap), 0),
        Ok(RecvConfig { rbuf: RbufAddr::Phys(0x1700), reply_eps: None })
    );
    assert_eq!(
        activate_rgate(&ep, 16, 0x1000, 0x700, Ok(g), true, 5, Ok(rb), 0x1000),
        Ok(RecvConfig { rbuf: RbufAddr::Translate(rb.addr, 0x1000), reply_eps: None })
    );
    assert_eq!(activate_rgate(&ep, 16, 0x1000, 0x700, Ok(g), true, 5, Ok(rb), 0x1001).unwrap_err(), Code::InvArgs);
    let not_mem = RbufMem { on_mem_tile: false, ..rb };
    assert_eq!(activate_rgate(&ep, 16, 0x1000, 0x700, Ok(g), true, 5, Ok(not_mem), 0).unwrap_err(), Code::InvArgs);
    assert_eq!(
        activate_rgate(&ep, 16, 0, 0, Ok(g), false, INVALID_SEL, Err(Code::InvCap), 0x300),
        Ok(RecvConfig { rbuf: RbufAddr::Local(0x300), reply_eps: None })
    );
    assert_eq!(activate_rgate(&ep, 16, 0, 0, Ok(g), false, 5, Ok(rb), 0).unwrap_err(), Code::InvArgs);
    // reply slots: one per message
    assert_eq!(
        activate_rgate(&ep_replies, 16, 0, 0, Ok(g), false, INVALID_SEL, Err(Code::InvCap), 0),
        Ok(RecvConfig { rbuf: RbufAddr::Local(0), reply_eps: Some(21) })
    );
    let g32 = RGateObject::new(13, 8, false);
    assert_eq!(activate_rgate(&ep_replies, 16, 0, 0, Ok(g32), false, INVALID_SEL, Err(Code::InvCap), 0).unwrap_err(), Code::InvArgs);
    let mut active = g;
    active.activate(2, 20, 0x9000);
    assert_eq!(activate_rgate(&ep, 16, 0, 0, Ok(active), false, INVALID_SEL, Err(Code::InvCap), 0).unwrap_err(), Code::Exists);
    assert_eq!(activate_sgate(&ep, Ok(false), Some(true)), Ok(SendStep::Configure));
    assert_eq!(activate_sgate(&ep, Ok(false), Some(false)), Ok(SendStep::WaitForRecv));
    assert_eq!(activate_sgate(&ep, Ok(false), None), Err(Code::ObjectGone));
    assert_eq!(activate_sgate(&ep, Ok(true), Some(true)), Err(Code::Exists));
    assert_eq!(activate_sgate(&ep_replies, Ok(false), Some(true)), Err(Code::InvArgs));
    assert_eq!(activate_mgate(&ep, Ok(false)), Ok(()));
    assert_eq!(activate_mgate(&ep, Err(Code::InvCap)), Err(Code::InvCap));
    assert_eq!(activate_mgate(&ep_replies, Ok(false)), Err(Code::InvArgs));
}

#[test]
fn service_derivation() {
    let mut act = Activity::new(4, 2, 16, false);
    let mut srv = Service { activity: 1, cur_derive: None };
    let d = DeriveSrv { src_srv: 10, dst_srv: 11, dst_sgate: 12, event: 5 };
    assert_eq!(derive_srv_req(&mut act, &mut srv, Ok(()), 0, d), Err(Code::InvArgs));
    assert_eq!(derive_srv_req(&mut act, &mut srv, Err(Code::InvCap), 1, d), Err(Code::InvCap));
    assert_eq!(derive_srv_req(&mut act, &mut srv, Ok(()), 2, d), Ok(()));
    assert_eq!(srv.cur_derive, Some(4));
    // a second derivation is refused and changes nothing
    let mut other = Activity::new(5, 2, 24, false);
    assert_eq!(derive_srv_req(&mut other, &mut srv, Ok(()), 2, d), Err(Code::Exists));
    assert_eq!(other.derive_srv, None);
    assert_eq!(take_pending_derive(&mut srv, &mut act), Ok(d));
    assert_eq!(take_pending_derive(&mut srv, &mut act), Err(Code::NotFound));
    assert_eq!(derive_srv_req(&mut act, &mut srv, Ok(()), 2, d), Ok(()));
    derive_srv_abort(&mut act, &mut srv);
    assert_eq!(act.derive_srv, None);
    assert_eq!(srv.cur_derive, None);
}

#[test]
fn service_derivation_capabilities() {
    let mut s = CapSpace::new();
    let mut k = KMemObject::new(0, 100_000);
    // the deriving activity (table 2) has the service at 10; the server (table 1) a send gate at 3
    assert_eq!(s.insert(2, SelRange::new(10), KObjKind::Serv, 1, 64, None, &mut k), Ok(0));
    assert_eq!(s.insert(1, SelRange::new(3), KObjKind::SGate, 2, 64, None, &mut k), Ok(1));
    let d = DeriveSrv { src_srv: 10, dst_srv: 11, dst_sgate: 12, event: 5 };
    let mut kd = KMemObject::new(1, 100_000);
    assert_eq!(derive_srv_caps(&mut s, &mut kd, 1, 4, 2, d, 3, 64), Code::InvCap);
    assert_eq!(derive_srv_caps(&mut s, &mut kd, 1, 3, 2, d, 3, 64), Code::Success);
    assert_eq!(s.lookup(2, 12), Some(2));
    assert_eq!(s.cap(2).parent, Some(1));
    assert_eq!(s.lookup(2, 11), Some(3));
    assert_eq!(s.cap(3).parent, Some(0));
    assert_eq!(derive_srv_caps(&mut s, &mut kd, 1, 3, 2, d, 3, 64), Code::InvArgs);
}

#[test]
fn get_session() {
    let mut s = CapSpace::new();
    let mut k = KMemObject::new(0, 100_000);
    // the server (table 1) owns service 10 with sessions 20 (id 7) and 21 (id 8)
    assert_eq!(s.insert(1, SelRange::new(10), KObjKind::Serv, 1, 64, None, &mut k), Ok(0));
    assert_eq!(s.insert(1, SelRange::new(20), KObjKind::Sess, 2, 64, Some(0), &mut k), Ok(1));
    assert_eq!(s.insert(1, SelRange::new(21), KObjKind::Sess, 3, 64, Some(0), &mut k), Ok(2));
    let sessions = vec![
        SessInfo { obj: 2, ident: 7, creator: 0 },
        SessInfo { obj: 3, ident: 8, creator: 1 },
    ];
    assert_eq!(find_sess(&sessions, 3), Some(SessInfo { obj: 3, ident: 8, creator: 1 }));
    assert_eq!(find_sess(&sessions, 4), None);
    let mut kt = KMemObject::new(1, 100_000);
    assert_eq!(get_sess(&mut s, &mut kt, 1, Ok(2), 10, 5, 7, 0, &sessions), Ok(3));
    assert_eq!(s.cap(3).parent, Some(1));
    assert_eq!(get_sess(&mut s, &mut kt, 1, Ok(2), 10, 6, 8, 0, &sessions), Err(Code::NoPerm));
    assert_eq!(get_sess(&mut s, &mut kt, 1, Ok(2), 10, 6, 9, 0, &sessions), Err(Code::InvArgs));
    assert_eq!(get_sess(&mut s, &mut kt, 1, Ok(1), 10, 6, 7, 0, &sessions), Err(Code::InvArgs));
    assert_eq!(get_sess(&mut s, &mut kt, 1, Ok(2), 20, 6, 7, 0, &sessions), Err(Code::InvArgs));
    assert_eq!(get_sess(&mut s, &mut kt, 1, Ok(2), 10, 5, 7, 0, &sessions), Err(Code::InvArgs));
    assert_eq!(PAGE_SIZE, 4096);
}

#[test]
fn tile_quotas() {
    let mut q = QuotaTable::new();
    assert_eq!(q.create(16), 0);
    assert_eq!(q.create(4), 1);
    q.allocate(0, 3);
    let tile = TileObject::new(1, 0, 1, 10, 11, false);
    let info = tile_quota(&tile, &q, true, true);
    assert_eq!((info.eps.id, info.eps.total, info.eps.left), (0, 16, 13));
    assert_eq!((info.exregs.id, info.exregs.total, info.exregs.left), (1, 4, 4));
    assert_eq!(info.ask_mux, Some(MuxQuotaIds { time: 10, pts: 11 }));
    assert_eq!(tile_quota(&tile, &q, true, false).ask_mux, None);
    assert_eq!(tile_quota(&tile, &q, false, true).ask_mux, None);
}

#[test]
fn endpoints_chosen_by_an_accelerator_multiplexer() {
    let mut q = QuotaTable::new();
    assert_eq!(q.create(4), 0);
    let tile = TileObject::new(3, 0, 0, 0, 0, false);
    assert_eq!(alloc_ep_precheck(&tile, &q, 40), Err(Code::InvArgs));
    assert_eq!(alloc_ep_precheck(&tile, &q, 4), Err(Code::NoSpace));
    assert_eq!(alloc_ep_precheck(&tile, &q, 1), Ok(2));
    let mut mux = TileMux::new(3);
    mux.init_state(32);
    assert_eq!(alloc_ep_accel(&tile, &mut q, &mut mux, 2, Err(Code::Exists)), Err(Code::Exists));
    assert_eq!(q.get(0).left(), 4);
    assert_eq!(alloc_ep_accel(&tile, &mut q, &mut mux, 2, Ok(20)), Ok(20));
    assert_eq!(q.get(0).left(), 2);
    assert!(!mux.eps_free(20, 1));
    assert!(!mux.eps_free(21, 1));
}

#[test]
fn service_derivation_finish_after_revoked_service() {
    let mut s = CapSpace::new();
    let mut k = KMemObject::new(0, 100_000);
    // the client (table 2) derived from its service at 10, which the server then revoked
    assert_eq!(s.insert(2, SelRange::new(10), KObjKind::Serv, 1, 64, None, &mut k), Ok(0));
    assert_eq!(s.insert(1, SelRange::new(3), KObjKind::SGate, 2, 64, None, &mut k), Ok(1));
    let mut client = Activity::new(2, 2, 16, false);
    let mut srv = Service { activity: 1, cur_derive: None };
    let d = DeriveSrv { src_srv: 10, dst_srv: 11, dst_sgate: 12, event: 0xDEAD_BEEF };
    assert_eq!(derive_srv_req(&mut client, &mut srv, Ok(()), 1, d), Ok(()));
    s.revoke_subtree(0, true);
    let mut kd = KMemObject::new(1, 100_000);
    let (answer, upcall) = derive_srv_fin(&mut s, &mut kd, &mut srv, &mut client, 1, 3, 2, Code::Success, 3, 64);
    assert_eq!(answer, Err(Code::InvCap));
    assert_eq!(upcall, Some((d, Code::InvCap)));
    assert_eq!(s.lookup(2, 11), None);
    assert_eq!(s.lookup(2, 12), None);
    assert_eq!(kd.left(), 100_000);
    assert_eq!(client.derive_srv, None);
    assert_eq!(srv.cur_derive, None);
    // nothing pending any more
    let (answer, upcall) = derive_srv_fin(&mut s, &mut kd, &mut srv, &mut client, 1, 3, 2, Code::Success, 3, 64);
    assert_eq!(answer, Err(Code::NotFound));
    assert_eq!(upcall, None);
}

#[test]
fn service_derivation_finish_granted_and_declined() {
    let mut s = CapSpace::new();
    let mut k = KMemObject::new(0, 100_000);
    assert_eq!(s.insert(2, SelRange::new(10), KObjKind::Serv, 1, 64, None, &mut k), Ok(0));
    assert_eq!(s.insert(1, SelRange::new(3), KObjKind::SGate, 2, 64, None, &mut k), Ok(1));
    let mut client = Activity::new(2, 2, 16, false);
    let mut srv = Service { activity: 1, cur_derive: None };
    let d = DeriveSrv { src_srv: 10, dst_srv: 11, dst_sgate: 12, event: 7 };
    let mut kd = KMemObject::new(1, 100_000);
    // declined by the server: its result is passed on, nothing is created
    assert_eq!(derive_srv_req(&mut client, &mut srv, Ok(()), 1, d), Ok(()));
    let (answer, upcall) = derive_srv_fin(&mut s, &mut kd, &mut srv, &mut client, 1, 3, 2, Code::NoPerm, 3, 64);
    assert_eq!(answer, Err(Code::NoPerm));
    assert_eq!(upcall, Some((d, Code::NoPerm)));
    assert_eq!(s.lookup(2, 11), None);
    // granted
    assert_eq!(derive_srv_req(&mut client, &mut srv, Ok(()), 1, d), Ok(()));
    let (answer, upcall) = derive_srv_fin(&mut s, &mut kd, &mut srv, &mut client, 1, 3, 2, Code::Success, 3, 64);
    assert_eq!(answer, Ok(()));
    assert_eq!(upcall, Some((d, Code::Success)));
    assert!(s.lookup(2, 11).is_some());
    assert!(s.lookup(2, 12).is_some());
}

#[test]
fn receive_gate_activation_completes_or_rolls_back() {
    let mut g = RGateObject::new(12, 8, false);
    let mut ep = EPObject::new(EPCategory::Custom, Some(4), 20, 0, 7);
    assert_eq!(activate_rgate_finish(&mut g, &mut ep, 99, 0x8000, Err(Code::RecvGone)), Err(Code::RecvGone));
    assert!(!g.activated());
    assert_eq!(g.location(), None);
    assert!(!ep.is_configured());
    assert_eq!(activate_rgate_finish(&mut g, &mut ep, 99, 0x8000, Ok(())), Ok(false));
    assert!(g.activated());
    assert_eq!(g.location(), Some(EpLoc { tile: 7, ep: 20 }));
    assert_eq!(g.ep, Some(99));
    assert!(ep.is_rgate());
    // deconfiguring the endpoint deactivates and unbinds that gate
    let (d, serial) = ep.deconfigure_recv(InvalidateType::Default, &mut g);
    assert_eq!(d.unwrap().gate, GateKind::Recv);
    assert!(!serial);
    assert!(!g.activated());
    assert_eq!(g.location(), None);
    assert_eq!(g.ep, None);
    assert!(!ep.is_configured());
}
