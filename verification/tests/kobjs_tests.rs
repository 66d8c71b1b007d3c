use m3kern::errors::Code;
use m3kern::eps::{eps_region_size, first_clear_bit, EpAllocator};
use m3kern::kobjs::{
    kobj_size, sem_down_step, Deconfigure, DownStep, EPCategory, EPObject, GateKind, GlobAddr, InvalidateType, KMemObject,
    MGateObject, MapObject, RGateObject, SemObject, ServObject, SessObject, TileQuota, PERM_R,
    PERM_RWX, PERM_W,
};

#[test]
fn kmem_alloc_free_roundtrip() {
    let mut k = KMemObject::new(3, 1000);
    assert_eq!(k.id(), 3);
    assert!(k.has_quota(1000));
    assert!(!k.has_quota(1001));
    assert!(k.allocate(300));
    assert_eq!(k.left(), 700);
    assert!(!k.allocate(701));
    assert_eq!(k.left(), 700);
    k.free(300);
    assert_eq!(k, KMemObject::new(3, 1000));
}

#[test]
fn kmem_revoke_gives_quota_to_parent() {
    let mut parent = KMemObject::new(0, 1000);
    assert!(parent.allocate(400));
    let child = KMemObject::new(1, 400);
    child.revoke(&mut parent);
    assert_eq!(parent.left(), 1000);
    assert_eq!(parent.quota(), 1000);
}

#[test]
fn tile_quota_ops() {
    let mut q = TileQuota::new(7, 10);
    q.allocate(4);
    assert_eq!((q.id(), q.total(), q.left()), (7, 10, 6));
    q.free(2);
    assert_eq!(q.left(), 8);
    q.reset(32);
    assert_eq!((q.total(), q.left()), (32, 32));
}

#[test]
fn kobj_size_uses_slab_areas() {
    assert_eq!(kobj_size(40), 64);
    assert_eq!(kobj_size(100), 128);
    assert_eq!(kobj_size(500), 564);
}

#[test]
fn sem_up_down() {
    let mut s = SemObject::new(1);
    assert!(s.try_down());
    assert_eq!(s.counter, 0);
    // no units left: the caller waits
    assert!(!s.try_down());
    assert_eq!(s.waiters, 1);
    // an up notifies the waiter
    assert!(s.up());
    s.woken();
    assert!(s.try_down());
    assert_eq!(s, SemObject { counter: 0, waiters: 0 });
    assert!(!s.revoke());
}

#[test]
fn mgate_derive_checks_region() {
    let m = MGateObject::new(GlobAddr { tile: 2, offset: 0x1000 }, 0x4000, PERM_RWX, false);
    let d = m.derive(0x1000, 0x2000, PERM_R | PERM_W).unwrap();
    assert_eq!(d.addr, GlobAddr { tile: 2, offset: 0x2000 });
    assert_eq!(d.size, 0x2000);
    assert_eq!(d.perms, PERM_R | PERM_W);
    assert!(d.derived);
    // the permissions of both
    let r = MGateObject::new(GlobAddr { tile: 2, offset: 0 }, 0x1000, PERM_R, false);
    assert_eq!(r.derive(0, 0x1000, PERM_RWX).unwrap().perms, PERM_R);
    assert_eq!(m.derive(0x3000, 0x1001, PERM_R), Err(Code::InvArgs));
    assert_eq!(m.derive(0, 0, PERM_R), Err(Code::InvArgs));
    assert_eq!(m.derive(u64::MAX, 2, PERM_R), Err(Code::InvArgs));
}

#[test]
fn mgate_exclusiveness() {
    let mut m = MGateObject::new(GlobAddr { tile: 2, offset: 0 }, 0x1000, PERM_RWX, false);
    assert_eq!(m.exclusive_tile(), None);
    assert_eq!(m.make_exclusive(5), Ok(()));
    assert_eq!(m.make_exclusive(5), Ok(()));
    assert_eq!(m.make_exclusive(6), Err(Code::Exists));
    m.inval_exclusive();
    assert_eq!(m.make_exclusive(6), Ok(()));
    assert_eq!(m.exclusive_tile(), Some(6));
}

#[test]
fn rgate_sizes_and_activation() {
    let mut g = RGateObject::new(12, 8, false);
    assert_eq!(g.size(), 4096);
    assert_eq!(g.msg_size(), 256);
    assert!(!g.activated());
    assert!(!g.activate(3, 17, 0x4000));
    assert!(g.activated());
    assert_eq!(g.location().map(|l| (l.tile, l.ep)), Some((3, 17)));
    assert!(!g.deactivate());
    assert!(!g.activated());
    assert_eq!(g.location(), None);
    let mut serial = RGateObject::new(8, 8, true);
    assert!(serial.activate(0, 9, 1));
}

#[test]
fn ep_deconfigure() {
    let mut ep = EPObject::new(EPCategory::Custom, Some(4), 16, 2, 1);
    assert_eq!(ep.deconfigure(InvalidateType::Default), None);
    ep.set_gate(GateKind::Mem);
    assert!(ep.is_configured());
    // memory endpoints are left alone without invalidation
    assert_eq!(
        ep.deconfigure(InvalidateType::Nothing),
        Some(Deconfigure { gate: GateKind::Mem, invalidate: false, force: false })
    );
    assert!(!ep.is_configured());
    ep.set_gate(GateKind::Recv);
    assert!(ep.is_rgate());
    assert_eq!(
        ep.deconfigure(InvalidateType::Force),
        Some(Deconfigure { gate: GateKind::Recv, invalidate: true, force: true })
    );
    assert_eq!(ep.eps_on_drop(), Some(3));
    assert_eq!(EPObject::new(EPCategory::Std, None, 0, 0, 1).eps_on_drop(), None);
}

#[test]
fn sessions_and_services() {
    let s = SessObject { creator: 1, ident: 77, auto_close: true };
    assert!(s.sends_close(Some(3), 4));
    assert!(!s.sends_close(Some(3), 3));
    assert!(!s.sends_close(None, 4));
    let srv = ServObject { serv: 9, owner: true, creator: 0 };
    assert!(srv.aborts());
    let d = srv.derive(5);
    assert_eq!(d, ServObject { serv: 9, owner: false, creator: 5 });
    assert!(!d.aborts());
    let mut m = MapObject::new(GlobAddr { tile: 1, offset: 0 }, 3);
    assert!(!m.mapped());
    m.set_mapped(GlobAddr { tile: 1, offset: 0x1000 }, 7);
    assert!(m.mapped());
    assert_eq!(m.flags(), 7);
}

#[test]
fn ep_allocator_finds_first_fit() {
    let mut e = EpAllocator::new(32);
    assert_eq!(e.size(), 32);
    assert!(e.is_set(0));
    assert!(!e.is_set(1));
    assert!(e.is_set(4));
    assert!(e.is_set(7));
    assert_eq!(e.first_clear(), 1);
    // the search starts at the first user endpoint
    assert_eq!(e.find_eps(3), Ok(8));
    e.alloc_eps(8, 3);
    assert_eq!(e.find_eps(2), Ok(11));
    e.alloc_eps(12, 1);
    // 11 alone is too small for two
    assert_eq!(e.find_eps(2), Ok(13));
    assert!(!e.eps_free(10, 2));
    assert!(e.eps_free(13, 19));
    assert_eq!(e.find_eps(20), Err(Code::NoSpace));
    // any count answers, however large
    assert_eq!(e.find_eps(0x1_0000), Err(Code::NoSpace));
    assert_eq!(e.find_eps(usize::MAX), Err(Code::NoSpace));
    e.free_eps(8, 3);
    assert_eq!(e.find_eps(3), Ok(8));
}

#[test]
fn eps_region_rounds_to_power_of_two() {
    assert_eq!(eps_region_size(8), Ok((256, 256)));
    assert_eq!(eps_region_size(9), Ok((288, 512)));
    assert_eq!(eps_region_size(7), Err(Code::InvArgs));
    assert_eq!(eps_region_size(0xFFFF), Err(Code::InvArgs));
    assert_eq!(first_clear_bit(&vec![true, true, false]), 2);
    assert_eq!(first_clear_bit(&vec![true]), 1);
}

#[test]
fn semaphore_down_steps() {
    let mut sem = Some(SemObject::new(1));
    assert_eq!(sem_down_step(&mut sem, false), Ok(DownStep::Acquired));
    assert_eq!(sem, Some(SemObject { counter: 0, waiters: 0 }));
    // nothing left: wait
    assert_eq!(sem_down_step(&mut sem, false), Ok(DownStep::Wait));
    assert_eq!(sem.unwrap().waiters, 1);
    // an up wakes the waiter, which then takes the unit
    assert!(sem.as_mut().unwrap().up());
    assert_eq!(sem_down_step(&mut sem, true), Ok(DownStep::Acquired));
    assert_eq!(sem, Some(SemObject { counter: 0, waiters: 0 }));
    // a destroyed semaphore
    let mut gone: Option<SemObject> = None;
    assert_eq!(sem_down_step(&mut gone, true), Err(Code::ObjectGone));
}

#[test]
fn deconfiguring_unbinds_the_gate() {
    let mut ep = EPObject::new(EPCategory::Custom, Some(1), 9, 0, 2);
    let mut gate_ep = Some(5u64);
    assert_eq!(ep.deconfigure_unbind(InvalidateType::Default, &mut gate_ep), None);
    assert_eq!(gate_ep, Some(5));
    ep.set_gate(GateKind::Mem);
    let d = ep.deconfigure_unbind(InvalidateType::Nothing, &mut gate_ep).unwrap();
    assert!(!d.invalidate);
    assert_eq!(gate_ep, None);
    assert!(!ep.is_configured());
}
