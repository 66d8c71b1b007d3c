use m3kern::errors::Code;
use m3kern::kobjs::TileQuota;
use m3kern::tiles::{
    fetch_exit, ActSel, ActState, Activity, ActivityMng, DeriveSrv, QuotaTable, Service, StopAction,
    TileMux, TileObject, WaitTarget, FIRST_FREE_SEL, MAX_ACTS,
};

fn two_quotas() -> QuotaTable {
    let mut q = QuotaTable::new();
    assert_eq!(q.create(16), 0);
    assert_eq!(q.create(4), 1);
    q
}

#[test]
fn quota_table_ops() {
    let mut q = two_quotas();
    q.allocate(0, 5);
    assert_eq!(q.get(0), TileQuota { id: 0, total: 16, left: 11 });
    q.free(0, 5);
    assert_eq!(q.get(0).left(), 16);
    q.reset(1, 8);
    assert_eq!(q.get(1), TileQuota { id: 1, total: 8, left: 8 });
}

#[test]
fn tile_object_derive_and_revoke_restores_quota() {
    let mut q = two_quotas();
    let root = TileObject::new(1, 0, 1, 10, 11, false);
    assert!(root.has_quota(&q, 16));
    assert!(!root.has_quota(&q, 17));
    // derive with an own endpoint quota of 6
    assert_eq!(root.derive_start(&mut q, Some(6)), Ok(()));
    assert_eq!(q.get(0).left(), 10);
    let child = root.derive_finish(&mut q, Some(6), None, 12, 11);
    assert_eq!(child.ep_quota, 2);
    assert_eq!(child.exregs_quota, 1);
    assert!(child.derived());
    assert_eq!(q.get(2), TileQuota { id: 2, total: 6, left: 6 });
    // only the time quota is its own
    assert_eq!(child.quotas_to_remove(&root), (Some(12), None));
    // revoking gives the endpoints back
    child.revoke_quotas(&root, &mut q);
    assert_eq!(q.get(0).left(), 16);
    // too many endpoints
    assert_eq!(root.derive_start(&mut q, Some(17)), Err(Code::NoSpace));
    assert_eq!(root.derive_start(&mut q, None), Ok(()));
}

#[test]
fn tile_object_activities() {
    let mut t = TileObject::new(1, 0, 1, 10, 11, false);
    assert_eq!(t.activities(), 0);
    t.add_activity(5, 20);
    t.add_activity(6, 21);
    t.add_activity(5, 22);
    assert_eq!(t.activities(), 3);
    t.rem_activity(5, 20);
    assert_eq!(t.activities(), 2);
    // already gone
    t.rem_activity(5, 20);
    assert_eq!(t.activities(), 2);
    assert_eq!(t.pop_activity(), Some(ActSel { act: 5, sel: 22 }));
    assert_eq!(t.tile(), 1);
    assert_eq!(t.time_quota_id(), 10);
    assert_eq!(t.pt_quota_id(), 11);
}

#[test]
fn tile_mux_endpoints() {
    let mut m = TileMux::new(3);
    assert!(!m.is_initialized());
    assert_eq!(m.find_eps(2), Err(Code::InvState));
    assert!(!m.eps_free(8, 1));
    m.init_state(64);
    assert!(m.is_initialized());
    assert_eq!(m.ep_count(), Some(64));
    assert_eq!(m.find_eps(7), Ok(8));
    m.alloc_eps(8, 7);
    assert_eq!(m.find_eps(1), Ok(15));
    m.free_eps(8, 7);
    assert!(m.eps_free(8, 7));
    m.add_activity(1);
    m.add_activity(2);
    assert!(m.has_activities());
    m.rem_activity(1);
    m.rem_activity(2);
    assert!(!m.has_activities());
    m.deinit_state();
    assert_eq!(m.ep_count(), None);
}

#[test]
fn activity_ids_wrap_around() {
    let mut a = ActivityMng::new();
    assert_eq!(a.get_id(), Ok(0));
    a.add(0);
    assert_eq!(a.get_id(), Ok(1));
    a.add(1);
    assert_eq!(a.count, 2);
    assert!(a.is_used(1));
    // fill all ids
    for id in 2..MAX_ACTS {
        assert_eq!(a.get_id(), Ok(id));
        a.add(id);
    }
    assert_eq!(a.get_id(), Err(Code::NoSpace));
    // a freed id is found again from the start
    a.free(5);
    assert!(!a.is_used(5));
    assert_eq!(a.get_id(), Ok(5));
    a.remove_activity(5);
    assert_eq!(a.count, MAX_ACTS - 1);
}

#[test]
fn activity_life_cycle() {
    let mut a = Activity::new(4, 2, 16, false);
    assert_eq!(a.first_sel, FIRST_FREE_SEL);
    assert!(!a.is_dead());
    assert!(a.start_app());
    assert!(!a.start_app());
    assert_eq!(a.state, ActState::Running);
    assert_eq!(a.stop_app(), StopAction::Stop { was_running: true });
    assert!(a.is_dead());
    assert_eq!(a.stop_app(), StopAction::Wait);
    a.finish_stop(Code::Unspecified);
    assert_eq!(a.stop_app(), StopAction::Nothing);
    assert_eq!(a.fetch_exit_code(), Some(Code::Unspecified));
    assert_eq!(a.fetch_exit_code(), None);
    let mut b = Activity::new(5, 2, 24, false);
    assert_eq!(b.stop_app(), StopAction::Stop { was_running: false });
    b.set_first_sel(9);
    assert_eq!(b.first_sel, 9);
}

#[test]
fn activity_derivations() {
    let mut a = Activity::new(4, 2, 16, false);
    let d = DeriveSrv { src_srv: 10, dst_srv: 11, dst_sgate: 12, event: 99 };
    assert_eq!(a.start_derive(d), Ok(()));
    assert_eq!(a.start_derive(d), Err(Code::Exists));
    assert_eq!(a.finish_derive(), Some(d));
    assert_eq!(a.finish_derive(), None);
    let mut s = Service { activity: 1, cur_derive: None };
    assert_eq!(s.set_derive_act(4), Ok(()));
    assert_eq!(s.set_derive_act(5), Err(Code::Exists));
    assert_eq!(s.fetch_derive_act(), Ok(4));
    assert_eq!(s.fetch_derive_act(), Err(Code::NotFound));
}

#[test]
fn wait_for_exits() {
    let targets = vec![
        WaitTarget::Act { id: 3, exited: false },
        WaitTarget::Act { id: 1, exited: true },
        WaitTarget::Act { id: 4, exited: true },
    ];
    // activity 1 waits: itself is skipped, 4 has exited
    assert_eq!(fetch_exit(1, &targets), Ok(Some(2)));
    assert_eq!(fetch_exit(2, &targets), Ok(Some(1)));
    let bad = vec![WaitTarget::Act { id: 3, exited: false }, WaitTarget::Invalid(Code::InvCap)];
    assert_eq!(fetch_exit(1, &bad), Err(Code::InvCap));
    let none = vec![WaitTarget::Act { id: 3, exited: false }];
    assert_eq!(fetch_exit(1, &none), Ok(None));
}

#[test]
fn tile_derivation_with_the_multiplexer() {
    let mut q = two_quotas();
    let root = TileObject::new(1, 0, 1, 10, 11, false);
    assert!(TileObject::derive_asks_mux(true, Some(5), None));
    assert!(!TileObject::derive_asks_mux(true, None, None));
    assert!(!TileObject::derive_asks_mux(false, Some(5), Some(2)));
    // the multiplexer declines: the endpoints go back
    assert_eq!(root.derive_start(&mut q, Some(6)), Ok(()));
    assert_eq!(q.get(0).left(), 10);
    assert!(matches!(root.derive_complete(&mut q, Some(6), None, Some(Err(Code::NoSpace))), Err(Code::NoSpace)));
    assert_eq!(q.get(0).left(), 16);
    // without asking, the quota ids stay those of the parent
    let t = root.derive_complete(&mut q, None, None, None).ok().unwrap();
    assert_eq!((t.time_quota, t.pt_quota, t.ep_quota, t.exregs_quota), (10, 11, 0, 1));
    assert!(t.derived());
    // with the multiplexer's new ids
    assert_eq!(root.derive_start(&mut q, Some(2)), Ok(()));
    let u = root.derive_complete(&mut q, Some(2), Some(1), Some(Ok((20, 21)))).ok().unwrap();
    assert_eq!((u.time_quota, u.pt_quota, u.ep_quota, u.exregs_quota), (20, 21, 2, 3));
    assert_eq!(q.get(2), TileQuota { id: 2, total: 2, left: 2 });
}
