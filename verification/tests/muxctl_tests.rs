use m3kern::errors::Code;
use m3kern::kobjs::{GlobAddr, MGateObject};
use m3kern::muxctl::{
    config_mem_check, ep_activity_id, exit_stops, mux_kind, mux_mem_check, notify_invalidation,
    pmp_reconfig_check, quotas_from_reply, reset_start, sidecall_check, translation_page, trampoline,
    MuxKind, MuxQuotas, Trampoline, INVAL_ID,
};

#[test]
fn endpoint_activity_ids() {
    assert_eq!(ep_activity_id(5, true), 5);
    assert_eq!(ep_activity_id(5, false), INVAL_ID);
    assert_eq!(INVAL_ID, 0xFFFF);
}

#[test]
fn memory_endpoints_of_exclusive_regions() {
    let mut m = MGateObject::new(GlobAddr { tile: 1, offset: 0x1000 }, 0x1000, 3, false);
    assert_eq!(config_mem_check(4, &m), Ok(()));
    m.exclusive = Some(4);
    assert_eq!(config_mem_check(4, &m), Ok(()));
    assert_eq!(config_mem_check(5, &m), Err(Code::NoPerm));
}

#[test]
fn invalidation_notifications() {
    assert!(notify_invalidation(1, true, true));
    assert!(!notify_invalidation(0, true, true));
    assert!(!notify_invalidation(1, false, true));
    assert!(!notify_invalidation(1, true, false));
}

#[test]
fn pmp_reconfiguration() {
    assert_eq!(pmp_reconfig_check(false, false, true, true), Err(Code::InvState));
    assert_eq!(pmp_reconfig_check(true, true, true, false), Err(Code::Exists));
    assert_eq!(pmp_reconfig_check(true, true, true, true), Ok(()));
    assert_eq!(pmp_reconfig_check(true, true, false, false), Ok(()));
    assert_eq!(pmp_reconfig_check(true, false, true, false), Ok(()));
}

#[test]
fn tile_resets() {
    assert_eq!(reset_start(true, true), Err(Code::InvState));
    assert_eq!(reset_start(false, false), Ok(true));
    assert_eq!(reset_start(false, true), Ok(false));
    assert_eq!(mux_mem_check(true, false), Err(Code::InvArgs));
    assert_eq!(mux_mem_check(true, true), Ok(()));
    assert_eq!(mux_mem_check(false, false), Ok(()));
}

#[test]
fn trampolines() {
    assert_eq!(trampoline(true, false, false), Trampoline::Jump64(0x306f));
    assert_eq!(trampoline(true, true, false), Trampoline::Nothing);
    assert_eq!(trampoline(false, true, false), Trampoline::Rv32(0x0001_22b7, 0x0000_8282));
    assert_eq!(trampoline(false, true, true), Trampoline::Nothing);
    assert_eq!(trampoline(false, false, false), Trampoline::Nothing);
}

#[test]
fn multiplexer_kinds() {
    assert_eq!(mux_kind(true, false), MuxKind::TileMux);
    assert_eq!(mux_kind(false, false), MuxKind::NoMux);
    assert_eq!(mux_kind(false, true), MuxKind::Ask);
}

#[test]
fn exits_of_activities_on_the_tile() {
    let acts = vec![3u64, 9];
    assert!(exit_stops(&acts, 9));
    assert!(!exit_stops(&acts, 4));
    assert!(!exit_stops(&vec![], 0));
}

#[test]
fn multiplexer_replies() {
    let q = quotas_from_reply(3, 1, 2, 0x0000_0064_0000_0032, 0x0000_0010_0000_0004);
    assert_eq!(
        q,
        MuxQuotas { time_id: 0x301, time_total: 100, time_left: 50, pts_id: 0x302, pts_total: 16, pts_left: 4 }
    );
    assert_eq!(translation_page(0x1234_5678), 0x1234_5000);
    assert_eq!(translation_page(0x1000), 0x1000);
}

#[test]
fn multiplexer_calls_allowed() {
    assert_eq!(sidecall_check(true, false, None), Err(Code::RecvGone));
    assert_eq!(sidecall_check(false, false, None), Ok(()));
    assert_eq!(sidecall_check(true, true, Some(false)), Err(Code::ObjectGone));
    assert_eq!(sidecall_check(true, true, Some(true)), Ok(()));
}
