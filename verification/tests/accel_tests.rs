use m3kern::accel::{
    accel_buf_addr, accel_inout_size, accel_input_addr, accel_key_addr, accel_output_addr,
    reg_index, request_ep, running_id, AESAcc, AESReg, AccelAct, AccelMux, Executor, MuxState,
    RegWrite, Sidecall, SidecallReply, ACT_EP_OFF, INOUT_SIZE,
};
use m3kern::errors::Code;

#[test]
fn aes_register_writes() {
    assert_eq!(reg_index(AESReg::Enable), 0);
    assert_eq!(reg_index(AESReg::KeyAddr), 5);
    assert_eq!(reg_index(AESReg::InputAddr), 6);
    assert_eq!(reg_index(AESReg::OutputAddr), 7);
    let (acc, init) = AESAcc::new();
    assert_eq!(init, vec![RegWrite { addr: 0xF000_3030 + 5 * 8, value: 0 }]);
    assert_eq!(acc.write_reg(AESReg::Enable, 1), RegWrite { addr: 0xF000_3030, value: 1 });
    assert_eq!(
        acc.encrypt(16, 2056),
        vec![
            RegWrite { addr: 0xF000_3060, value: 16 },
            RegWrite { addr: 0xF000_3068, value: 2056 },
            RegWrite { addr: 0xF000_3030, value: 1 },
            RegWrite { addr: 0xF000_3030, value: 0 },
        ]
    );
}

#[test]
fn request_endpoints() {
    let mut none: Option<AccelAct> = None;
    assert_eq!(request_ep(&mut none, 0, 0), Err(Code::NotFound));
    let mut act = Some(AccelAct { id: 1, ep_off: 32, used_eps: 0 });
    assert_eq!(request_ep(&mut act, 2, 2), Ok(34));
    assert_eq!(act.unwrap().used_eps, 0b11100);
    // overlapping requests are refused and change nothing
    assert_eq!(request_ep(&mut act, 4, 0), Err(Code::Exists));
    assert_eq!(request_ep(&mut act, 0, 3), Err(Code::Exists));
    assert_eq!(act.unwrap().used_eps, 0b11100);
    assert_eq!(request_ep(&mut act, 5, 26), Ok(37));
    assert_eq!(act.unwrap().used_eps, 0xFFFF_FFFC);
}

#[test]
fn executor_windows() {
    let mut e = Executor::new(32);
    assert!(e.needs_input());
    assert!(!e.set_input(100, 0));
    assert!(e.needs_input());
    assert!(e.set_input(100, 5000));
    assert_eq!(e.read_amount(), INOUT_SIZE);
    e.consume(INOUT_SIZE);
    assert_eq!(e.input.off, 100 + 2040);
    assert!(e.needs_output());
    e.set_output(0, 1000);
    assert_eq!(e.write_amount(2040), 1000);
    e.wrote(1000);
    assert!(e.needs_output());
    e.set_output(8192, 4096);
    assert_eq!(e.write_amount(1040), 1040);
    e.wrote(1040);
    assert_eq!(e.commit_pos(), 8192 + 1040);
    assert_eq!(e.read_amount(), INOUT_SIZE);
    e.consume(INOUT_SIZE);
    assert_eq!(e.read_amount(), 5000 - 2 * 2040);
    e.consume(5000 - 2 * 2040);
    assert!(e.needs_input());
}

#[test]
fn executor_encrypt_jobs() {
    assert!(Executor::encrypt_jobs(16).is_empty());
    assert!(Executor::encrypt_jobs(0).is_empty());
    assert_eq!(Executor::encrypt_jobs(17), vec![(16, 2040 + 16)]);
    let jobs = Executor::encrypt_jobs(64);
    assert_eq!(jobs, vec![(16, 2056), (32, 2072), (48, 2088)]);
    assert_eq!(Executor::encrypt_jobs(2040).len(), 127);
}

#[test]
fn accelerator_buffer_layout() {
    let mem = 0x10000;
    assert_eq!(accel_buf_addr(mem), 0x10000 - 4096);
    assert_eq!(accel_key_addr(mem), 0x10000 - 4096);
    assert_eq!(accel_input_addr(mem), 0x10000 - 4096 + 16);
    assert_eq!(accel_output_addr(mem), 0x10000 - 4096 + 16 + 2040);
    assert_eq!(accel_inout_size(), 2040);
}

#[test]
fn mux_states() {
    let mut m = AccelMux::new();
    assert_eq!(m.state, MuxState::Init);
    m.activity_init(7);
    assert_eq!(m.act, Some(AccelAct { id: 7, ep_off: ACT_EP_OFF, used_eps: 0 }));
    m.start(0x0001_0007);
    assert_eq!(m.state, MuxState::Running(0x0001_0007));
    assert_eq!(running_id(0x0001_0007), 7);
    assert_eq!(m.stop(7).map(|a| a.id), Some(7));
    assert_eq!(m.state, MuxState::Init);
    assert_eq!(m.stop(7), None);
}

#[test]
fn multiplexer_calls() {
    let mut m = AccelMux::new();
    let (info, stopped) = m.handle_sidecall(Sidecall::Info, 0x42);
    assert_eq!(info, SidecallReply { code: Code::Success, val1: 0x42, done: false });
    assert!(stopped.is_none());
    // no activity yet
    let (r, _) = m.handle_sidecall(Sidecall::ReqEp { ep: 0, replies: 0 }, 0x42);
    assert_eq!(r.code, Code::NotFound);
    m.handle_sidecall(Sidecall::ActInit(3), 0x42);
    let (r, _) = m.handle_sidecall(Sidecall::ReqEp { ep: 2, replies: 1 }, 0x42);
    assert_eq!(r, SidecallReply { code: Code::Success, val1: (ACT_EP_OFF + 2) as u64, done: false });
    assert_eq!(m.act.unwrap().used_eps, 0b1100);
    let (r, _) = m.handle_sidecall(Sidecall::ReqEp { ep: 3, replies: 0 }, 0x42);
    assert_eq!(r.code, Code::Exists);
    m.handle_sidecall(Sidecall::ActCtrl { act: 3, reg: 0x0003, start: true }, 0x42);
    assert_eq!(m.state, MuxState::Running(3));
    let (r, stopped) = m.handle_sidecall(Sidecall::ActCtrl { act: 3, reg: 0, start: false }, 0x42);
    assert_eq!(r.code, Code::Success);
    assert_eq!(stopped.map(|a| a.id), Some(3));
    assert_eq!(m.state, MuxState::Init);
    assert!(m.act.is_none());
    let (r, _) = m.handle_sidecall(Sidecall::Other, 0x42);
    assert!(!r.done);
    let (r, _) = m.handle_sidecall(Sidecall::Shutdown, 0x42);
    assert!(r.done);
}

#[test]
fn endpoint_requests_without_activity() {
    let mut none: Option<AccelAct> = None;
    // any range is answered with NotFound
    assert_eq!(request_ep(&mut none, 40, 1000), Err(Code::NotFound));
    let mut m = AccelMux::new();
    let (r, _) = m.handle_sidecall(Sidecall::ReqEp { ep: 500, replies: 9 }, 0x42);
    assert_eq!(r.code, Code::NotFound);
}
