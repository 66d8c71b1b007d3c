//! The stream accelerator multiplexer: the AES accelerator's registers, the endpoints that an
//! accelerator activity requests, and the executor that streams a file through the
//! accelerator block by block.
use vstd::prelude::*;

use crate::errors::Code;

verus! {

/// The cycles the accelerator needs for one block.
pub const COMP_TIME: u64 = 22;

/// The address of the accelerator's first register.
pub const MMIO_ADDR: usize = 0xF000_3030;

/// The size of a register.
pub const REG_SIZE: usize = 8;

/// The size of the accelerator's buffer at the end of the tile's memory.
pub const BUF_SIZE: usize = 4096;

/// The size of the key at the start of the buffer.
pub const KEY_SIZE: usize = 16;

/// The size of an AES block.
pub const BLOCK_SIZE: usize = 16;

/// The first endpoint of an accelerator activity.
pub const ACT_EP_OFF: u16 = 32;

/// The number of endpoints an accelerator activity can request.
pub const ACT_EPS: u64 = 32;

/// The accelerator's registers.
#[derive(Clone, Copy, Debug, PartialEq, Eq, Structural)]
pub enum AESReg {
    Enable,
    KeyAddr,
    InputAddr,
    OutputAddr,
}

/// The index of a register.
pub open spec fn spec_reg_index(reg: AESReg) -> usize {
    match reg {
        AESReg::Enable => 0,
        AESReg::KeyAddr => 5,
        AESReg::InputAddr => 6,
        AESReg::OutputAddr => 7,
    }
}

/// The index of a register.
pub fn reg_index(reg: AESReg) -> (r: usize)
    ensures
        r == spec_reg_index(reg),
{
    match reg {
        AESReg::Enable => 0,
        AESReg::KeyAddr => 5,
        AESReg::InputAddr => 6,
        AESReg::OutputAddr => 7,
    }
}

/// A write of `value` to the register at `addr`.
#[derive(Clone, Copy, Debug, PartialEq, Eq, Structural)]
pub struct RegWrite {
    pub addr: usize,
    pub value: u64,
}

/// The AES accelerator.
#[derive(Clone, Copy, Debug, PartialEq, Eq, Structural)]
pub struct AESAcc;

/// The write of `value` to register `reg`.
pub open spec fn reg_write(reg: AESReg, value: u64) -> RegWrite {
    RegWrite { addr: (MMIO_ADDR + spec_reg_index(reg) * REG_SIZE) as usize, value }
}

impl AESAcc {
    /// The accelerator with the register writes that set it up: the key address is set to 0.
    pub fn new() -> (r: (AESAcc, Vec<RegWrite>))
        ensures
            r.1@ == seq![reg_write(AESReg::KeyAddr, 0)],
    {
        let acc = AESAcc;
        let mut w: Vec<RegWrite> = Vec::new();
        w.push(acc.write_reg(AESReg::KeyAddr, 0));
        assert(w@ =~= seq![reg_write(AESReg::KeyAddr, 0)]);
        (acc, w)
    }

    /// The write of `value` to register `reg`.
    pub fn write_reg(&self, reg: AESReg, value: u64) -> (r: RegWrite)
        ensures
            r == reg_write(reg, value),
    {
        RegWrite { addr: MMIO_ADDR + reg_index(reg) * REG_SIZE, value }
    }

    /// The register writes that encrypt the block at `in_off` into `out_off`: the addresses
    /// are set and the accelerator is enabled; after `COMP_TIME` cycles the caller disables it
    /// again with the last write.
    pub fn encrypt(&self, in_off: usize, out_off: usize) -> (r: Vec<RegWrite>)
        requires
            in_off <= u64::MAX,
            out_off <= u64::MAX,
        ensures
            r@ == seq![
                reg_write(AESReg::InputAddr, in_off as u64),
                reg_write(AESReg::OutputAddr, out_off as u64),
                reg_write(AESReg::Enable, 1),
                reg_write(AESReg::Enable, 0),
            ],
    {
        let mut w: Vec<RegWrite> = Vec::new();
        w.push(self.write_reg(AESReg::InputAddr, in_off as u64));
        w.push(self.write_reg(AESReg::OutputAddr, out_off as u64));
        w.push(self.write_reg(AESReg::Enable, 1));
        w.push(self.write_reg(AESReg::Enable, 0));
        assert(w@ =~= seq![
            reg_write(AESReg::InputAddr, in_off as u64),
            reg_write(AESReg::OutputAddr, out_off as u64),
            reg_write(AESReg::Enable, 1),
            reg_write(AESReg::Enable, 0),
        ]);
        w
    }
}

/// The endpoints an accelerator activity has requested, as a bit mask over its endpoints.
#[derive(Clone, Copy, Debug, PartialEq, Eq, Structural)]
pub struct AccelAct {
    pub id: u16,
    pub ep_off: u16,
    pub used_eps: u32,
}

/// Are the endpoints `[from, to)` all free in `used`?
pub open spec fn eps_clear(used: u32, from: int, to: int) -> bool {
    forall|i: int| from <= i < to ==> (#[trigger] (used & (1u32 << (i as u32)))) == 0
}

/// Requests endpoint `ep_id` with `replies` reply slots behind it for activity `act`, if there
/// is one: marks them used and returns the first one's global id.
///
/// Fails with `NotFound` without activity and with `Exists` if one of them is in use.
pub fn request_ep(act: &mut Option<AccelAct>, ep_id: u16, replies: u64) -> (r: Result<u16, Code>)
    requires
        *old(act) matches Some(a) ==> ep_id + 1 + replies <= ACT_EPS && a.ep_off + ep_id <= u16::MAX,
    ensures
        match *old(act) {
            None => r == Err::<u16, Code>(Code::NotFound) && *final(act) == *old(act),
            Some(a) => if !eps_clear(a.used_eps, ep_id as int, ep_id + 1 + replies) {
                r == Err::<u16, Code>(Code::Exists) && *final(act) == *old(act)
            } else {
                &&& r == Ok::<u16, Code>((a.ep_off + ep_id) as u16)
                &&& *final(act) matches Some(b)
                &&& b.id == a.id && b.ep_off == a.ep_off
                &&& forall|i: u32|
                    i < 32 ==> ((b.used_eps & (1u32 << i)) != 0 <==> ((a.used_eps & (1u32 << i))
                        != 0 || (ep_id <= i < ep_id + 1 + replies)))
            },
        },
{
    let mut a = match *act {
        None => {
            return Err(Code::NotFound);
        },
        Some(a) => a,
    };
    let end = ep_id as u32 + 1 + replies as u32;
    let mut i: u32 = ep_id as u32;
    while i < end
        invariant
            ep_id <= i <= end,
            end == ep_id + 1 + replies,
            end <= 32,
            *old(act) == Some(a),
            *act == *old(act),
            eps_clear(a.used_eps, ep_id as int, i as int),
        decreases end - i,
    {
        if (a.used_eps & (1u32 << i)) != 0 {
            proof {
                let k = i as int;
                assert((k as u32) == i);
                assert((a.used_eps & (1u32 << (k as u32))) != 0);
                assert(!eps_clear(a.used_eps, ep_id as int, end as int));
            }
            return Err(Code::Exists);
        }
        i += 1;
    }
    let ghost orig = a.used_eps;
    let ghost a0 = a;
    let mut i: u32 = ep_id as u32;
    while i < end
        invariant
            ep_id <= i <= end,
            end == ep_id + 1 + replies,
            end <= 32,
            forall|j: u32|
                j < 32 ==> ((a.used_eps & (1u32 << j)) != 0 <==> ((orig & (1u32 << j)) != 0 || (
                ep_id <= j < i))),
            *old(act) == Some(a0),
            orig == a0.used_eps,
            a.id == a0.id,
            a.ep_off == a0.ep_off,
        decreases end - i,
    {
        let before = a.used_eps;
        a.used_eps = a.used_eps | (1u32 << i);
        proof {
            assert forall|j: u32| j < 32 implies ((a.used_eps & (1u32 << j)) != 0 <==> ((before & (
            1u32 << j)) != 0 || j == i)) by {
                let u = a.used_eps;
                assert(i < 32);
                assert(u == before | (1u32 << i));
                assert(((before | (1u32 << i)) & (1u32 << j)) != 0 <==> ((before & (1u32 << j))
                    != 0 || j == i)) by (bit_vector)
                    requires
                        i < 32,
                        j < 32,
                ;
            }
        }
        i += 1;
    }
    *act = Some(a);
    Ok(a.ep_off + ep_id)
}

/// Law: endpoints that `request_ep` granted are not granted again: after a successful request
/// of the `n` endpoints from `ep`, every request overlapping them finds one in use.
pub proof fn lemma_request_ep_exclusive(before: u32, after: u32, ep: u32, n: u32, ep2: u32, n2: u32)
    requires
        ep + n <= 32,
        ep2 + n2 <= 32,
        n >= 1,
        n2 >= 1,
        forall|i: u32|
            i < 32 ==> ((#[trigger] (after & (1u32 << i)) != 0) <==> ((before & (1u32 << i)) != 0
                || (ep <= i < ep + n))),
        ep2 < ep + n,
        ep < ep2 + n2,
    ensures
        !eps_clear(after, ep2 as int, ep2 + n2),
{
    if ep < ep2 {
        assert(ep2 < 32);
        assert((after & (1u32 << ep2)) != 0);
        let k = ep2 as int;
        assert((k as u32) == ep2);
        assert((after & (1u32 << (k as u32))) != 0);
    } else {
        assert(ep < 32);
        assert((after & (1u32 << ep)) != 0);
        let k = ep as int;
        assert((k as u32) == ep);
        assert((after & (1u32 << (k as u32))) != 0);
    }
}

/// The part of a file that the executor may access next: from `off` to `end`.
#[derive(Clone, Copy, Debug, PartialEq, Eq, Structural)]
pub struct FileView {
    pub off: usize,
    pub end: usize,
}

/// Streams a file through the accelerator: it reads a block of input, encrypts it and writes
/// it to the output, requesting new windows of input and output from the file servers when
/// the current ones are used up.
#[derive(Clone, Copy, Debug, PartialEq, Eq, Structural)]
pub struct Executor {
    pub ep_off: u16,
    pub input: FileView,
    pub output: FileView,
}

/// The size of the input and of the output area in the accelerator's buffer.
pub const INOUT_SIZE: usize = 2040;

impl Executor {
    pub open spec fn wf(&self) -> bool {
        self.input.off <= self.input.end && self.output.off <= self.output.end
    }

    pub fn new(ep_off: u16) -> (r: Self)
        ensures
            r == (Executor {
                ep_off,
                input: FileView { off: 0, end: 0 },
                output: FileView { off: 0, end: 0 },
            }),
            r.wf(),
    {
        Executor { ep_off, input: FileView { off: 0, end: 0 }, output: FileView { off: 0, end: 0 } }
    }

    /// Does a step have to request new input first?
    pub fn needs_input(&self) -> (r: bool)
        ensures
            r == (self.input.off == self.input.end),
    {
        self.input.off == self.input.end
    }

    /// Takes the server's answer to an input request: `len` bytes at `offset`. Returns whether
    /// there is input; if not, the file is done and the caller commits `commit_pos`.
    pub fn set_input(&mut self, offset: usize, len: usize) -> (r: bool)
        requires
            offset + len <= usize::MAX,
        ensures
            r == (len > 0),
            r ==> *final(self) == (Executor { input: FileView { off: offset, end: (offset + len) as usize }, ..*old(self) }),
            !r ==> *final(self) == *old(self),
    {
        if len == 0 {
            return false;
        }
        self.input = FileView { off: offset, end: offset + len };
        true
    }

    /// The number of bytes to read next: what is left of the input, at most the input area.
    pub fn read_amount(&self) -> (r: usize)
        requires
            self.wf(),
        ensures
            r == (if self.input.end - self.input.off < INOUT_SIZE {
                self.input.end - self.input.off
            } else {
                INOUT_SIZE as int
            }),
    {
        let left = self.input.end - self.input.off;
        if left < INOUT_SIZE {
            left
        } else {
            INOUT_SIZE
        }
    }

    /// Marks `amount` bytes of input as read.
    pub fn consume(&mut self, amount: usize)
        requires
            old(self).input.off + amount <= old(self).input.end,
        ensures
            *final(self) == (Executor {
                input: FileView { off: (old(self).input.off + amount) as usize, ..old(self).input },
                ..*old(self)
            }),
    {
        self.input.off = self.input.off + amount;
    }

    /// The blocks to encrypt after reading `amount` bytes: the input offset and output offset
    /// of each, for every block from the second on.
    pub fn encrypt_jobs(amount: usize) -> (r: Vec<(usize, usize)>)
        requires
            amount <= INOUT_SIZE,
        ensures
            r@.len() == (if amount > BLOCK_SIZE {
                (amount - 1) / BLOCK_SIZE as int
            } else {
                0
            }),
            forall|k: int|
                0 <= k < r@.len() ==> #[trigger] r@[k] == ((BLOCK_SIZE * (k + 1)) as usize, ((
                BUF_SIZE - BLOCK_SIZE) / 2 + BLOCK_SIZE * (k + 1)) as usize),
    {
        let mut jobs: Vec<(usize, usize)> = Vec::new();
        let mut pos: usize = BLOCK_SIZE;
        while pos < amount
            invariant
                amount <= INOUT_SIZE,
                pos == BLOCK_SIZE * (jobs@.len() + 1),
                pos <= amount + BLOCK_SIZE,
                forall|k: int|
                    0 <= k < jobs@.len() ==> #[trigger] jobs@[k] == ((BLOCK_SIZE * (k + 1)) as usize,
                    ((BUF_SIZE - BLOCK_SIZE) / 2 + BLOCK_SIZE * (k + 1)) as usize),
                jobs@.len() * BLOCK_SIZE < amount || jobs@.len() == 0,
            decreases amount + BLOCK_SIZE - pos,
        {
            jobs.push((pos, (BUF_SIZE - BLOCK_SIZE) / 2 + pos));
            pos += BLOCK_SIZE;
        }
        proof {
            if amount > BLOCK_SIZE {
                assert(jobs@.len() == (amount - 1) / 16) by (nonlinear_arith)
                    requires
                        pos == 16 * (jobs@.len() + 1),
                        pos >= amount,
                        jobs@.len() * 16 < amount,
                        amount > 16,
                ;
            } else {
                assert(jobs@.len() == 0);
            }
        }
        jobs
    }

    /// Does the output window have to be renewed before writing?
    pub fn needs_output(&self) -> (r: bool)
        ensures
            r == (self.output.off == self.output.end),
    {
        self.output.off == self.output.end
    }

    /// Takes the server's answer to an output request: `len` bytes at `offset`.
    pub fn set_output(&mut self, offset: usize, len: usize)
        requires
            offset + len <= usize::MAX,
        ensures
            *final(self) == (Executor { output: FileView { off: offset, end: (offset + len) as usize }, ..*old(self) }),
    {
        self.output = FileView { off: offset, end: offset + len };
    }

    /// The number of bytes to write next of `size` remaining ones: at most what is left of the
    /// output window.
    pub fn write_amount(&self, size: usize) -> (r: usize)
        requires
            self.wf(),
        ensures
            r == (if self.output.end - self.output.off < size {
                self.output.end - self.output.off
            } else {
                size as int
            }),
    {
        let left = self.output.end - self.output.off;
        if left < size {
            left
        } else {
            size
        }
    }

    /// Marks `amount` bytes of output as written.
    pub fn wrote(&mut self, amount: usize)
        requires
            old(self).output.off + amount <= old(self).output.end,
        ensures
            *final(self) == (Executor {
                output: FileView { off: (old(self).output.off + amount) as usize, ..old(self).output },
                ..*old(self)
            }),
    {
        self.output.off = self.output.off + amount;
    }

    /// The output position to commit when the input is done.
    pub fn commit_pos(&self) -> (r: usize)
        ensures
            r == self.output.off,
    {
        self.output.off
    }
}

/// Where the accelerator's buffer starts in a tile memory of `mem_size` bytes: at its end.
pub fn accel_buf_addr(mem_size: usize) -> (r: usize)
    requires
        mem_size >= BUF_SIZE,
    ensures
        r == mem_size - BUF_SIZE,
{
    mem_size - BUF_SIZE
}

/// Where the key lies: at the start of the buffer.
pub fn accel_key_addr(mem_size: usize) -> (r: usize)
    requires
        mem_size >= BUF_SIZE,
    ensures
        r == mem_size - BUF_SIZE,
{
    accel_buf_addr(mem_size)
}

/// Where the input lies: behind the key.
pub fn accel_input_addr(mem_size: usize) -> (r: usize)
    requires
        mem_size >= BUF_SIZE,
    ensures
        r == mem_size - BUF_SIZE + KEY_SIZE,
{
    accel_buf_addr(mem_size) + KEY_SIZE
}

/// Where the output lies: behind the input.
pub fn accel_output_addr(mem_size: usize) -> (r: usize)
    requires
        mem_size >= BUF_SIZE,
    ensures
        r == mem_size - BUF_SIZE + KEY_SIZE + INOUT_SIZE,
{
    accel_buf_addr(mem_size) + KEY_SIZE + accel_inout_size()
}

/// The size of the input and of the output area: half of what the key leaves of the buffer.
pub fn accel_inout_size() -> (r: usize)
    ensures
        r == (BUF_SIZE - KEY_SIZE) / 2,
        r == INOUT_SIZE,
{
    (BUF_SIZE - KEY_SIZE) / 2
}

/// The state of the multiplexer: no activity running, or the activity register of the
/// running one.
#[derive(Clone, Copy, Debug, PartialEq, Eq, Structural)]
pub enum MuxState {
    Init,
    Running(u64),
}

/// The id of the activity in an activity register.
pub fn running_id(act_reg: u64) -> (r: u16)
    ensures
        r == act_reg % 0x1_0000,
{
    assert((act_reg & 0xFFFF) == act_reg % 0x1_0000) by (bit_vector);
    (act_reg & 0xFFFF) as u16
}

/// The multiplexer's state: the activity, if one was created, and whether it runs.
pub struct AccelMux {
    pub act: Option<AccelAct>,
    pub state: MuxState,
}

impl AccelMux {
    pub fn new() -> (r: Self)
        ensures
            r.act is None,
            r.state == MuxState::Init,
    {
        AccelMux { act: None, state: MuxState::Init }
    }

    /// Creates the activity `id` with the endpoints from `ACT_EP_OFF` on, none in use.
    pub fn activity_init(&mut self, id: u16)
        ensures
            final(self).act == Some(AccelAct { id, ep_off: ACT_EP_OFF, used_eps: 0 }),
            final(self).state == old(self).state,
    {
        self.act = Some(AccelAct { id, ep_off: ACT_EP_OFF, used_eps: 0 });
    }

    /// Starts the activity with activity register `act_reg`.
    pub fn start(&mut self, act_reg: u64)
        ensures
            final(self).act == old(self).act,
            final(self).state == MuxState::Running(act_reg),
    {
        self.state = MuxState::Running(act_reg);
    }

    /// Stops the activity `id`, if there is one: returns it (the caller reports its exit) and
    /// goes back to the initial state.
    pub fn stop(&mut self, id: u16) -> (r: Option<AccelAct>)
        requires
            old(self).act matches Some(a) ==> a.id == id,
        ensures
            r == old(self).act,
            final(self).act is None,
            old(self).act is Some ==> final(self).state == MuxState::Init,
            old(self).act is None ==> final(self).state == old(self).state,
    {
        match self.act.take() {
            Some(a) => {
                self.state = MuxState::Init;
                Some(a)
            },
            None => None,
        }
    }
}

/// A call of the kernel to the multiplexer.
#[derive(Clone, Copy, Debug, PartialEq, Eq, Structural)]
pub enum Sidecall {
    /// What kind of multiplexer is this?
    Info,
    /// Create the activity.
    ActInit(u16),
    /// Start (with its activity register) or stop the activity.
    ActCtrl { act: u16, reg: u64, start: bool },
    /// Request endpoints for the activity.
    ReqEp { ep: u16, replies: u64 },
    /// Shut down.
    Shutdown,
    /// Anything else, which is ignored.
    Other,
}

/// The answer to a call: the result code, the value returned, and whether the multiplexer
/// ends.
#[derive(Clone, Copy, Debug, PartialEq, Eq, Structural)]
pub struct SidecallReply {
    pub code: Code,
    pub val1: u64,
    pub done: bool,
}

impl AccelMux {
    /// Handles a call of the kernel: `accel_type` is the value that identifies this kind of
    /// multiplexer. Returns the answer and the activity that was stopped, whose exit the caller
    /// reports to the kernel.
    pub fn handle_sidecall(&mut self, call: Sidecall, accel_type: u64) -> (r: (SidecallReply, Option<AccelAct>))
        requires
            match call {
                Sidecall::ActCtrl { act, reg, start } => !start ==> (old(self).act matches Some(a)
                    ==> a.id == act),
                Sidecall::ReqEp { ep, replies } => old(self).act matches Some(a) ==> ep + 1 + replies
                    <= ACT_EPS && a.ep_off + ep <= u16::MAX,
                _ => true,
            },
        ensures
            match call {
                Sidecall::Info => r == ((SidecallReply { code: Code::Success, val1: accel_type, done: false }), None::<AccelAct>)
                    && final(self).act == old(self).act && final(self).state == old(self).state,
                Sidecall::ActInit(id) => r == ((SidecallReply { code: Code::Success, val1: 0, done: false }), None::<AccelAct>)
                    && final(self).act == Some(AccelAct { id, ep_off: ACT_EP_OFF, used_eps: 0 })
                    && final(self).state == old(self).state,
                Sidecall::ActCtrl { act, reg, start } => if start {
                    r == ((SidecallReply { code: Code::Success, val1: 0, done: false }), None::<AccelAct>)
                        && final(self).act == old(self).act && final(self).state == MuxState::Running(reg)
                } else {
                    &&& r.0 == (SidecallReply { code: Code::Success, val1: 0, done: false })
                    &&& r.1 == old(self).act
                    &&& final(self).act is None
                    &&& (old(self).act is Some ==> final(self).state == MuxState::Init)
                    &&& (old(self).act is None ==> final(self).state == old(self).state)
                },
                Sidecall::ReqEp { ep, replies } => {
                    &&& r.1 is None
                    &&& !r.0.done
                    &&& final(self).state == old(self).state
                    &&& match old(self).act {
                        None => r.0.code == Code::NotFound && r.0.val1 == 0 && final(self).act == old(self).act,
                        Some(a) => if !eps_clear(a.used_eps, ep as int, ep + 1 + replies) {
                            r.0.code == Code::Exists && r.0.val1 == 0 && final(self).act == old(self).act
                        } else {
                            &&& r.0.code == Code::Success
                            &&& r.0.val1 == a.ep_off + ep
                            &&& final(self).act matches Some(b)
                            &&& b.id == a.id && b.ep_off == a.ep_off
                            &&& forall|i: u32|
                                i < 32 ==> ((b.used_eps & (1u32 << i)) != 0 <==> ((a.used_eps & (1u32 << i))
                                    != 0 || (ep <= i < ep + 1 + replies)))
                        },
                    }
                },
                Sidecall::Shutdown => r == ((SidecallReply { code: Code::Success, val1: 0, done: true }), None::<AccelAct>)
                    && final(self).act == old(self).act && final(self).state == old(self).state,
                Sidecall::Other => r == ((SidecallReply { code: Code::Success, val1: 0, done: false }), None::<AccelAct>)
                    && final(self).act == old(self).act && final(self).state == old(self).state,
            },
    {
        match call {
            Sidecall::Info => (SidecallReply { code: Code::Success, val1: accel_type, done: false }, None),
            Sidecall::ActInit(id) => {
                self.activity_init(id);
                (SidecallReply { code: Code::Success, val1: 0, done: false }, None)
            },
            Sidecall::ActCtrl { act, reg, start } => {
                if start {
                    self.start(reg);
                    (SidecallReply { code: Code::Success, val1: 0, done: false }, None)
                } else {
                    let stopped = self.stop(act);
                    (SidecallReply { code: Code::Success, val1: 0, done: false }, stopped)
                }
            },
            Sidecall::ReqEp { ep, replies } => {
                match request_ep(&mut self.act, ep, replies) {
                    Ok(id) => (SidecallReply { code: Code::Success, val1: id as u64, done: false }, None),
                    Err(e) => (SidecallReply { code: e, val1: 0, done: false }, None),
                }
            },
            Sidecall::Shutdown => (SidecallReply { code: Code::Success, val1: 0, done: true }, None),
            Sidecall::Other => (SidecallReply { code: Code::Success, val1: 0, done: false }, None),
        }
    }
}

} // verus!
