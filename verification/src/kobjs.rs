//! Kernel objects: the state behind capabilities.
use vstd::prelude::*;
use vstd::arithmetic::power2::pow2;

use crate::errors::Code;
use crate::slab::{spec_area_size, area_size, HEADER_SIZE, FALLBACK_OVERHEAD};

verus! {

/// Read, write and execute permissions as bits.
pub const PERM_R: u32 = 1;
pub const PERM_W: u32 = 2;
pub const PERM_X: u32 = 4;
pub const PERM_RWX: u32 = 7;

/// Bytes that a capability itself is accounted with.
pub const CAP_SIZE: usize = 128;

/// The size that the kernel accounts for an object of `bytes` bytes: the slab area it occupies
/// plus the allocator's header, or an estimate for heap allocations.
pub open spec fn spec_kobj_size(bytes: usize) -> int {
    spec_area_size(bytes) + HEADER_SIZE
}

/// The accounted size of a kernel object that occupies `bytes` bytes.
pub fn kobj_size(bytes: usize) -> (r: usize)
    requires
        bytes + FALLBACK_OVERHEAD <= usize::MAX,
    ensures
        r == spec_kobj_size(bytes),
        r >= bytes,
{
    area_size(bytes) + HEADER_SIZE
}

/// The kinds of kernel objects.
#[derive(Clone, Copy, Debug, PartialEq, Eq, Structural)]
pub enum KObjKind {
    SGate,
    RGate,
    MGate,
    Mapping,
    Serv,
    Sess,
    Activity,
    Sem,
    KMem,
    Tile,
    EP,
}

/// A kernel-memory quota: the memory that the capabilities of activities may occupy.
#[derive(Clone, Copy, Debug, PartialEq, Eq, Structural)]
pub struct KMemObject {
    pub id: u64,
    pub quota: usize,
    pub left: usize,
}

impl KMemObject {
    pub open spec fn wf(&self) -> bool {
        self.left <= self.quota
    }

    /// A fresh quota of `quota` bytes, all of it left.
    pub fn new(id: u64, quota: usize) -> (r: Self)
        ensures
            r.wf(),
            r.id == id,
            r.quota == quota,
            r.left == quota,
    {
        KMemObject { id, quota, left: quota }
    }

    pub fn id(&self) -> (r: u64)
        ensures
            r == self.id,
    {
        self.id
    }

    pub fn quota(&self) -> (r: usize)
        ensures
            r == self.quota,
    {
        self.quota
    }

    pub fn left(&self) -> (r: usize)
        ensures
            r == self.left,
    {
        self.left
    }

    /// Are at least `size` bytes left?
    pub fn has_quota(&self, size: usize) -> (r: bool)
        ensures
            r == (self.left >= size),
    {
        self.left >= size
    }

    /// Takes `size` bytes from the quota if that many are left.
    pub fn allocate(&mut self, size: usize) -> (r: bool)
        ensures
            r == (old(self).left >= size),
            r ==> final(self).left == old(self).left - size,
            !r ==> final(self).left == old(self).left,
            final(self).quota == old(self).quota,
            final(self).id == old(self).id,
            old(self).wf() ==> final(self).wf(),
    {
        if self.has_quota(size) {
            self.left = self.left - size;
            true
        } else {
            false
        }
    }

    /// Gives `size` bytes back to the quota.
    pub fn free(&mut self, size: usize)
        requires
            old(self).left + size <= old(self).quota,
        ensures
            final(self).left == old(self).left + size,
            final(self).quota == old(self).quota,
            final(self).id == old(self).id,
            final(self).wf(),
    {
        self.left = self.left + size;
    }

    /// Grants the whole quota of this (derived, unused) object back to `parent`.
    pub fn revoke(&self, parent: &mut KMemObject)
        requires
            self.left == self.quota,
            old(parent).left + self.left <= old(parent).quota,
        ensures
            final(parent).left == old(parent).left + self.quota,
            final(parent).quota == old(parent).quota,
            final(parent).id == old(parent).id,
    {
        parent.free(self.left);
    }
}

/// Law: allocating `size` bytes and freeing them again restores the quota.
pub proof fn lemma_kmem_alloc_free(k: KMemObject, size: usize)
    requires
        k.wf(),
        k.left >= size,
    ensures
        ({
            let a = KMemObject { left: (k.left - size) as usize, ..k };
            &&& a.wf()
            &&& a.left + size <= a.quota
            &&& KMemObject { left: (a.left + size) as usize, ..a } == k
        }),
{
}

/// A quota of endpoints or exclusive regions of a tile, shared by the tile objects derived
/// without an own quota.
#[derive(Clone, Copy, Debug, PartialEq, Eq, Structural)]
pub struct TileQuota {
    pub id: u64,
    pub total: usize,
    pub left: usize,
}

impl TileQuota {
    pub open spec fn wf(&self) -> bool {
        self.left <= self.total
    }

    pub fn new(id: u64, num: usize) -> (r: Self)
        ensures
            r.wf(),
            r.id == id,
            r.total == num,
            r.left == num,
    {
        TileQuota { id, total: num, left: num }
    }

    pub fn id(&self) -> (r: u64)
        ensures
            r == self.id,
    {
        self.id
    }

    pub fn total(&self) -> (r: usize)
        ensures
            r == self.total,
    {
        self.total
    }

    pub fn left(&self) -> (r: usize)
        ensures
            r == self.left,
    {
        self.left
    }

    /// Takes `num` units from the quota.
    pub fn allocate(&mut self, num: usize)
        requires
            old(self).left >= num,
        ensures
            final(self).left == old(self).left - num,
            final(self).total == old(self).total,
            final(self).id == old(self).id,
            old(self).wf() ==> final(self).wf(),
    {
        self.left = self.left - num;
    }

    /// Gives `num` units back to the quota.
    pub fn free(&mut self, num: usize)
        requires
            old(self).left + num <= old(self).total,
        ensures
            final(self).left == old(self).left + num,
            final(self).total == old(self).total,
            final(self).id == old(self).id,
            final(self).wf(),
    {
        self.left = self.left + num;
    }

    /// Resets the quota to `total` units, all of them left.
    pub fn reset(&mut self, total: usize)
        ensures
            final(self).total == total,
            final(self).left == total,
            final(self).id == old(self).id,
            final(self).wf(),
    {
        self.total = total;
        self.left = total;
    }
}

/// A semaphore: a counter and the number of threads waiting for it.
#[derive(Clone, Copy, Debug, PartialEq, Eq, Structural)]
pub struct SemObject {
    pub counter: u32,
    pub waiters: u32,
}

impl SemObject {
    pub fn new(counter: u32) -> (r: Self)
        ensures
            r.counter == counter,
            r.waiters == 0,
    {
        SemObject { counter, waiters: 0 }
    }

    /// One attempt of a down operation: takes one unit if available (`true`); otherwise the
    /// caller is registered as waiter and has to wait for a notification (`false`).
    pub fn try_down(&mut self) -> (r: bool)
        requires
            old(self).counter == 0 ==> old(self).waiters < u32::MAX,
        ensures
            r == (old(self).counter != 0),
            r ==> final(self).counter == old(self).counter - 1 && final(self).waiters == old(
                self).waiters,
            !r ==> final(self).counter == 0 && final(self).waiters == old(self).waiters + 1,
    {
        if self.counter != 0 {
            self.counter = self.counter - 1;
            true
        } else {
            self.waiters = self.waiters + 1;
            false
        }
    }

    /// A waiter woke up again (and retries its down operation).
    pub fn woken(&mut self)
        requires
            old(self).waiters > 0,
        ensures
            final(self).waiters == old(self).waiters - 1,
            final(self).counter == old(self).counter,
    {
        self.waiters = self.waiters - 1;
    }

    /// The up operation; returns whether waiters have to be notified.
    pub fn up(&mut self) -> (r: bool)
        requires
            old(self).counter < u32::MAX,
        ensures
            r == (old(self).waiters > 0),
            final(self).counter == old(self).counter + 1,
            final(self).waiters == old(self).waiters,
    {
        let notify = self.waiters > 0;
        self.counter = self.counter + 1;
        notify
    }

    /// Revocation of the semaphore; returns whether waiters have to be notified.
    pub fn revoke(&self) -> (r: bool)
        ensures
            r == (self.waiters > 0),
    {
        self.waiters > 0
    }
}

/// What a down operation does next.
#[derive(Clone, Copy, Debug, PartialEq, Eq, Structural)]
pub enum DownStep {
    /// It took a unit and is done.
    Acquired,
    /// It registered as waiter; the caller waits for a notification and steps again.
    Wait,
}

/// One step of a down operation on the semaphore `sem`, which is `None` once it has been
/// destroyed; `woken` says that the caller was waiting and has been woken up (and stops being
/// a waiter). Takes a unit if there is one, and otherwise registers as waiter.
///
/// Fails with `ObjectGone` if the semaphore has been destroyed.
pub fn sem_down_step(sem: &mut Option<SemObject>, woken: bool) -> (r: Result<DownStep, Code>)
    requires
        match *old(sem) {
            Some(s) => (woken ==> s.waiters > 0) && (s.counter == 0 ==> s.waiters < u32::MAX),
            None => true,
        },
    ensures
        match *old(sem) {
            None => r == Err::<DownStep, Code>(Code::ObjectGone) && *final(sem) == *old(sem),
            Some(s) => {
                let w = if woken {
                    (s.waiters - 1) as u32
                } else {
                    s.waiters
                };
                if s.counter != 0 {
                    r == Ok::<DownStep, Code>(DownStep::Acquired) && *final(sem) == Some(
                        SemObject { counter: (s.counter - 1) as u32, waiters: w },
                    )
                } else {
                    r == Ok::<DownStep, Code>(DownStep::Wait) && *final(sem) == Some(
                        SemObject { counter: 0, waiters: (w + 1) as u32 },
                    )
                }
            },
        },
{
    match sem {
        None => Err(Code::ObjectGone),
        Some(s) => {
            if woken {
                s.woken();
            }
            if s.try_down() {
                Ok(DownStep::Acquired)
            } else {
                Ok(DownStep::Wait)
            }
        },
    }
}

/// Law: an up followed by a down on a semaphore without waiters leaves it unchanged.
pub proof fn lemma_sem_up_down(s: SemObject)
    requires
        s.counter < u32::MAX,
    ensures
        ({
            let u = SemObject { counter: (s.counter + 1) as u32, ..s };
            u.counter != 0 && SemObject { counter: (u.counter - 1) as u32, ..u } == s
        }),
{
}

/// A global address: a tile and an offset in its memory.
#[derive(Clone, Copy, Debug, PartialEq, Eq, Structural)]
pub struct GlobAddr {
    pub tile: u64,
    pub offset: u64,
}

/// A memory gate: access to a memory region with given permissions.
#[derive(Clone, Copy, Debug, PartialEq, Eq, Structural)]
pub struct MGateObject {
    pub addr: GlobAddr,
    pub size: u64,
    pub perms: u32,
    pub exclusive: Option<u64>,
    pub derived: bool,
}

impl MGateObject {
    /// The region lies within the address space.
    pub open spec fn wf(&self) -> bool {
        self.addr.offset + self.size <= u64::MAX
    }

    pub fn new(addr: GlobAddr, size: u64, perms: u32, derived: bool) -> (r: Self)
        ensures
            r.addr == addr,
            r.size == size,
            r.perms == perms,
            r.exclusive.is_none(),
            r.derived == derived,
    {
        MGateObject { addr, size, perms, exclusive: None, derived }
    }

    pub fn tile_id(&self) -> (r: u64)
        ensures
            r == self.addr.tile,
    {
        self.addr.tile
    }

    pub fn offset(&self) -> (r: u64)
        ensures
            r == self.addr.offset,
    {
        self.addr.offset
    }

    pub fn size(&self) -> (r: u64)
        ensures
            r == self.size,
    {
        self.size
    }

    pub fn perms(&self) -> (r: u32)
        ensures
            r == self.perms,
    {
        self.perms
    }

    pub fn exclusive_tile(&self) -> (r: Option<u64>)
        ensures
            r == self.exclusive,
    {
        self.exclusive
    }

    /// Derives a gate for `size` bytes at `offset` within this gate's region, with the
    /// permissions that both this gate and `perms` grant.
    ///
    /// Fails with `InvArgs` if the subregion is empty or exceeds the region.
    pub fn derive(&self, offset: u64, size: u64, perms: u32) -> (r: Result<MGateObject, Code>)
        requires
            self.wf(),
        ensures
            (offset + size > self.size || size == 0) <==> r is Err,
            r is Err ==> r == Err::<MGateObject, Code>(Code::InvArgs),
            r matches Ok(m) ==> {
                &&& m.addr.tile == self.addr.tile
                &&& m.addr.offset == self.addr.offset + offset
                &&& m.size == size
                &&& m.perms == self.perms & perms
                &&& m.exclusive == self.exclusive
                &&& m.derived
                &&& m.wf()
            },
    {
        if offset.checked_add(size).is_none() || offset + size > self.size || size == 0 {
            return Err(Code::InvArgs);
        }
        Ok(
            MGateObject {
                addr: GlobAddr { tile: self.addr.tile, offset: self.addr.offset + offset },
                size,
                perms: self.perms & perms,
                exclusive: self.exclusive,
                derived: true,
            },
        )
    }

    /// Makes the region exclusive to `user_tile`.
    ///
    /// Fails with `Exists` if it is already exclusive to another tile.
    pub fn make_exclusive(&mut self, user_tile: u64) -> (r: Result<(), Code>)
        ensures
            r is Ok <==> (old(self).exclusive is None || old(self).exclusive == Some(user_tile)),
            r is Err ==> r == Err::<(), Code>(Code::Exists) && *final(self) == *old(self),
            r is Ok ==> *final(self) == (MGateObject { exclusive: Some(user_tile), ..*old(self) }),
    {
        match self.exclusive {
            Some(extile) => {
                if extile == user_tile {
                    return Ok(());
                }
                Err(Code::Exists)
            },
            None => {
                self.exclusive = Some(user_tile);
                Ok(())
            },
        }
    }

    /// Ends the exclusiveness of the region.
    pub fn inval_exclusive(&mut self)
        ensures
            *final(self) == (MGateObject { exclusive: None, ..*old(self) }),
    {
        self.exclusive = None;
    }
}

/// The location of an endpoint: a tile and an endpoint id on it.
#[derive(Clone, Copy, Debug, PartialEq, Eq, Structural)]
pub struct EpLoc {
    pub tile: u64,
    pub ep: u16,
}

/// A receive gate: a ring buffer of `2^order` bytes for messages of up to `2^msg_order` bytes.
#[derive(Clone, Copy, Debug, PartialEq, Eq, Structural)]
pub struct RGateObject {
    pub loc: Option<EpLoc>,
    pub addr: u64,
    pub order: u32,
    pub msg_order: u32,
    pub serial: bool,
    /// The endpoint object (by identity) that gate is bound to.
    pub ep: Option<u64>,
}

impl RGateObject {
    pub fn new(order: u32, msg_order: u32, serial: bool) -> (r: Self)
        ensures
            r.loc.is_none(),
            r.addr == 0,
            r.order == order,
            r.msg_order == msg_order,
            r.serial == serial,
            r.ep.is_none(),
    {
        RGateObject { loc: None, addr: 0, order, msg_order, serial, ep: None }
    }

    pub fn location(&self) -> (r: Option<EpLoc>)
        ensures
            r == self.loc,
    {
        self.loc
    }

    pub fn addr(&self) -> (r: u64)
        ensures
            r == self.addr,
    {
        self.addr
    }

    pub fn order(&self) -> (r: u32)
        ensures
            r == self.order,
    {
        self.order
    }

    pub fn msg_order(&self) -> (r: u32)
        ensures
            r == self.msg_order,
    {
        self.msg_order
    }

    /// The buffer size in bytes.
    pub fn size(&self) -> (r: u64)
        requires
            self.order < 64,
        ensures
            r == pow2(self.order as nat),
    {
        proof {
            vstd::bits::lemma_u64_pow2_no_overflow(self.order as nat);
            vstd::bits::lemma_u64_shl_is_mul(1, self.order as u64);
        }
        1u64 << (self.order as u64)
    }

    /// The maximum message size in bytes.
    pub fn msg_size(&self) -> (r: u64)
        requires
            self.msg_order < 64,
        ensures
            r == pow2(self.msg_order as nat),
    {
        proof {
            vstd::bits::lemma_u64_pow2_no_overflow(self.msg_order as nat);
            vstd::bits::lemma_u64_shl_is_mul(1, self.msg_order as u64);
        }
        1u64 << (self.msg_order as u64)
    }

    /// Is this receive gate activated, i.e., does it have a receive buffer?
    pub open spec fn activated_spec(&self) -> bool {
        self.addr != 0
    }

    /// Is this receive gate activated, i.e., does it have a receive buffer?
    pub fn activated(&self) -> (r: bool)
        ensures
            r == (self.addr != 0),
    {
        self.addr != 0
    }

    /// Activates this receive gate on endpoint `ep` of `tile` with the buffer at `addr`; returns whether
    /// the serial input has to be routed to it.
    pub fn activate(&mut self, tile: u64, ep: u16, addr: u64) -> (r: bool)
        ensures
            *final(self) == (RGateObject { loc: Some(EpLoc { tile, ep }), addr, ..*old(self) }),
            r == old(self).serial,
    {
        self.loc = Some(EpLoc { tile, ep });
        self.addr = addr;
        self.serial
    }

    /// Deactivates this receive gate; returns whether the serial input has to be detached from it.
    pub fn deactivate(&mut self) -> (r: bool)
        ensures
            *final(self) == (RGateObject { loc: None, addr: 0, ..*old(self) }),
            r == old(self).serial,
    {
        self.addr = 0;
        self.loc = None;
        self.serial
    }
}

/// Law: deactivating an activated receive gate makes it inactive again.
pub proof fn lemma_rgate_activate_deactivate(g: RGateObject, tile: u64, ep: u16, addr: u64)
    requires
        addr != 0,
    ensures
        (RGateObject { loc: Some(EpLoc { tile, ep }), addr, ..g }).addr != 0,
        (RGateObject { loc: None, addr: 0, ..(RGateObject { loc: Some(EpLoc { tile, ep }), addr, ..g }) })
            == (RGateObject { loc: None, addr: 0, ..g }),
{
}

/// The category of an endpoint object.
#[derive(Clone, Copy, Debug, PartialEq, Eq, Structural)]
pub enum EPCategory {
    PMP,
    Std,
    Custom,
}

/// How an endpoint is invalidated when it is deconfigured.
#[derive(Clone, Copy, Debug, PartialEq, Eq, Structural)]
pub enum InvalidateType {
    Nothing,
    Default,
    Force,
}

/// The kind of gate an endpoint is configured for.
#[derive(Clone, Copy, Debug, PartialEq, Eq, Structural)]
pub enum GateKind {
    Recv,
    Send,
    Mem,
}

/// The work that deconfiguring an endpoint implies.
#[derive(Clone, Copy, Debug, PartialEq, Eq, Structural)]
pub struct Deconfigure {
    /// The kind of gate that was configured on the endpoint.
    pub gate: GateKind,
    /// Does the endpoint have to be invalidated at the tile?
    pub invalidate: bool,
    /// Is the invalidation forced?
    pub force: bool,
}

/// An endpoint of a tile that an activity owns.
#[derive(Clone, Copy, Debug, PartialEq, Eq, Structural)]
pub struct EPObject {
    pub cat: EPCategory,
    pub gate: Option<GateKind>,
    pub act: Option<u64>,
    pub ep: u16,
    pub replies: usize,
    pub tile_id: u64,
}

impl EPObject {
    pub fn new(cat: EPCategory, act: Option<u64>, ep: u16, replies: usize, tile_id: u64) -> (r:
        Self)
        ensures
            r == (EPObject { cat, gate: None, act, ep, replies, tile_id }),
    {
        EPObject { cat, gate: None, act, ep, replies, tile_id }
    }

    pub fn tile_id(&self) -> (r: u64)
        ensures
            r == self.tile_id,
    {
        self.tile_id
    }

    pub fn ep(&self) -> (r: u16)
        ensures
            r == self.ep,
    {
        self.ep
    }

    pub fn replies(&self) -> (r: usize)
        ensures
            r == self.replies,
    {
        self.replies
    }

    pub fn is_rgate(&self) -> (r: bool)
        ensures
            r == (self.gate == Some(GateKind::Recv)),
    {
        match self.gate {
            Some(GateKind::Recv) => true,
            _ => false,
        }
    }

    pub fn set_gate(&mut self, g: GateKind)
        ensures
            *final(self) == (EPObject { gate: Some(g), ..*old(self) }),
    {
        self.gate = Some(g);
    }

    pub fn is_configured(&self) -> (r: bool)
        ensures
            r == self.gate.is_some(),
    {
        self.gate.is_some()
    }

    /// Removes the configured gate from the endpoint and says what that implies: memory endpoints are left
    /// as they are when no invalidation is requested; all others are invalidated at the tile,
    /// forcibly if requested.
    pub fn deconfigure(&mut self, invalidate: InvalidateType) -> (r: Option<Deconfigure>)
        ensures
            *final(self) == (EPObject { gate: None, ..*old(self) }),
            match old(self).gate {
                None => r is None,
                Some(g) => r == Some(
                    Deconfigure {
                        gate: g,
                        invalidate: !(invalidate == InvalidateType::Nothing && g == GateKind::Mem),
                        force: invalidate == InvalidateType::Force,
                    },
                ),
            },
    {
        match self.gate {
            None => None,
            Some(g) => {
                self.gate = None;
                let inval = match (invalidate, g) {
                    (InvalidateType::Nothing, GateKind::Mem) => false,
                    _ => true,
                };
                Some(
                    Deconfigure {
                        gate: g,
                        invalidate: inval,
                        force: match invalidate {
                            InvalidateType::Force => true,
                            _ => false,
                        },
                    },
                )
            },
        }
    }

    /// Deconfigures the endpoint (see `deconfigure`) and unbinds that gate from it: `gate_ep`
    /// is that gate's reference to its endpoint, which is cleared if a gate was configured.
    pub fn deconfigure_unbind(&mut self, invalidate: InvalidateType, gate_ep: &mut Option<u64>) -> (r:
        Option<Deconfigure>)
        ensures
            *final(self) == (EPObject { gate: None, ..*old(self) }),
            r == match old(self).gate {
                None => None,
                Some(g) => Some(
                    Deconfigure {
                        gate: g,
                        invalidate: !(invalidate == InvalidateType::Nothing && g == GateKind::Mem),
                        force: invalidate == InvalidateType::Force,
                    },
                ),
            },
            *final(gate_ep) == if old(self).gate is Some {
                None
            } else {
                *old(gate_ep)
            },
    {
        let r = self.deconfigure(invalidate);
        if r.is_some() {
            *gate_ep = None;
        }
        r
    }

    /// Deconfigures the endpoint, which holds the receive gate `rg` (see `deconfigure`): the
    /// gate ends deactivated, without location, and no longer bound to the endpoint. Returns
    /// whether the serial input has to be detached from that gate.
    pub fn deconfigure_recv(&mut self, invalidate: InvalidateType, rg: &mut RGateObject) -> (r: (
        Option<Deconfigure>,
        bool,
    ))
        requires
            old(self).gate == Some(GateKind::Recv),
        ensures
            *final(self) == (EPObject { gate: None, ..*old(self) }),
            r.0 == Some(
                Deconfigure {
                    gate: GateKind::Recv,
                    invalidate: true,
                    force: invalidate == InvalidateType::Force,
                },
            ),
            *final(rg) == (RGateObject { loc: None, addr: 0, ep: None, ..*old(rg) }),
            !final(rg).activated_spec(),
            r.1 == old(rg).serial,
    {
        let d = self.deconfigure(invalidate);
        let serial = rg.deactivate();
        rg.ep = None;
        (d, serial)
    }

    /// The number of endpoints that dropping this object gives back to the tile (custom
    /// endpoints with their reply slots), if any.
    pub fn eps_on_drop(&self) -> (r: Option<usize>)
        requires
            self.replies < usize::MAX,
        ensures
            self.cat == EPCategory::Custom ==> r == Some((1 + self.replies) as usize),
            self.cat != EPCategory::Custom ==> r is None,
    {
        match self.cat {
            EPCategory::Custom => Some(1 + self.replies),
            _ => None,
        }
    }
}

/// A mapping object: pages of an activity's address space mapped to global memory.
#[derive(Clone, Copy, Debug, PartialEq, Eq, Structural)]
pub struct MapObject {
    pub glob: GlobAddr,
    pub flags: u64,
    pub mapped: bool,
}

impl MapObject {
    pub fn new(glob: GlobAddr, flags: u64) -> (r: Self)
        ensures
            r == (MapObject { glob, flags, mapped: false }),
    {
        MapObject { glob, flags, mapped: false }
    }

    pub fn mapped(&self) -> (r: bool)
        ensures
            r == self.mapped,
    {
        self.mapped
    }

    pub fn global(&self) -> (r: GlobAddr)
        ensures
            r == self.glob,
    {
        self.glob
    }

    pub fn flags(&self) -> (r: u64)
        ensures
            r == self.flags,
    {
        self.flags
    }

    /// Records that the mapping to `glob` with `flags` has been established.
    pub fn set_mapped(&mut self, glob: GlobAddr, flags: u64)
        ensures
            *final(self) == (MapObject { glob, flags, mapped: true }),
    {
        self.glob = glob;
        self.flags = flags;
        self.mapped = true;
    }
}

/// A session of a service.
#[derive(Clone, Copy, Debug, PartialEq, Eq, Structural)]
pub struct SessObject {
    pub creator: usize,
    pub ident: u64,
    pub auto_close: bool,
}

impl SessObject {
    /// Does revoking the session send a close request to the server running as `server_act`
    /// when `revoker` revokes it? Only auto-closing sessions do, and not when the server itself
    /// is the revoker.
    pub fn sends_close(&self, server_act: Option<u64>, revoker: u64) -> (r: bool)
        ensures
            r == (self.auto_close && server_act is Some && server_act.unwrap() != revoker),
    {
        if self.auto_close {
            match server_act {
                Some(id) => id != revoker,
                None => false,
            }
        } else {
            false
        }
    }
}

/// A service object: a reference to a service, owned by the server or derived for a creator.
#[derive(Clone, Copy, Debug, PartialEq, Eq, Structural)]
pub struct ServObject {
    pub serv: u64,
    pub owner: bool,
    pub creator: usize,
}

impl ServObject {
    /// A service object for `creator`, derived from this one (and not owning the service).
    pub fn derive(&self, creator: usize) -> (r: Self)
        ensures
            r == (ServObject { serv: self.serv, owner: false, creator }),
    {
        ServObject { serv: self.serv, owner: false, creator }
    }

    /// Does revoking this object abort the service? Only for the owner.
    pub fn aborts(&self) -> (r: bool)
        ensures
            r == self.owner,
    {
        self.owner
    }
}

} // verus!
