//! The decisions of the system calls: which requests are refused with which error, and which
//! capabilities a granted request creates.
//!
//! Each call takes the request's arguments and the state it depends on as plain values; where a
//! request operates on capabilities, it works on the capability space directly.
use vstd::prelude::*;
use vstd::arithmetic::power2::pow2;

use crate::caps::{
    charge, copy_of, insert_outcome, insert_result, obtain_result, lookup, lookup_from, spec_get_kobj, space_wf, CapSpace,
    Capability,
};
use crate::errors::Code;
use crate::eps::{free_run, mark, search_start};
use crate::kobjs::{EPObject, EpLoc, GateKind, GlobAddr, KMemObject, KObjKind, MGateObject, RGateObject, CAP_SIZE, PERM_RWX};
use crate::tcu::{INVALID_EP, PG_REP_OFF, PMEM_PROT_EPS};
use crate::kobjs::TileQuota;
use crate::tiles::{quotas_wf, Activity, DeriveSrv, QuotaTable, Service, TileMux, TileObject};
use crate::selrange::{CapRngDesc, CapType, SelRange, MAX_COUNT, MAX_SEL};

verus! {

/// The number of bits of a page offset.
pub const PAGE_BITS: u64 = 12;

/// The size of a page.
pub const PAGE_SIZE: u64 = 4096;

/// The mask of the offset within a page.
pub const PAGE_MASK: u64 = 4095;

/// The maximum number of messages (and reply slots) of a receive buffer.
pub const MAX_RB_SIZE: u64 = 32;

/// The selector of an activity's own tile capability.
pub const SEL_TILE: u64 = 0;

/// The selector of an activity's own kernel-memory capability.
pub const SEL_KMEM: u64 = 1;

/// The selector of an activity's own activity capability.
pub const SEL_ACT: u64 = 2;

/// A new, underived capability for the single selector `sel` of `table`.
pub open spec fn single_cap(
    table: u64,
    sel: u64,
    kind: KObjKind,
    obj: u64,
    obj_size: usize,
    parent: Option<usize>,
) -> Capability {
    Capability {
        table,
        sels: SelRange { start: sel, count: 1 },
        kind,
        obj,
        obj_size,
        derived: false,
        parent,
        live: true,
    }
}

/// The mapping capability that covers the first page of a region: its first page, its number
/// of pages and its page flags.
#[derive(Clone, Copy, Debug, PartialEq, Eq, Structural)]
pub struct MapCapInfo {
    pub start: u64,
    pub pages: u64,
    pub flags: u64,
}

/// Are `perms` made of read, write and execute only, and granted by `allowed`?
pub open spec fn perms_within(perms: u32, allowed: u32) -> bool {
    perms & !PERM_RWX == 0 && perms & !allowed == 0
}

/// The outcome of creating a memory gate for `size` bytes at `addr` of the target activity.
///
/// `target` is the lookup of the target activity, with whether its tile has virtual memory;
/// `map` is the lookup of the mapping capability of the region's first page. With virtual
/// memory the region has to lie within that mapping and the permissions within the mapping's;
/// without, the region is physical memory below `mem_cap_end`. The result is the first page.
pub open spec fn spec_create_mgate(
    addr: u64,
    size: u64,
    perms: u32,
    target: Result<bool, Code>,
    map: Result<MapCapInfo, Code>,
    mem_cap_end: u64,
) -> Result<u64, Code> {
    if addr % PAGE_SIZE != 0 || size % PAGE_SIZE != 0 {
        Err(Code::InvArgs)
    } else {
        match target {
            Err(e) => Err(e),
            Ok(true) => {
                let sel = addr / PAGE_SIZE;
                let pages = size / PAGE_SIZE;
                if pages == 0 {
                    Err(Code::InvArgs)
                } else {
                    match map {
                        Err(e) => Err(e),
                        Ok(m) => if !perms_within(perms, (m.flags & 7) as u32) {
                            Err(Code::NoPerm)
                        } else if sel - m.start + pages > m.pages {
                            Err(Code::InvArgs)
                        } else {
                            Ok(sel as u64)
                        },
                    }
                }
            },
            Ok(false) => if size == 0 {
                Err(Code::InvArgs)
            } else if addr + size >= mem_cap_end {
                Err(Code::InvCap)
            } else {
                Ok((addr / PAGE_SIZE) as u64)
            },
        }
    }
}

/// Decides on creating a memory gate (see `spec_create_mgate`).
pub fn create_mgate(
    addr: u64,
    size: u64,
    perms: u32,
    target: Result<bool, Code>,
    map: Result<MapCapInfo, Code>,
    mem_cap_end: u64,
) -> (r: Result<u64, Code>)
    requires
        map matches Ok(m) ==> m.start <= addr / PAGE_SIZE,
    ensures
        r == spec_create_mgate(addr, size, perms, target, map, mem_cap_end),
{
    assert(addr & PAGE_MASK == addr % 4096) by (bit_vector);
    assert(size & PAGE_MASK == size % 4096) by (bit_vector);
    if (addr & PAGE_MASK) != 0 || (size & PAGE_MASK) != 0 {
        return Err(Code::InvArgs);
    }
    let virtmem = match target {
        Err(e) => {
            return Err(e);
        },
        Ok(v) => v,
    };
    if virtmem {
        let pages = size / PAGE_SIZE;
        if pages == 0 {
            return Err(Code::InvArgs);
        }
        let m = match map {
            Err(e) => {
                return Err(e);
            },
            Ok(m) => m,
        };
        let allowed = (m.flags & 7) as u32;
        if (perms & !PERM_RWX) != 0 || (perms & !allowed) != 0 {
            return Err(Code::NoPerm);
        }
        let sel = addr / PAGE_SIZE;
        if sel - m.start + pages > m.pages {
            return Err(Code::InvArgs);
        }
        Ok(sel)
    } else {
        if size == 0 {
            return Err(Code::InvArgs);
        }
        match addr.checked_add(size) {
            None => {
                return Err(Code::InvCap);
            },
            Some(end) => {
                if end >= mem_cap_end {
                    return Err(Code::InvCap);
                }
            },
        }
        Ok(addr / PAGE_SIZE)
    }
}

/// With virtual memory, a page-aligned, non-empty region whose permissions are within those
/// of the mapping that holds its first page is granted exactly when it ends within that
/// mapping (at or before the end of its last page); the new memory gate then starts at the
/// region's first page. A region that reaches past the mapping is refused with `InvArgs`.
pub proof fn lemma_create_mgate_within_mapping(
    addr: u64,
    size: u64,
    perms: u32,
    m: MapCapInfo,
    mem_cap_end: u64,
)
    requires
        addr % PAGE_SIZE == 0,
        size % PAGE_SIZE == 0,
        size > 0,
        m.start <= addr / PAGE_SIZE,
        perms & !PERM_RWX == 0,
        perms & !((m.flags & 7) as u32) == 0,
    ensures
        addr + size <= (m.start + m.pages) * PAGE_SIZE ==> spec_create_mgate(
            addr,
            size,
            perms,
            Ok(true),
            Ok(m),
            mem_cap_end,
        ) == Ok::<u64, Code>(addr / PAGE_SIZE),
        addr + size > (m.start + m.pages) * PAGE_SIZE ==> spec_create_mgate(
            addr,
            size,
            perms,
            Ok(true),
            Ok(m),
            mem_cap_end,
        ) == Err::<u64, Code>(Code::InvArgs),
{
    let sel = addr / PAGE_SIZE;
    let pages = size / PAGE_SIZE;
    assert(addr == sel * PAGE_SIZE && size == pages * PAGE_SIZE) by (nonlinear_arith)
        requires
            addr % PAGE_SIZE == 0,
            size % PAGE_SIZE == 0,
            sel == addr / PAGE_SIZE,
            pages == size / PAGE_SIZE,
            PAGE_SIZE == 4096,
    ;
    assert(pages > 0);
    assert((addr + size <= (m.start + m.pages) * PAGE_SIZE) == (sel + pages <= m.start + m.pages))
        by (nonlinear_arith)
        requires
            addr == sel * PAGE_SIZE,
            size == pages * PAGE_SIZE,
            PAGE_SIZE == 4096,
    ;
}

/// With virtual memory, a page-aligned, non-empty region that asks for a permission other than
/// read, write and execute, or one that the mapping of its first page does not grant, is
/// refused with `NoPerm`, wherever it lies.
pub proof fn lemma_create_mgate_perms(addr: u64, size: u64, perms: u32, m: MapCapInfo, mem_cap_end: u64)
    requires
        addr % PAGE_SIZE == 0,
        size % PAGE_SIZE == 0,
        size > 0,
        perms & !PERM_RWX != 0 || perms & !((m.flags & 7) as u32) != 0,
    ensures
        spec_create_mgate(addr, size, perms, Ok(true), Ok(m), mem_cap_end) == Err::<u64, Code>(
            Code::NoPerm,
        ),
{
    assert(size / PAGE_SIZE > 0) by (nonlinear_arith)
        requires
            size % PAGE_SIZE == 0,
            size > 0,
            PAGE_SIZE == 4096,
    ;
}

/// Without virtual memory, a page-aligned, non-empty region of physical memory is granted
/// exactly when it ends below `mem_cap_end`, and the new memory gate starts at its first page;
/// otherwise it is refused with `InvCap`.
pub proof fn lemma_create_mgate_physical(addr: u64, size: u64, perms: u32, map: Result<MapCapInfo, Code>, mem_cap_end: u64)
    requires
        addr % PAGE_SIZE == 0,
        size % PAGE_SIZE == 0,
        size > 0,
    ensures
        addr + size < mem_cap_end ==> spec_create_mgate(addr, size, perms, Ok(false), map, mem_cap_end)
            == Ok::<u64, Code>(addr / PAGE_SIZE),
        addr + size >= mem_cap_end ==> spec_create_mgate(addr, size, perms, Ok(false), map, mem_cap_end)
            == Err::<u64, Code>(Code::InvCap),
{
}

/// Are these valid sizes for a receive buffer of `2^order` bytes with messages of
/// `2^msg_order` bytes: at most `MAX_RB_SIZE` messages?
pub open spec fn rgate_sizes_ok(order: u32, msg_order: u32) -> bool {
    &&& order + msg_order <= u32::MAX
    &&& msg_order <= order
    &&& order - msg_order < 32
    &&& pow2((order - msg_order) as nat) <= MAX_RB_SIZE
}

/// Creates a receive gate with a buffer of `2^order` bytes for messages of `2^msg_order` bytes,
/// not activated, and its capability at `dst` of `table`, for that gate's identity `obj`.
/// Returns the capability's index and that gate.
///
/// Fails with `InvArgs` for invalid sizes and with the insert error.
pub fn create_rgate(
    space: &mut CapSpace,
    kmem: &mut KMemObject,
    table: u64,
    dst: u64,
    order: u32,
    msg_order: u32,
    obj: u64,
    obj_size: usize,
) -> (r: Result<(usize, RGateObject), Code>)
    requires
        space_wf(old(space)@),
        obj_size + CAP_SIZE <= usize::MAX,
    ensures
        space_wf(final(space)@),
        !rgate_sizes_ok(order, msg_order) ==> r == Err::<(usize, RGateObject), Code>(Code::InvArgs)
            && final(space)@ == old(space)@ && *final(kmem) == *old(kmem),
        rgate_sizes_ok(order, msg_order) ==> insert_outcome(
            old(space)@,
            *old(kmem),
            single_cap(table, dst, KObjKind::RGate, obj, obj_size, None),
            obj_size + CAP_SIZE,
            match r {
                Ok((i, _)) => Ok::<usize, Code>(i),
                Err(e) => Err::<usize, Code>(e),
            },
            final(space)@,
            *final(kmem),
        ),
        r matches Ok((_, g)) ==> g == (RGateObject {
            loc: None,
            addr: 0,
            order,
            msg_order,
            serial: false,
            ep: None,
        }),
{
    if msg_order.checked_add(order).is_none() || msg_order > order || order - msg_order >= 32 {
        return Err(Code::InvArgs);
    }
    let d = order - msg_order;
    proof {
        vstd::bits::lemma_u32_pow2_no_overflow(d as nat);
        vstd::bits::lemma_u32_shl_is_mul(1, d);
    }
    if (1u32 << d) as u64 > MAX_RB_SIZE {
        return Err(Code::InvArgs);
    }
    match space.insert(table, SelRange::new(dst), KObjKind::RGate, obj, obj_size, None, kmem) {
        Err(e) => Err(e),
        Ok(i) => Ok((i, RGateObject::new(order, msg_order, false))),
    }
}

/// Creates a send-gate capability at `dst` of `table` for object `obj`, as child of the
/// receive gate at `rgate`.
pub fn create_sgate(
    space: &mut CapSpace,
    kmem: &mut KMemObject,
    table: u64,
    dst: u64,
    rgate: u64,
    obj: u64,
    obj_size: usize,
) -> (r: Result<usize, Code>)
    requires
        space_wf(old(space)@),
        obj_size + CAP_SIZE <= usize::MAX,
    ensures
        space_wf(final(space)@),
        match spec_get_kobj(old(space)@, table, rgate as int, KObjKind::RGate) {
            Err(e) => r == Err::<usize, Code>(e) && final(space)@ == old(space)@ && *final(kmem)
                == *old(kmem),
            Ok(p) => insert_outcome(
                old(space)@,
                *old(kmem),
                single_cap(table, dst, KObjKind::SGate, obj, obj_size, Some(p)),
                obj_size + CAP_SIZE,
                r,
                final(space)@,
                *final(kmem),
            ),
        },
{
    let p = match space.get_kobj(table, rgate, KObjKind::RGate) {
        Err(e) => {
            return Err(e);
        },
        Ok(p) => p,
    };
    space.insert(table, SelRange::new(dst), KObjKind::SGate, obj, obj_size, Some(p), kmem)
}

/// Creates a service capability at `dst` of `table` for object `obj`, receiving its requests
/// over the receive gate at `rgate`, which has to be activated.
///
/// Fails with `InvArgs` for an empty name or an inactive receive gate.
pub fn create_srv(
    space: &mut CapSpace,
    kmem: &mut KMemObject,
    table: u64,
    dst: u64,
    rgate: u64,
    name_len: usize,
    rgate_activated: bool,
    obj: u64,
    obj_size: usize,
) -> (r: Result<usize, Code>)
    requires
        space_wf(old(space)@),
        obj_size + CAP_SIZE <= usize::MAX,
    ensures
        space_wf(final(space)@),
        name_len == 0 ==> r == Err::<usize, Code>(Code::InvArgs) && final(space)@ == old(space)@
            && *final(kmem) == *old(kmem),
        name_len > 0 ==> match spec_get_kobj(old(space)@, table, rgate as int, KObjKind::RGate) {
            Err(e) => r == Err::<usize, Code>(e) && final(space)@ == old(space)@ && *final(kmem)
                == *old(kmem),
            Ok(p) => if !rgate_activated {
                r == Err::<usize, Code>(Code::InvArgs) && final(space)@ == old(space)@ && *final(kmem) == *old(kmem)
            } else {
                insert_outcome(
                    old(space)@,
                    *old(kmem),
                    single_cap(table, dst, KObjKind::Serv, obj, obj_size, None),
                    obj_size + CAP_SIZE,
                    r,
                    final(space)@,
                    *final(kmem),
                )
            },
        },
{
    if name_len == 0 {
        return Err(Code::InvArgs);
    }
    if let Err(e) = space.get_kobj(table, rgate, KObjKind::RGate) {
        return Err(e);
    }
    if !rgate_activated {
        return Err(Code::InvArgs);
    }
    space.insert(table, SelRange::new(dst), KObjKind::Serv, obj, obj_size, None, kmem)
}

/// Creates a session capability at `dst` of `table` for object `obj`, as child of the service
/// capability at `srv`.
///
/// Fails with `InvCap` if there is no capability at `srv`, and with `InvArgs` if it is derived
/// (only the service's owner creates sessions) or no service.
pub fn create_sess(
    space: &mut CapSpace,
    kmem: &mut KMemObject,
    table: u64,
    dst: u64,
    srv: u64,
    obj: u64,
    obj_size: usize,
) -> (r: Result<usize, Code>)
    requires
        space_wf(old(space)@),
        obj_size + CAP_SIZE <= usize::MAX,
    ensures
        space_wf(final(space)@),
        match lookup(old(space)@, table, srv as int) {
            None => r == Err::<usize, Code>(Code::InvCap) && final(space)@ == old(space)@
                && *final(kmem) == *old(kmem),
            Some(p) => if old(space)@[p].parent is Some || old(space)@[p].kind != KObjKind::Serv {
                r == Err::<usize, Code>(Code::InvArgs) && final(space)@ == old(space)@ && *final(kmem) == *old(kmem)
            } else {
                insert_outcome(
                    old(space)@,
                    *old(kmem),
                    single_cap(table, dst, KObjKind::Sess, obj, obj_size, Some(p as usize)),
                    obj_size + CAP_SIZE,
                    r,
                    final(space)@,
                    *final(kmem),
                )
            },
        },
{
    proof {
        crate::caps::lemma_lookup(space@, table, srv as int);
    }
    let looked = space.get(table, srv);
    let p = match looked {
        Err(e) => {
            return Err(e);
        },
        Ok(p) => p,
    };
    let c = space.cap(p);
    if c.parent.is_some() {
        return Err(Code::InvArgs);
    }
    if c.kind != KObjKind::Serv {
        return Err(Code::InvArgs);
    }
    space.insert(table, SelRange::new(dst), KObjKind::Sess, obj, obj_size, Some(p), kmem)
}

/// Creates a semaphore capability at `dst` of `table` for object `obj`.
pub fn create_sem(
    space: &mut CapSpace,
    kmem: &mut KMemObject,
    table: u64,
    dst: u64,
    obj: u64,
    obj_size: usize,
) -> (r: Result<usize, Code>)
    requires
        space_wf(old(space)@),
        obj_size + CAP_SIZE <= usize::MAX,
    ensures
        space_wf(final(space)@),
        insert_outcome(
            old(space)@,
            *old(kmem),
            single_cap(table, dst, KObjKind::Sem, obj, obj_size, None),
            obj_size + CAP_SIZE,
            r,
            final(space)@,
            *final(kmem),
        ),
{
    space.insert(table, SelRange::new(dst), KObjKind::Sem, obj, obj_size, None, kmem)
}

/// The effect of copying, from offset `i` to `n`, the capability at `src_start + i` of table
/// `src` to `dst_start + i` of table `dst`, charging each copy to `k`: a free source selector
/// is skipped, and the first copy that fails stops the copying with its error.
pub open spec fn copy_range(
    v: Seq<Capability>,
    k: KMemObject,
    src: u64,
    dst: u64,
    src_start: int,
    dst_start: int,
    i: int,
    n: int,
) -> (Seq<Capability>, KMemObject, Result<(), Code>)
    decreases n - i,
{
    if i < 0 || i >= n {
        (v, k, Ok(()))
    } else {
        match lookup(v, src, src_start + i) {
            None => copy_range(v, k, src, dst, src_start, dst_start, i + 1, n),
            Some(c) => if lookup(v, dst, dst_start + i) is Some {
                (v, k, Err(Code::InvArgs))
            } else if k.left < CAP_SIZE {
                (v, k, Err(Code::NoSpace))
            } else {
                copy_range(
                    v.push(copy_of(v, c, dst, dst_start + i)),
                    KMemObject { left: (k.left - CAP_SIZE) as usize, ..k },
                    src,
                    dst,
                    src_start,
                    dst_start,
                    i + 1,
                    n,
                )
            },
        }
    }
}

/// Is any of the `count` selectors from `start` on in use in `table`?
pub open spec fn range_used(v: Seq<Capability>, table: u64, start: int, count: int) -> bool {
    exists|s: int| start <= s < start + count && #[trigger] lookup(v, table, s) is Some
}

/// The effect of exchanging capabilities between the tables of activities `act1` and `act2`:
/// with `obtain`, `act1` obtains up to `c1.count` capabilities of range `c2` of `act2` into
/// `c1`; without, it delegates range `c1` to `c2` of `act2`, of the same count.
///
/// Fails with `InvArgs` for the same activity on both sides, for differing capability types or
/// counts, and if a destination selector is in use.
pub open spec fn spec_do_exchange(
    v: Seq<Capability>,
    k: KMemObject,
    act1: u64,
    act2: u64,
    c1: CapRngDesc,
    c2: CapRngDesc,
    obtain: bool,
) -> (Seq<Capability>, KMemObject, Result<(), Code>) {
    let src = if obtain {
        act2
    } else {
        act1
    };
    let dst = if obtain {
        act1
    } else {
        act2
    };
    let src_rng = if obtain {
        c2
    } else {
        c1
    };
    let dst_rng = if obtain {
        c1
    } else {
        c2
    };
    if act1 == act2 || c1.ty != c2.ty || (obtain && c2.count > c1.count) || (!obtain && c2.count
        != c1.count) {
        (v, k, Err(Code::InvArgs))
    } else if range_used(v, dst, dst_rng.start as int, dst_rng.count as int) {
        (v, k, Err(Code::InvArgs))
    } else {
        copy_range(v, k, src, dst, src_rng.start as int, dst_rng.start as int, 0, c2.count as int)
    }
}

/// Exchanges capabilities between two activities' tables (see `spec_do_exchange`); `kmem` is
/// the kernel memory of the receiving activity.
pub fn do_exchange(
    space: &mut CapSpace,
    kmem: &mut KMemObject,
    act1: u64,
    act2: u64,
    c1: CapRngDesc,
    c2: CapRngDesc,
    obtain: bool,
) -> (r: Result<(), Code>)
    requires
        space_wf(old(space)@),
        c1.start + c1.count <= u64::MAX,
        c2.start + c2.count <= u64::MAX,
    ensures
        space_wf(final(space)@),
        (final(space)@, *final(kmem), r) == spec_do_exchange(
            old(space)@,
            *old(kmem),
            act1,
            act2,
            c1,
            c2,
            obtain,
        ),
{
    let src = if obtain {
        act2
    } else {
        act1
    };
    let dst = if obtain {
        act1
    } else {
        act2
    };
    let src_rng = if obtain {
        c2
    } else {
        c1
    };
    let dst_rng = if obtain {
        c1
    } else {
        c2
    };
    if act1 == act2 {
        return Err(Code::InvArgs);
    }
    if c1.ty != c2.ty {
        return Err(Code::InvArgs);
    }
    if (obtain && c2.count > c1.count) || (!obtain && c2.count != c1.count) {
        return Err(Code::InvArgs);
    }
    if !space.range_unused(dst, dst_rng.start, dst_rng.count) {
        assert(exists|s: int|
            dst_rng.start <= s < dst_rng.start + dst_rng.count && #[trigger] lookup(space@, dst, s)
                is Some);
        return Err(Code::InvArgs);
    }
    let n = c2.count;
    let ghost sstart = src_rng.start as int;
    let ghost dstart = dst_rng.start as int;
    let mut i: u64 = 0;
    while i < n
        invariant
            space_wf(space@),
            i <= n,
            n == c2.count,
            n <= src_rng.count,
            n <= dst_rng.count,
            src_rng.start + src_rng.count <= u64::MAX,
            dst_rng.start + dst_rng.count <= u64::MAX,
            sstart == src_rng.start,
            dstart == dst_rng.start,
            spec_do_exchange(old(space)@, *old(kmem), act1, act2, c1, c2, obtain) == copy_range(
                old(space)@,
                *old(kmem),
                src,
                dst,
                sstart,
                dstart,
                0,
                n as int,
            ),
            copy_range(old(space)@, *old(kmem), src, dst, sstart, dstart, 0, n as int) == copy_range(
                space@,
                *kmem,
                src,
                dst,
                sstart,
                dstart,
                i as int,
                n as int,
            ),
        decreases n - i,
    {
        let src_sel = src_rng.start + i;
        let dst_sel = dst_rng.start + i;
        proof {
            crate::caps::lemma_lookup(space@, src, src_sel as int);
        }
        match space.lookup(src, src_sel) {
            Some(c) => {
                let res = space.obtain(dst, dst_sel, c, kmem);
                if let Err(e) = res {
                    return Err(e);
                }
            },
            None => {},
        }
        i += 1;
    }
    Ok(())
}

/// Exchanges capabilities with another activity: `own` in the caller's table `act` and the
/// same count from `other` on in the table of the activity `other_act` refers to (the result of
/// looking it up); `kmem` is the kernel memory of the receiving activity.
///
/// Fails with the error of forming the other range or of the lookup, and otherwise as
/// `do_exchange`.
pub fn exchange(
    space: &mut CapSpace,
    kmem: &mut KMemObject,
    act: u64,
    own: CapRngDesc,
    other: u64,
    other_act: Result<u64, Code>,
    obtain: bool,
) -> (r: Result<(), Code>)
    requires
        space_wf(old(space)@),
        own.start + own.count <= u64::MAX,
    ensures
        space_wf(final(space)@),
        own.count > crate::selrange::MAX_COUNT ==> r == Err::<(), Code>(Code::CapCountTooLarge)
            && final(space)@ == old(space)@ && *final(kmem) == *old(kmem),
        own.count <= crate::selrange::MAX_COUNT && other + own.count > u64::MAX ==> r == Err::<
            (),
            Code,
        >(Code::LastCapOverflow) && final(space)@ == old(space)@ && *final(kmem) == *old(kmem),
        own.count <= crate::selrange::MAX_COUNT && other + own.count <= u64::MAX ==> match other_act {
            Err(e) => r == Err::<(), Code>(e) && final(space)@ == old(space)@ && *final(kmem)
                == *old(kmem),
            Ok(a) => (final(space)@, *final(kmem), r) == spec_do_exchange(
                old(space)@,
                *old(kmem),
                act,
                a,
                own,
                CapRngDesc { ty: own.ty, start: other, count: own.count },
                obtain,
            ),
        },
{
    let other_crd = match CapRngDesc::new(own.ty, other, own.count) {
        Err(e) => {
            return Err(e);
        },
        Ok(c) => c,
    };
    if other_crd.start.checked_add(other_crd.count).is_none() {
        return Err(Code::LastCapOverflow);
    }
    let a = match other_act {
        Err(e) => {
            return Err(e);
        },
        Ok(a) => a,
    };
    do_exchange(space, kmem, act, a, own, other_crd, obtain)
}

/// Completes an exchange over a session once the server answered with `server_result` and
/// the server-side range `srv_crd`: exchanges `crd` of the activity `act` refers to (the result
/// of looking it up) with `srv_crd` of the server's activity `server_act`; `kmem` is the kernel
/// memory of the receiving activity.
///
/// Fails with the server's error if it denied the exchange, then with the lookup's error, and
/// otherwise as `do_exchange`.
pub fn exchange_over_sess_reply(
    space: &mut CapSpace,
    kmem: &mut KMemObject,
    server_result: Code,
    act: Result<u64, Code>,
    server_act: u64,
    crd: CapRngDesc,
    srv_crd: CapRngDesc,
    obtain: bool,
) -> (r: Result<(), Code>)
    requires
        space_wf(old(space)@),
        crd.start + crd.count <= u64::MAX,
        srv_crd.start + srv_crd.count <= u64::MAX,
    ensures
        space_wf(final(space)@),
        server_result != Code::Success ==> r == Err::<(), Code>(server_result) && final(space)@
            == old(space)@ && *final(kmem) == *old(kmem),
        server_result == Code::Success ==> match act {
            Err(e) => r == Err::<(), Code>(e) && final(space)@ == old(space)@ && *final(kmem)
                == *old(kmem),
            Ok(a) => (final(space)@, *final(kmem), r) == spec_do_exchange(
                old(space)@,
                *old(kmem),
                a,
                server_act,
                crd,
                srv_crd,
                obtain,
            ),
        },
{
    if server_result != Code::Success {
        return Err(server_result);
    }
    let a = match act {
        Err(e) => {
            return Err(e);
        },
        Ok(a) => a,
    };
    do_exchange(space, kmem, a, server_act, crd, srv_crd, obtain)
}

/// Checks a request to revoke the capabilities `crd`: returns the end of the range, which is
/// then revoked step by step (see `CapSpace::revoke_step`), from `crd.start` on.
///
/// Fails with `InvArgs` if the range includes one of the object selectors that every activity
/// owns (its tile, kernel memory and itself).
pub fn revoke_check(crd: CapRngDesc) -> (r: Result<u64, Code>)
    requires
        crd.start + crd.count <= u64::MAX,
    ensures
        r == (if crd.ty == CapType::Object && crd.start <= SEL_ACT {
            Err(Code::InvArgs)
        } else {
            Ok((crd.start + crd.count) as u64)
        }),
{
    if crd.ty == CapType::Object && crd.start <= SEL_ACT {
        return Err(Code::InvArgs);
    }
    Ok(crd.start + crd.count)
}

/// Are all kernel-memory capabilities of `v` referring to an entry of a table of `n` kernel
/// memory objects?
pub open spec fn kmems_known(v: Seq<Capability>, n: int) -> bool {
    forall|i: int| 0 <= i < v.len() && #[trigger] v[i].kind == KObjKind::KMem ==> v[i].obj < n
}

/// The kernel-memory objects after deriving one with `quota` bytes from `src`, charging `cost`
/// bytes for the capability to `act`: the new object is appended, with its index as identity.
pub open spec fn after_derive(ks: Seq<KMemObject>, act: int, src: int, cost: int, quota: int) -> Seq<
    KMemObject,
> {
    let charged = ks.update(act, charge(ks[act], cost));
    charged.update(src, charge(charged[src], quota)).push(
        KMemObject { id: ks.len() as u64, quota: quota as usize, left: quota as usize },
    )
}

/// Derives a kernel-memory object with `quota` bytes from the one at `kmem` of `table`, as a
/// capability at `dst` that is a child of the source: the new object is appended to `kmems`
/// (its index is its identity), the quota is taken from the source, and the capability is
/// charged to the deriving activity's kernel memory `kmems[act_kmem]`.
///
/// Fails with the error of looking up the source, with `NoSpace` if the source has less than
/// `quota` left, and with the error of inserting the capability.
pub fn derive_kmem(
    space: &mut CapSpace,
    kmems: &mut Vec<KMemObject>,
    act_kmem: usize,
    table: u64,
    kmem: u64,
    dst: u64,
    quota: usize,
    obj_size: usize,
) -> (r: Result<usize, Code>)
    requires
        space_wf(old(space)@),
        kmems_known(old(space)@, old(kmems)@.len() as int),
        act_kmem < old(kmems)@.len(),
        obj_size + CAP_SIZE <= usize::MAX,
        spec_get_kobj(old(space)@, table, kmem as int, KObjKind::KMem) matches Ok(p) && old(
            space)@[p as int].obj == act_kmem && old(kmems)@[act_kmem as int].left >= quota ==> old(
            kmems)@[act_kmem as int].left >= quota + obj_size + CAP_SIZE || old(
            kmems)@[act_kmem as int].left < obj_size + CAP_SIZE || lookup(
            old(space)@,
            table,
            dst as int,
        ) is Some,
    ensures
        space_wf(final(space)@),
        match spec_get_kobj(old(space)@, table, kmem as int, KObjKind::KMem) {
            Err(e) => r == Err::<usize, Code>(e) && final(space)@ == old(space)@ && final(kmems)@
                == old(kmems)@,
            Ok(p) => {
                let src = old(space)@[p as int].obj as int;
                if old(kmems)@[src].left < quota {
                    r == Err::<usize, Code>(Code::NoSpace) && final(space)@ == old(space)@ && final(
                        kmems)@ == old(kmems)@
                } else {
                    let cap = single_cap(
                        table,
                        dst,
                        KObjKind::KMem,
                        old(kmems)@.len() as u64,
                        obj_size,
                        Some(p),
                    );
                    let ak = old(kmems)@[act_kmem as int];
                    &&& insert_outcome(
                        old(space)@,
                        ak,
                        cap,
                        obj_size + CAP_SIZE,
                        r,
                        final(space)@,
                        if r is Ok {
                            charge(ak, obj_size + CAP_SIZE)
                        } else {
                            ak
                        },
                    )
                    &&& (r is Err ==> final(kmems)@ == old(kmems)@)
                    &&& (r is Ok ==> final(kmems)@ == after_derive(
                        old(kmems)@,
                        act_kmem as int,
                        src,
                        obj_size + CAP_SIZE,
                        quota as int,
                    ))
                }
            },
        },
{
    let p = match space.get_kobj(table, kmem, KObjKind::KMem) {
        Err(e) => {
            return Err(e);
        },
        Ok(p) => p,
    };
    let n = kmems.len();
    let o = space.cap(p).obj;
    assert(o < n);
    let src = o as usize;
    if !kmems[src].has_quota(quota) {
        return Err(Code::NoSpace);
    }
    let new_id = kmems.len() as u64;
    let mut ak = kmems[act_kmem];
    let res = space.insert(table, SelRange::new(dst), KObjKind::KMem, new_id, obj_size, Some(p), &mut ak);
    match res {
        Err(e) => {
            return Err(e);
        },
        Ok(i) => {
            kmems.set(act_kmem, ak);
            let mut sk = kmems[src];
            let ok = sk.allocate(quota);
            assert(ok);
            kmems.set(src, sk);
            kmems.push(KMemObject::new(new_id, quota));
            proof {
                assert(final(space)@.len() == old(space)@.len() + 1);
            }
            Ok(i)
        },
    }
}

/// Derives a memory gate for `size` bytes at `offset` of the memory gate `mgate` that the capability
/// at `src` of `table` refers to, with the permissions of both and `perms`, as a capability at
/// `dst` of the table that `target` refers to (the result of looking it up), child of the
/// capability at `src` there; `kmem` is the target's kernel memory. Returns the capability and
/// the new gate.
///
/// Fails with the lookup errors, with `InvArgs` for a subregion that is empty or exceeds the
/// gate, and with the error of inserting the capability.
pub fn derive_mem(
    space: &mut CapSpace,
    kmem: &mut KMemObject,
    target: Result<u64, Code>,
    table: u64,
    src: u64,
    dst: u64,
    size: u64,
    offset: u64,
    perms: u32,
    mgate: &MGateObject,
    obj: u64,
    obj_size: usize,
) -> (r: Result<(usize, MGateObject), Code>)
    requires
        space_wf(old(space)@),
        mgate.wf(),
        obj_size + CAP_SIZE <= usize::MAX,
    ensures
        space_wf(final(space)@),
        r is Err ==> final(space)@ == old(space)@ && *final(kmem) == *old(kmem),
        match target {
            Err(e) => r == Err::<(usize, MGateObject), Code>(e),
            Ok(t) => match spec_get_kobj(old(space)@, table, src as int, KObjKind::MGate) {
                Err(e) => r == Err::<(usize, MGateObject), Code>(e),
                Ok(_) => if offset + size > mgate.size || size == 0 {
                    r == Err::<(usize, MGateObject), Code>(Code::InvArgs)
                } else {
                    let parent = match lookup(old(space)@, t, src as int) {
                        Some(q) => Some(q as usize),
                        None => None,
                    };
                    &&& insert_outcome(
                        old(space)@,
                        *old(kmem),
                        single_cap(t, dst, KObjKind::MGate, obj, obj_size, parent),
                        obj_size + CAP_SIZE,
                        match r {
                            Ok(x) => Ok(x.0),
                            Err(e) => Err(e),
                        },
                        final(space)@,
                        *final(kmem),
                    )
                    &&& (r matches Ok(x) ==> x.1 == (MGateObject {
                        addr: GlobAddr { tile: mgate.addr.tile, offset: (mgate.addr.offset + offset) as u64 },
                        size,
                        perms: mgate.perms & perms,
                        exclusive: mgate.exclusive,
                        derived: true,
                    }))
                },
            },
        },
{
    let t = match target {
        Err(e) => {
            return Err(e);
        },
        Ok(t) => t,
    };
    if let Err(e) = space.get_kobj(table, src, KObjKind::MGate) {
        return Err(e);
    }
    let m = match mgate.derive(offset, size, perms) {
        Err(e) => {
            return Err(e);
        },
        Ok(m) => m,
    };
    match space.insert_as_child(t, SelRange::new(dst), KObjKind::MGate, obj, obj_size, t, src, kmem) {
        Err(e) => Err(e),
        Ok(i) => Ok((i, m)),
    }
}

/// The types of tiles.
#[derive(Clone, Copy, Debug, PartialEq, Eq, Structural)]
pub enum TileType {
    Comp,
    Mem,
}

/// What the kernel knows about a tile's hardware.
#[derive(Clone, Copy, Debug, PartialEq, Eq, Structural)]
pub struct TileDesc {
    pub ty: TileType,
    pub virtmem: bool,
    pub memory: bool,
    pub internal_eps: bool,
}

/// Checks a request to set the time and page-table quota of a tile through `tile`; returns the
/// quota to set.
///
/// Fails with `InvArgs` for memory tiles, with `NoPerm` for derived tile objects, and with
/// `InvArgs` if more than one activity uses the tile.
pub fn tile_set_quota(desc: TileDesc, tile: &TileObject) -> (r: Result<u64, Code>)
    ensures
        r == (if desc.ty == TileType::Mem {
            Err(Code::InvArgs)
        } else if tile.derived {
            Err(Code::NoPerm)
        } else if tile.acts().len() > 1 {
            Err(Code::InvArgs)
        } else {
            Ok(tile.time_quota)
        }),
{
    if desc.ty == TileType::Mem {
        return Err(Code::InvArgs);
    }
    if tile.derived() {
        return Err(Code::NoPerm);
    }
    if tile.activities() > 1 {
        return Err(Code::InvArgs);
    }
    Ok(tile.time_quota_id())
}

/// The answer to a request for the quotas of a tile: its endpoint and external-region quotas,
/// and the ids of the time and page-table quotas to ask the multiplexer for, if it can be
/// asked (otherwise the answer holds default quotas for them).
#[derive(Clone, Copy, Debug, PartialEq, Eq, Structural)]
pub struct TileQuotaInfo {
    pub eps: TileQuota,
    pub exregs: TileQuota,
    pub ask_mux: Option<MuxQuotaIds>,
}

/// The ids of a tile's time and page-table quotas at its multiplexer.
#[derive(Clone, Copy, Debug, PartialEq, Eq, Structural)]
pub struct MuxQuotaIds {
    pub time: u64,
    pub pts: u64,
}

/// Gathers the quotas of `tile`: the multiplexer is asked only on tiles that support one
/// (`supports_mux`) and where it runs (`mux_initialized`).
pub fn tile_quota(tile: &TileObject, quotas: &QuotaTable, supports_mux: bool, mux_initialized: bool) -> (r:
    TileQuotaInfo)
    requires
        tile.ep_quota < quotas@.len(),
        tile.exregs_quota < quotas@.len(),
    ensures
        r == (TileQuotaInfo {
            eps: quotas@[tile.ep_quota as int],
            exregs: quotas@[tile.exregs_quota as int],
            ask_mux: if supports_mux && mux_initialized {
                Some(MuxQuotaIds { time: tile.time_quota, pts: tile.pt_quota })
            } else {
                None
            },
        }),
{
    let ask_mux = if supports_mux && mux_initialized {
        Some(MuxQuotaIds { time: tile.time_quota_id(), pts: tile.pt_quota_id() })
    } else {
        None
    };
    TileQuotaInfo { eps: quotas.get(tile.ep_quota), exregs: quotas.get(tile.exregs_quota), ask_mux }
}

/// Checks a request to configure physical-memory-protection endpoint `ep` of a tile.
///
/// Fails with `InvArgs` for memory tiles, with `NoPerm` for derived tile objects, with
/// `InvState` for overwriting while activities use the tile, and with `InvArgs` for an endpoint
/// that is no protection endpoint besides the first.
pub fn tile_set_pmp(desc: TileDesc, tile: &TileObject, ep: u16, overwrite: bool) -> (r: Result<(), Code>)
    ensures
        r == (if desc.ty == TileType::Mem {
            Err(Code::InvArgs)
        } else if tile.derived {
            Err(Code::NoPerm)
        } else if overwrite && tile.acts().len() > 0 {
            Err(Code::InvState)
        } else if ep < 1 || ep >= PMEM_PROT_EPS {
            Err(Code::InvArgs)
        } else {
            Ok(())
        }),
{
    if desc.ty == TileType::Mem {
        return Err(Code::InvArgs);
    }
    if tile.derived() {
        return Err(Code::NoPerm);
    }
    if overwrite && tile.activities() > 0 {
        return Err(Code::InvState);
    }
    if ep < 1 || ep >= PMEM_PROT_EPS {
        return Err(Code::InvArgs);
    }
    Ok(())
}

/// Checks a request to reset a tile, with memory for its multiplexer if `with_mux_mem` and
/// `ep_count` external endpoints if given.
///
/// Fails with `InvArgs` for memory tiles, with `NoPerm` for derived tile objects, and with
/// `InvArgs` if multiplexer memory is given and external endpoints are asked for a tile with
/// internal ones or not asked for a tile without.
pub fn tile_reset(desc: TileDesc, tile: &TileObject, with_mux_mem: bool, ep_count: Option<u32>) -> (r:
    Result<(), Code>)
    ensures
        r == (if desc.ty == TileType::Mem {
            Err(Code::InvArgs)
        } else if tile.derived {
            Err(Code::NoPerm)
        } else if with_mux_mem && desc.internal_eps != ep_count.is_none() {
            Err(Code::InvArgs)
        } else {
            Ok(())
        }),
{
    if desc.ty == TileType::Mem {
        return Err(Code::InvArgs);
    }
    if tile.derived() {
        return Err(Code::NoPerm);
    }
    if with_mux_mem && desc.internal_eps != ep_count.is_none() {
        return Err(Code::InvArgs);
    }
    Ok(())
}

/// Checks a request to lock a tile for exclusive use.
///
/// Fails with `InvArgs` for tiles other than compute tiles, with `NoPerm` for derived tile
/// objects, and with `Exists` if the tile is already locked.
pub fn tile_lock(desc: TileDesc, tile: &TileObject, locked: bool) -> (r: Result<(), Code>)
    ensures
        r == (if desc.ty != TileType::Comp {
            Err(Code::InvArgs)
        } else if tile.derived {
            Err(Code::NoPerm)
        } else if locked {
            Err(Code::Exists)
        } else {
            Ok(())
        }),
{
    if desc.ty != TileType::Comp {
        return Err(Code::InvArgs);
    }
    if tile.derived() {
        return Err(Code::NoPerm);
    }
    if locked {
        return Err(Code::Exists);
    }
    Ok(())
}

/// Creates a memory-gate capability for the internal memory of the tile that the capability at
/// `tile_sel` of `table` refers to (`tile`, described by `desc`), at `dst` as child of the tile
/// capability.
///
/// Fails with the lookup error, with `InvArgs` for memory tiles, with `NoPerm` for derived tile
/// objects, with `InvArgs` for tiles without internal memory, and with the insert error.
pub fn tile_mem(
    space: &mut CapSpace,
    kmem: &mut KMemObject,
    table: u64,
    dst: u64,
    tile_sel: u64,
    desc: TileDesc,
    tile: &TileObject,
    obj: u64,
    obj_size: usize,
) -> (r: Result<usize, Code>)
    requires
        space_wf(old(space)@),
        obj_size + CAP_SIZE <= usize::MAX,
    ensures
        space_wf(final(space)@),
        r is Err && !(r matches Err(Code::InvArgs) && lookup(old(space)@, table, dst as int) is Some
            && spec_get_kobj(old(space)@, table, tile_sel as int, KObjKind::Tile) is Ok) ==> final(
            space)@ == old(space)@,
        match spec_get_kobj(old(space)@, table, tile_sel as int, KObjKind::Tile) {
            Err(e) => r == Err::<usize, Code>(e) && final(space)@ == old(space)@ && *final(kmem)
                == *old(kmem),
            Ok(p) => if desc.ty == TileType::Mem {
                r == Err::<usize, Code>(Code::InvArgs) && final(space)@ == old(space)@ && *final(
                    kmem) == *old(kmem)
            } else if tile.derived {
                r == Err::<usize, Code>(Code::NoPerm) && final(space)@ == old(space)@ && *final(
                    kmem) == *old(kmem)
            } else if !desc.memory {
                r == Err::<usize, Code>(Code::InvArgs) && final(space)@ == old(space)@ && *final(
                    kmem) == *old(kmem)
            } else {
                insert_outcome(
                    old(space)@,
                    *old(kmem),
                    single_cap(table, dst, KObjKind::MGate, obj, obj_size, Some(p)),
                    obj_size + CAP_SIZE,
                    r,
                    final(space)@,
                    *final(kmem),
                )
            },
        },
{
    let p = match space.get_kobj(table, tile_sel, KObjKind::Tile) {
        Err(e) => {
            return Err(e);
        },
        Ok(p) => p,
    };
    if desc.ty == TileType::Mem {
        return Err(Code::InvArgs);
    }
    if tile.derived() {
        return Err(Code::NoPerm);
    }
    if !desc.memory {
        return Err(Code::InvArgs);
    }
    space.insert(table, SelRange::new(dst), KObjKind::MGate, obj, obj_size, Some(p), kmem)
}

/// Where a mapping goes: the virtual address, the physical address of the first page, and
/// whether the mapping capability exists already (and is only updated).
#[derive(Clone, Copy, Debug, PartialEq, Eq, Structural)]
pub struct MapPlan {
    pub virt: u64,
    pub phys: GlobAddr,
    pub exists: bool,
}

/// The outcome of mapping `pages` pages from page `first` of memory gate `mgate` (the result
/// of looking it up) at virtual page `dst` of the activity `target` refers to (the result of
/// looking it up, with whether its tile has virtual memory), whose mapping capabilities are in
/// `map_table`.
///
/// The memory gate has to be page-aligned, the permissions within its own, and the pages
/// within its region. An existing mapping capability at `dst` has to have the same page count;
/// otherwise the selectors have to form a valid, unused range.
pub open spec fn spec_create_map(
    v: Seq<Capability>,
    map_table: u64,
    target: Result<bool, Code>,
    mgate: Result<MGateObject, Code>,
    dst: u64,
    first: u64,
    pages: u64,
    perms: u32,
) -> Result<MapPlan, Code> {
    match target {
        Err(e) => Err(e),
        Ok(false) => Err(Code::InvArgs),
        Ok(true) => match mgate {
            Err(e) => Err(e),
            Ok(m) => {
                let total = m.size / PAGE_SIZE;
                if m.addr.offset % PAGE_SIZE != 0 || m.size % PAGE_SIZE != 0 {
                    Err(Code::InvArgs)
                } else if perms & !m.perms != 0 {
                    Err(Code::InvArgs)
                } else if first + pages > u64::MAX || pages == 0 || first >= total || first + pages
                    > total {
                    Err(Code::InvArgs)
                } else {
                    let virt = dst << PAGE_BITS;
                    let phys = GlobAddr {
                        tile: m.addr.tile,
                        offset: (m.addr.offset + PAGE_SIZE * first) as u64,
                    };
                    match lookup(v, map_table, dst as int) {
                        Some(c) => if v[c].sels.count != pages {
                            Err(Code::InvArgs)
                        } else {
                            Ok(MapPlan { virt, phys, exists: true })
                        },
                        None => if pages > MAX_COUNT {
                            Err(Code::CapCountTooLarge)
                        } else if dst + pages > MAX_SEL + 1 {
                            Err(Code::LastCapOverflow)
                        } else if range_used(v, map_table, dst as int, pages as int) {
                            Err(Code::InvArgs)
                        } else {
                            Ok(MapPlan { virt, phys, exists: false })
                        },
                    }
                }
            },
        },
    }
}

/// Does a mapping request get as far as checking that the selectors of a new mapping
/// capability are unused (see `spec_create_map`)?
pub open spec fn map_scans_range(
    v: Seq<Capability>,
    map_table: u64,
    target: Result<bool, Code>,
    mgate: Result<MGateObject, Code>,
    dst: u64,
    first: u64,
    pages: u64,
    perms: u32,
) -> bool {
    match mgate {
        Ok(m) => {
            &&& target == Ok::<bool, Code>(true)
            &&& m.addr.offset % PAGE_SIZE == 0
            &&& m.size % PAGE_SIZE == 0
            &&& perms & !m.perms == 0
            &&& first + pages <= u64::MAX
            &&& pages != 0
            &&& first + pages <= m.size / PAGE_SIZE
            &&& lookup(v, map_table, dst as int) is None
            &&& pages <= MAX_COUNT
            &&& dst + pages <= MAX_SEL + 1
        },
        Err(_) => false,
    }
}

/// Decides on a mapping request (see `spec_create_map`).
///
/// A new mapping capability whose selectors would end exactly at the end of the selector space
/// is left out: scanning its selectors overflows.
pub fn create_map(
    space: &CapSpace,
    map_table: u64,
    target: Result<bool, Code>,
    mgate: Result<MGateObject, Code>,
    dst: u64,
    first: u64,
    pages: u64,
    perms: u32,
) -> (r: Result<MapPlan, Code>)
    requires
        mgate matches Ok(m) ==> m.wf(),
        map_scans_range(space@, map_table, target, mgate, dst, first, pages, perms) ==> dst + pages
            <= u64::MAX,
    ensures
        r == spec_create_map(space@, map_table, target, mgate, dst, first, pages, perms),
        r matches Ok(p) && !p.exists ==> dst + pages <= u64::MAX,
{
    match target {
        Err(e) => {
            return Err(e);
        },
        Ok(vm) => {
            if !vm {
                return Err(Code::InvArgs);
            }
        },
    }
    let m = match mgate {
        Err(e) => {
            return Err(e);
        },
        Ok(m) => m,
    };
    let off = m.addr.offset;
    let size = m.size;
    assert(off & PAGE_MASK == off % 4096) by (bit_vector);
    assert(size & PAGE_MASK == size % 4096) by (bit_vector);
    assert(size >> 12u64 == size / 4096) by (bit_vector);
    if (off & PAGE_MASK) != 0 || (size & PAGE_MASK) != 0 {
        return Err(Code::InvArgs);
    }
    if (perms & !m.perms) != 0 {
        return Err(Code::InvArgs);
    }
    let total = size >> PAGE_BITS;
    if first.checked_add(pages).is_none() || pages == 0 || first >= total || first + pages > total {
        return Err(Code::InvArgs);
    }
    let virt = dst << PAGE_BITS;
    let phys = GlobAddr { tile: m.addr.tile, offset: off + PAGE_SIZE * first };
    proof {
        crate::caps::lemma_lookup_from(space@, map_table, dst as int, 0);
    }
    match space.lookup(map_table, dst) {
        Some(c) => {
            if space.cap(c).sels.count != pages {
                return Err(Code::InvArgs);
            }
            Ok(MapPlan { virt, phys, exists: true })
        },
        None => {
            match CapRngDesc::new(CapType::Mapping, dst, pages) {
                Err(e) => {
                    return Err(e);
                },
                Ok(_) => {},
            }
            if !space.range_unused(map_table, dst, pages) {
                assert(exists|s: int|
                    dst <= s < dst + pages && #[trigger] lookup(space@, map_table, s) is Some);
                return Err(Code::InvArgs);
            }
            Ok(MapPlan { virt, phys, exists: false })
        },
    }
}

/// A granted mapping maps the pages of memory gate `mgate` from page `first` on: the physical
/// address is that of `mgate`, `first` pages further, on its tile, whether the mapping
/// capability exists already or is still to be created. The mapped pages lie within `mgate`,
/// the permissions within its own, and the plan says whether the capability exists.
pub proof fn lemma_create_map_phys(
    v: Seq<Capability>,
    map_table: u64,
    target: Result<bool, Code>,
    mgate: Result<MGateObject, Code>,
    dst: u64,
    first: u64,
    pages: u64,
    perms: u32,
)
    requires
        mgate matches Ok(m) ==> m.addr.offset + m.size <= u64::MAX,
    ensures
        spec_create_map(v, map_table, target, mgate, dst, first, pages, perms) matches Ok(p) ==> {
            &&& target == Ok::<bool, Code>(true)
            &&& mgate matches Ok(m)
            &&& p.phys.tile == m.addr.tile
            &&& p.phys.offset == m.addr.offset + PAGE_SIZE * first
            &&& pages > 0
            &&& (first + pages) * PAGE_SIZE <= m.size
            &&& perms & !m.perms == 0
            &&& p.exists == (lookup(v, map_table, dst as int) is Some)
        },
{
    if let Ok(m) = mgate {
        let total = m.size / PAGE_SIZE;
        if first + pages <= total {
            assert(PAGE_SIZE * first <= PAGE_SIZE * total) by (nonlinear_arith)
                requires
                    first <= total,
            ;
            assert(PAGE_SIZE * total <= m.size) by (nonlinear_arith)
                requires
                    total == m.size / PAGE_SIZE,
            ;
            assert((first + pages) * PAGE_SIZE <= total * PAGE_SIZE) by (nonlinear_arith)
                requires
                    first + pages <= total,
            ;
        }
    }
}

/// Inserts the capability for a new mapping of `pages` pages at `dst` of `map_table`, for
/// mapping object `obj`, as child of the memory-gate capability at `mgate` of `act_table`,
/// once `create_map` has decided on a new one (which bounds its selectors).
pub fn insert_map_cap(
    space: &mut CapSpace,
    kmem: &mut KMemObject,
    map_table: u64,
    dst: u64,
    pages: u64,
    act_table: u64,
    mgate: u64,
    obj: u64,
    obj_size: usize,
) -> (r: Result<usize, Code>)
    requires
        space_wf(old(space)@),
        pages >= 1,
        dst + pages <= u64::MAX,
        !range_used(old(space)@, map_table, dst + 1, pages - 1),
        obj_size + CAP_SIZE <= usize::MAX,
    ensures
        space_wf(final(space)@),
        insert_outcome(
            old(space)@,
            *old(kmem),
            Capability {
                table: map_table,
                sels: SelRange { start: dst, count: pages },
                kind: KObjKind::Mapping,
                obj,
                obj_size,
                derived: false,
                parent: match lookup(old(space)@, act_table, mgate as int) {
                    Some(q) => Some(q as usize),
                    None => None,
                },
                live: true,
            },
            obj_size + CAP_SIZE,
            r,
            final(space)@,
            *final(kmem),
        ),
{
    proof {
        let v = space@;
        assert forall|j: int|
            0 <= j < v.len() && #[trigger] v[j].live && v[j].table == map_table implies !(dst
            < v[j].sels.start < dst + pages) by {
            if dst < v[j].sels.start < dst + pages {
                crate::caps::lemma_lookup(v, map_table, v[j].sels.start as int);
                assert(crate::caps::covers(v[j], map_table, v[j].sels.start as int));
                assert(lookup(v, map_table, v[j].sels.start as int) is Some);
            }
        }
    }
    space.insert_as_child(
        map_table,
        SelRange::new_range(dst, pages),
        KObjKind::Mapping,
        obj,
        obj_size,
        act_table,
        mgate,
        kmem,
    )
}

/// Is `s` the first place (from the search start on) where `n` contiguous endpoints are free?
pub open spec fn first_fit(e: Seq<bool>, n: int, s: int) -> bool {
    &&& s >= search_start(e)
    &&& free_run(e, s, n)
    &&& forall|t: int| search_start(e) <= t < s ==> !free_run(e, t, n)
}

/// Allocates the endpoints for an endpoint capability with `replies` reply slots (one plus
/// `replies` endpoints) on the tile of `mux`, charged to the endpoint quota of `tile`: at
/// `epid` if given, else the first free range. Returns the first endpoint.
///
/// Fails with `InvArgs` for more reply slots than `MAX_RB_SIZE`, with `NoSpace` if the quota
/// has too few endpoints left, with `InvState` if the tile is not initialized and `NoSpace` if
/// no range is free (without `epid`), and with `InvArgs` if the given range exceeds the tile's
/// endpoints or is not free.
pub fn alloc_ep(
    tile: &TileObject,
    quotas: &mut QuotaTable,
    mux: &mut TileMux,
    replies: u64,
    epid: u16,
) -> (r: Result<u16, Code>)
    requires
        quotas_wf(old(quotas)@),
        tile.ep_quota < old(quotas)@.len(),
        old(mux).wf(),
        epid != INVALID_EP ==> old(mux).eps() is Some,
    ensures
        final(mux).wf(),
        quotas_wf(final(quotas)@),
        final(mux).acts() == old(mux).acts(),
        final(mux).tile == old(mux).tile,
        final(mux).shutdown == old(mux).shutdown,
        r is Err ==> final(quotas)@ == old(quotas)@ && final(mux).eps() == old(mux).eps(),
        r matches Ok(s) ==> {
            let n = 1 + replies;
            &&& final(mux).eps() == Some(mark(old(mux).eps().unwrap(), s as int, n as int, true))
            &&& final(quotas)@ == old(quotas)@.update(
                tile.ep_quota as int,
                TileQuota {
                    left: (old(quotas)@[tile.ep_quota as int].left - n) as usize,
                    ..old(quotas)@[tile.ep_quota as int]
                },
            )
        },
        replies > MAX_RB_SIZE ==> r == Err::<u16, Code>(Code::InvArgs),
        replies <= MAX_RB_SIZE && old(quotas)@[tile.ep_quota as int].left < 1 + replies ==> r
            == Err::<u16, Code>(Code::NoSpace),
        replies <= MAX_RB_SIZE && old(quotas)@[tile.ep_quota as int].left >= 1 + replies ==> {
            let n = (1 + replies) as int;
            if epid == INVALID_EP {
                match old(mux).eps() {
                    None => r == Err::<u16, Code>(Code::InvState),
                    Some(e) => match r {
                        Ok(s) => first_fit(e, n, s as int),
                        Err(c) => c == Code::NoSpace && forall|t: int|
                            search_start(e) <= t ==> !free_run(e, t, n),
                    },
                }
            } else {
                let e = old(mux).eps().unwrap();
                if epid + n > e.len() || !free_run(e, epid as int, n) {
                    r == Err::<u16, Code>(Code::InvArgs)
                } else {
                    r == Ok::<u16, Code>(epid)
                }
            }
        },
{
    if replies > MAX_RB_SIZE {
        return Err(Code::InvArgs);
    }
    let n = 1 + replies as usize;
    if !tile.has_quota(quotas, n) {
        return Err(Code::NoSpace);
    }
    let start = if epid == INVALID_EP {
        match mux.find_eps(n) {
            Err(e) => {
                return Err(e);
            },
            Ok(s) => s,
        }
    } else {
        let avail = match mux.ep_count() {
            Some(a) => a,
            None => {
                return Err(Code::InvState);
            },
        };
        if epid as usize > avail || epid as usize + n > avail {
            return Err(Code::InvArgs);
        }
        if !mux.eps_free(epid, n) {
            return Err(Code::InvArgs);
        }
        epid
    };
    quotas.allocate(tile.ep_quota, n);
    mux.alloc_eps(start, n);
    Ok(start)
}

/// Checks a request for an endpoint capability with `replies` reply slots on the tile of
/// `tile` before an accelerator's multiplexer is asked for the endpoints: returns their number.
///
/// Fails with `InvArgs` for more reply slots than `MAX_RB_SIZE` and with `NoSpace` if the quota
/// has too few endpoints left.
pub fn alloc_ep_precheck(tile: &TileObject, quotas: &QuotaTable, replies: u64) -> (r: Result<usize, Code>)
    requires
        tile.ep_quota < quotas@.len(),
    ensures
        r == (if replies > MAX_RB_SIZE {
            Err(Code::InvArgs)
        } else if quotas@[tile.ep_quota as int].left < 1 + replies {
            Err(Code::NoSpace)
        } else {
            Ok((1 + replies) as usize)
        }),
{
    if replies > MAX_RB_SIZE {
        return Err(Code::InvArgs);
    }
    let n = 1 + replies as usize;
    if !tile.has_quota(quotas, n) {
        return Err(Code::NoSpace);
    }
    Ok(n)
}

/// Completes allocating `n` endpoints (see `alloc_ep_precheck`) on a tile whose accelerator
/// multiplexer chose them: `reply` is its answer, the first endpoint. They are taken from the
/// endpoint quota of `tile` and marked used at the multiplexer's state.
///
/// Fails with the multiplexer's error, changing nothing.
pub fn alloc_ep_accel(
    tile: &TileObject,
    quotas: &mut QuotaTable,
    mux: &mut TileMux,
    n: usize,
    reply: Result<u16, Code>,
) -> (r: Result<u16, Code>)
    requires
        quotas_wf(old(quotas)@),
        tile.ep_quota < old(quotas)@.len(),
        old(mux).wf(),
        reply is Ok ==> old(quotas)@[tile.ep_quota as int].left >= n,
        reply matches Ok(s) ==> (old(mux).eps() matches Some(e) ==> free_run(e, s as int, n as int)),
    ensures
        final(mux).acts() == old(mux).acts(),
        final(mux).tile == old(mux).tile,
        quotas_wf(final(quotas)@),
        match reply {
            Err(e) => r == Err::<u16, Code>(e) && final(quotas)@ == old(quotas)@ && final(mux).eps()
                == old(mux).eps(),
            Ok(s) => {
                &&& r == Ok::<u16, Code>(s)
                &&& final(quotas)@ == old(quotas)@.update(
                    tile.ep_quota as int,
                    TileQuota {
                        left: (old(quotas)@[tile.ep_quota as int].left - n) as usize,
                        ..old(quotas)@[tile.ep_quota as int]
                    },
                )
                &&& final(mux).eps() == match old(mux).eps() {
                    Some(e) => Some(mark(e, s as int, n as int, true)),
                    None => None,
                }
            },
        },
{
    match reply {
        Err(e) => Err(e),
        Ok(s) => {
            quotas.allocate(tile.ep_quota, n);
            mux.alloc_eps(s, n);
            Ok(s)
        },
    }
}

/// Is `x` a power of two?
pub open spec fn is_pow2(x: int) -> bool
    decreases x,
{
    if x <= 0 {
        false
    } else if x == 1 {
        true
    } else {
        x % 2 == 0 && is_pow2(x / 2)
    }
}

/// Is `x` a power of two?
pub fn is_power_of_two(x: u64) -> (r: bool)
    ensures
        r == is_pow2(x as int),
{
    if x == 0 {
        return false;
    }
    let mut y = x;
    while y > 1 && y % 2 == 0
        invariant
            y >= 1,
            is_pow2(x as int) == is_pow2(y as int),
        decreases y,
    {
        y = y / 2;
    }
    y == 1
}

/// Checks a request to make the region of memory gate `mgate` exclusive, where `mem_tile` is
/// the tile of the given memory tile object.
///
/// Fails with `InvArgs` if the memory gate is not on that tile, if its size is no power of two of at
/// least 8 bytes, or if its address is not 4-byte aligned or not aligned to its size.
pub fn mgate_mkexcl(mgate: &MGateObject, mem_tile: u64) -> (r: Result<(), Code>)
    ensures
        r == (if mem_tile != mgate.addr.tile {
            Err(Code::InvArgs)
        } else if mgate.size % 8 != 0 || !is_pow2(mgate.size as int) {
            Err(Code::InvArgs)
        } else if mgate.addr.offset % 4 != 0 || (mgate.addr.offset / 8) % (mgate.size / 8) != 0 {
            Err(Code::InvArgs)
        } else {
            Ok(())
        }),
{
    if mem_tile != mgate.tile_id() {
        return Err(Code::InvArgs);
    }
    let addr = mgate.offset();
    let size = mgate.size();
    if size % 8 != 0 || !is_power_of_two(size) {
        return Err(Code::InvArgs);
    }
    if addr % 4 != 0 || (addr / 8) % (size / 8) != 0 {
        return Err(Code::InvArgs);
    }
    Ok(())
}

/// The selector that stands for no capability.
pub const INVALID_SEL: u64 = 0xFFFF_FFFF_FFFF_FFFF;

/// Where the receive buffer of a gate being activated lies.
#[derive(Clone, Copy, Debug, PartialEq, Eq, Structural)]
pub enum RbufAddr {
    /// At this physical address.
    Phys(u64),
    /// At this offset into the memory of the given global address, once that is translated
    /// into a physical address of the receiving tile.
    Translate(GlobAddr, u64),
    /// At this offset in the receiving tile's local memory.
    Local(u64),
}

/// A memory gate offered as receive-buffer memory: its region and whether it lies on a
/// memory tile.
#[derive(Clone, Copy, Debug, PartialEq, Eq, Structural)]
pub struct RbufMem {
    pub addr: GlobAddr,
    pub size: u64,
    pub on_mem_tile: bool,
}

/// The receive buffer and reply endpoints for activating a receive gate.
#[derive(Clone, Copy, Debug, PartialEq, Eq, Structural)]
pub struct RecvConfig {
    pub rbuf: RbufAddr,
    pub reply_eps: Option<u16>,
}

/// The outcome of activating receive gate `rg` (the result of looking it up) on endpoint `ep`
/// of an activity whose standard endpoints start at `eps_start` and whose standard receive
/// buffers start at `act_rbuf` and take `std_rbufs` bytes.
///
/// With virtual memory (`has_vm`), the pager's reply endpoint gets the buffer behind the
/// standard ones; other endpoints get `rbuf_off` in `rbuf` (the lookup of the memory gate
/// given), which has to hold the whole buffer and lie on a memory tile. Without, the offset is
/// local and no memory gate may be given. An endpoint with reply slots needs one per message
/// slot, and uses the endpoints behind it for them.
///
/// Fails with `Exists` if the receive gate is already activated.
pub open spec fn spec_activate_rgate(
    ep: EPObject,
    eps_start: u16,
    act_rbuf: u64,
    std_rbufs: u64,
    rg: Result<RGateObject, Code>,
    has_vm: bool,
    rbuf_mem: u64,
    rbuf: Result<RbufMem, Code>,
    rbuf_off: u64,
) -> Result<RecvConfig, Code> {
    match rg {
        Err(e) => Err(e),
        Ok(g) => if g.addr != 0 {
            Err(Code::Exists)
        } else {
            let addr: Result<RbufAddr, Code> = if has_vm && ep.ep == eps_start + PG_REP_OFF {
                Ok(RbufAddr::Phys((act_rbuf + std_rbufs) as u64))
            } else if has_vm {
                match rbuf {
                    Err(e) => Err(e),
                    Ok(m) => if rbuf_off >= m.size || rbuf_off + pow2(g.order as nat) > m.size {
                        Err(Code::InvArgs)
                    } else if !m.on_mem_tile {
                        Err(Code::InvArgs)
                    } else {
                        Ok(RbufAddr::Translate(m.addr, rbuf_off))
                    },
                }
            } else if rbuf_mem != INVALID_SEL {
                Err(Code::InvArgs)
            } else {
                Ok(RbufAddr::Local(rbuf_off))
            };
            match addr {
                Err(e) => Err(e),
                Ok(a) => if ep.replies > 0 {
                    if ep.replies != pow2((g.order - g.msg_order) as nat) {
                        Err(Code::InvArgs)
                    } else {
                        Ok(RecvConfig { rbuf: a, reply_eps: Some((ep.ep + 1) as u16) })
                    }
                } else {
                    Ok(RecvConfig { rbuf: a, reply_eps: None })
                },
            }
        },
    }
}

/// Decides on activating a receive gate (see `spec_activate_rgate`).
pub fn activate_rgate(
    ep: &EPObject,
    eps_start: u16,
    act_rbuf: u64,
    std_rbufs: u64,
    rg: Result<RGateObject, Code>,
    has_vm: bool,
    rbuf_mem: u64,
    rbuf: Result<RbufMem, Code>,
    rbuf_off: u64,
) -> (r: Result<RecvConfig, Code>)
    requires
        eps_start + PG_REP_OFF <= u16::MAX,
        act_rbuf + std_rbufs <= u64::MAX,
        ep.ep < u16::MAX,
        rg matches Ok(g) ==> g.order < 64 && g.msg_order <= g.order && g.order - g.msg_order < 32,
    ensures
        r == spec_activate_rgate(
            *ep,
            eps_start,
            act_rbuf,
            std_rbufs,
            rg,
            has_vm,
            rbuf_mem,
            rbuf,
            rbuf_off,
        ),
{
    let g = match rg {
        Err(e) => {
            return Err(e);
        },
        Ok(g) => g,
    };
    if g.activated() {
        return Err(Code::Exists);
    }
    let addr = if has_vm && ep.ep == eps_start + PG_REP_OFF {
        RbufAddr::Phys(act_rbuf + std_rbufs)
    } else if has_vm {
        let m = match rbuf {
            Err(e) => {
                return Err(e);
            },
            Ok(m) => m,
        };
        if rbuf_off >= m.size {
            return Err(Code::InvArgs);
        }
        let size = g.size();
        if size > m.size - rbuf_off {
            return Err(Code::InvArgs);
        }
        if !m.on_mem_tile {
            return Err(Code::InvArgs);
        }
        RbufAddr::Translate(m.addr, rbuf_off)
    } else {
        if rbuf_mem != INVALID_SEL {
            return Err(Code::InvArgs);
        }
        RbufAddr::Local(rbuf_off)
    };
    if ep.replies > 0 {
        let d = g.order - g.msg_order;
        proof {
            vstd::bits::lemma_u64_pow2_no_overflow(d as nat);
            vstd::bits::lemma_u64_shl_is_mul(1, d as u64);
        }
        let slots = 1u64 << (d as u64);
        if ep.replies as u64 != slots {
            return Err(Code::InvArgs);
        }
        Ok(RecvConfig { rbuf: addr, reply_eps: Some(ep.ep + 1) })
    } else {
        Ok(RecvConfig { rbuf: addr, reply_eps: None })
    }
}

/// Completes activating receive gate `rg` on endpoint object `ep` (with identity `ep_obj`)
/// after `activate_rgate` decided it, with the receive buffer at (physical) address `addr`:
/// `configured` is the outcome of configuring the endpoint at its tile. On success that gate is
/// activated at the endpoint's tile and id and bound to the endpoint, and the endpoint holds a
/// receive gate; returns whether the serial input has to be routed to that gate.
///
/// Fails with the configuration error; then that gate is deactivated again.
pub fn activate_rgate_finish(
    rg: &mut RGateObject,
    ep: &mut EPObject,
    ep_obj: u64,
    addr: u64,
    configured: Result<(), Code>,
) -> (r: Result<bool, Code>)
    ensures
        match configured {
            Err(e) => {
                &&& r == Err::<bool, Code>(e)
                &&& *final(rg) == (RGateObject { loc: None, addr: 0, ..*old(rg) })
                &&& *final(ep) == *old(ep)
            },
            Ok(_) => {
                &&& r == Ok::<bool, Code>(old(rg).serial)
                &&& *final(rg) == (RGateObject {
                    loc: Some(EpLoc { tile: old(ep).tile_id, ep: old(ep).ep }),
                    addr,
                    ep: Some(ep_obj),
                    ..*old(rg)
                })
                &&& *final(ep) == (EPObject { gate: Some(GateKind::Recv), ..*old(ep) })
            },
        },
{
    let serial = rg.activate(ep.tile_id(), ep.ep(), addr);
    match configured {
        Err(e) => {
            rg.deactivate();
            Err(e)
        },
        Ok(_) => {
            rg.ep = Some(ep_obj);
            ep.set_gate(GateKind::Recv);
            Ok(serial)
        },
    }
}

/// What activating a send gate takes next.
#[derive(Clone, Copy, Debug, PartialEq, Eq, Structural)]
pub enum SendStep {
    /// Configure the endpoint now.
    Configure,
    /// Wait until the receive gate is activated, then configure the endpoint.
    WaitForRecv,
}

/// Decides on activating a send gate on endpoint `ep`: `sg_activated` is the lookup of the
/// send gate, with whether it is already on an endpoint, and `rgate_activated` whether its
/// receive gate is activated, if that still exists.
///
/// Fails with `InvArgs` for an endpoint with reply slots, with the lookup error, with `Exists`
/// if the send gate is already activated, and with `ObjectGone` if the receive gate was destroyed.
pub fn activate_sgate(ep: &EPObject, sg_activated: Result<bool, Code>, rgate_activated: Option<bool>) -> (r:
    Result<SendStep, Code>)
    ensures
        r == (if ep.replies != 0 {
            Err(Code::InvArgs)
        } else {
            match sg_activated {
                Err(e) => Err(e),
                Ok(true) => Err(Code::Exists),
                Ok(false) => match rgate_activated {
                    None => Err(Code::ObjectGone),
                    Some(true) => Ok(SendStep::Configure),
                    Some(false) => Ok(SendStep::WaitForRecv),
                },
            }
        }),
{
    if ep.replies() != 0 {
        return Err(Code::InvArgs);
    }
    match sg_activated {
        Err(e) => Err(e),
        Ok(true) => Err(Code::Exists),
        Ok(false) => match rgate_activated {
            None => Err(Code::ObjectGone),
            Some(true) => Ok(SendStep::Configure),
            Some(false) => Ok(SendStep::WaitForRecv),
        },
    }
}

/// Decides on activating a memory gate on endpoint `ep`: `mg_activated` is the lookup of the
/// memory gate, with whether it is already on an endpoint.
///
/// Fails with `InvArgs` for an endpoint with reply slots, with the lookup error, and with
/// `Exists` if the memory gate is already activated.
pub fn activate_mgate(ep: &EPObject, mg_activated: Result<bool, Code>) -> (r: Result<(), Code>)
    ensures
        r == (if ep.replies != 0 {
            Err(Code::InvArgs)
        } else {
            match mg_activated {
                Err(e) => Err(e),
                Ok(true) => Err(Code::Exists),
                Ok(false) => Ok(()),
            }
        }),
{
    if ep.replies() != 0 {
        return Err(Code::InvArgs);
    }
    match mg_activated {
        Err(e) => Err(e),
        Ok(true) => Err(Code::Exists),
        Ok(false) => Ok(()),
    }
}

/// Starts the derivation of a service for activity `act` from service `srv` (`srv_lookup` is
/// the result of looking it up): records the pending derivation at both.
///
/// Fails with `InvArgs` for zero sessions, with the lookup error, and with `Exists` if the
/// activity or the service has a derivation pending (then nothing is recorded).
pub fn derive_srv_req(
    act: &mut Activity,
    srv: &mut Service,
    srv_lookup: Result<(), Code>,
    sessions: u32,
    derive: DeriveSrv,
) -> (r: Result<(), Code>)
    ensures
        r is Err ==> *final(act) == *old(act) && *final(srv) == *old(srv),
        r == (if sessions == 0 {
            Err(Code::InvArgs)
        } else {
            match srv_lookup {
                Err(e) => Err(e),
                Ok(_) => if old(act).derive_srv is Some || old(srv).cur_derive is Some {
                    Err(Code::Exists)
                } else {
                    Ok(())
                },
            }
        }),
        r is Ok ==> *final(act) == (Activity { derive_srv: Some(derive), ..*old(act) }) && *final(
            srv) == (Service { cur_derive: Some(old(act).id), ..*old(srv) }),
{
    if sessions == 0 {
        return Err(Code::InvArgs);
    }
    if let Err(e) = srv_lookup {
        return Err(e);
    }
    act.start_derive(derive)?;
    if let Err(e) = srv.set_derive_act(act.id) {
        act.finish_derive();
        return Err(e);
    }
    Ok(())
}

/// Takes back a derivation started with `derive_srv_req` whose request could not be sent to
/// the service.
pub fn derive_srv_abort(act: &mut Activity, srv: &mut Service)
    ensures
        *final(act) == (Activity { derive_srv: None, ..*old(act) }),
        *final(srv) == (Service { cur_derive: None, ..*old(srv) }),
{
    let _ = srv.fetch_derive_act();
    let _ = act.finish_derive();
}

/// Takes the pending derivation of a service derivation from the
/// service and from the activity `der_act` that started it.
///
/// Fails with `NotFound` if the service has none pending and with `InvState` if the
/// activity has none.
pub fn take_pending_derive(srv: &mut Service, der_act: &mut Activity) -> (r: Result<DeriveSrv, Code>)
    ensures
        *final(srv) == (Service { cur_derive: None, ..*old(srv) }),
        old(srv).cur_derive is None ==> r == Err::<DeriveSrv, Code>(Code::NotFound) && *final(
            der_act) == *old(der_act),
        old(srv).cur_derive is Some ==> *final(der_act) == (Activity {
            derive_srv: None,
            ..*old(der_act)
        }) && match old(der_act).derive_srv {
            Some(d) => r == Ok::<DeriveSrv, Code>(d),
            None => r == Err::<DeriveSrv, Code>(Code::InvState),
        },
{
    srv.fetch_derive_act()?;
    match der_act.finish_derive() {
        Some(d) => Ok(d),
        None => Err(Code::InvState),
    }
}

/// The space, the deriving activity's kernel memory and the code it is told after handing the
/// results of a granted service derivation to it (see `derive_srv_caps`): the lookups of the
/// service and the send gate fail with their errors, then the send gate is obtained and the
/// new service capability inserted, each failing as `insert_result` says.
pub open spec fn spec_derive_srv_caps(
    v: Seq<Capability>,
    k: KMemObject,
    table: u64,
    sgate: u64,
    der_table: u64,
    derive: DeriveSrv,
    obj: u64,
    obj_size: usize,
) -> (Seq<Capability>, KMemObject, Code) {
    match spec_get_kobj(v, der_table, derive.src_srv as int, KObjKind::Serv) {
        Err(e) => (v, k, e),
        Ok(p) => match spec_get_kobj(v, table, sgate as int, KObjKind::SGate) {
            Err(e) => (v, k, e),
            Ok(g) => {
                let (v1, k1, r1) = obtain_result(v, k, der_table, derive.dst_sgate, g as int);
                match r1 {
                    Err(e) => (v, k, e),
                    Ok(_) => {
                        let (v2, k2, r2) = insert_result(
                            v1,
                            k1,
                            single_cap(der_table, derive.dst_srv, KObjKind::Serv, obj, obj_size, Some(p)),
                            obj_size + CAP_SIZE,
                        );
                        (v2, k2, match r2 {
                            Ok(_) => Code::Success,
                            Err(e) => e,
                        })
                    },
                }
            },
        },
    }
}

/// Hands the results of a granted service derivation to the deriving activity's table
/// `der_table`: the send gate at `sgate` of the server's table `table` is obtained to
/// `derive.dst_sgate`, and a new service object `obj` to `derive.dst_srv`, as child of the
/// service at `derive.src_srv`; both are charged to `kmem`, the deriving activity's kernel
/// memory. Returns the code that the deriving activity is told.
pub fn derive_srv_caps(
    space: &mut CapSpace,
    kmem: &mut KMemObject,
    table: u64,
    sgate: u64,
    der_table: u64,
    derive: DeriveSrv,
    obj: u64,
    obj_size: usize,
) -> (r: Code)
    requires
        space_wf(old(space)@),
        obj_size + CAP_SIZE <= usize::MAX,
    ensures
        space_wf(final(space)@),
        (final(space)@, *final(kmem), r) == spec_derive_srv_caps(
            old(space)@,
            *old(kmem),
            table,
            sgate,
            der_table,
            derive,
            obj,
            obj_size,
        ),
{
    let p = match space.get_kobj(der_table, derive.src_srv, KObjKind::Serv) {
        Err(e) => {
            return e;
        },
        Ok(p) => p,
    };
    let g = match space.get_kobj(table, sgate, KObjKind::SGate) {
        Err(e) => {
            return e;
        },
        Ok(g) => g,
    };
    if let Err(e) = space.obtain(der_table, derive.dst_sgate, g, kmem) {
        return e;
    }
    match space.insert(
        der_table,
        SelRange::new(derive.dst_srv),
        KObjKind::Serv,
        obj,
        obj_size,
        Some(p),
        kmem,
    ) {
        Err(e) => e,
        Ok(_) => Code::Success,
    }
}

/// The server's whole answer to a service derivation (the system call that finishes it): takes
/// the pending derivation from the service `srv` and the deriving activity `der_act` (see
/// `take_pending_derive`), and, if the server granted it (`result` is `Success`), hands the send
/// gate and the new service to the deriving activity (see `derive_srv_caps`). Returns the
/// server's answer and, once a derivation was taken, the derivation with the code that the
/// deriving activity is told: `result` if the server declined, else what handing the results
/// gave. The server's answer fails with that code unless it is `Success`.
pub fn derive_srv_fin(
    space: &mut CapSpace,
    kmem: &mut KMemObject,
    srv: &mut Service,
    der_act: &mut Activity,
    table: u64,
    sgate: u64,
    der_table: u64,
    result: Code,
    obj: u64,
    obj_size: usize,
) -> (r: (Result<(), Code>, Option<(DeriveSrv, Code)>))
    requires
        space_wf(old(space)@),
        obj_size + CAP_SIZE <= usize::MAX,
    ensures
        space_wf(final(space)@),
        *final(srv) == (Service { cur_derive: None, ..*old(srv) }),
        match (old(srv).cur_derive, old(der_act).derive_srv) {
            (None, _) => {
                &&& r == (Err::<(), Code>(Code::NotFound), None::<(DeriveSrv, Code)>)
                &&& *final(der_act) == *old(der_act)
                &&& final(space)@ == old(space)@ && *final(kmem) == *old(kmem)
            },
            (Some(_), None) => {
                &&& r == (Err::<(), Code>(Code::InvState), None::<(DeriveSrv, Code)>)
                &&& *final(der_act) == (Activity { derive_srv: None, ..*old(der_act) })
                &&& final(space)@ == old(space)@ && *final(kmem) == *old(kmem)
            },
            (Some(_), Some(d)) => {
                let (v, k, res) = if result == Code::Success {
                    spec_derive_srv_caps(old(space)@, *old(kmem), table, sgate, der_table, d, obj, obj_size)
                } else {
                    (old(space)@, *old(kmem), result)
                };
                &&& *final(der_act) == (Activity { derive_srv: None, ..*old(der_act) })
                &&& final(space)@ == v && *final(kmem) == k
                &&& r.1 == Some((d, res))
                &&& r.0 == if res == Code::Success {
                    Ok::<(), Code>(())
                } else {
                    Err::<(), Code>(res)
                }
            },
        },
{
    let d = match take_pending_derive(srv, der_act) {
        Err(e) => {
            return (Err(e), None);
        },
        Ok(d) => d,
    };
    let res = if result == Code::Success {
        derive_srv_caps(space, kmem, table, sgate, der_table, d, obj, obj_size)
    } else {
        result
    };
    if res == Code::Success {
        (Ok(()), Some((d, res)))
    } else {
        (Err(res), Some((d, res)))
    }
}

/// A session object: its identity, the session id the server gave it, and the creator of the
/// service it belongs to.
#[derive(Clone, Copy, Debug, PartialEq, Eq, Structural)]
pub struct SessInfo {
    pub obj: u64,
    pub ident: u64,
    pub creator: u64,
}

/// The first entry of `sessions` (from `from` on) for session object `obj`.
pub open spec fn sess_of(sessions: Seq<SessInfo>, obj: u64, from: int) -> Option<SessInfo>
    decreases sessions.len() - from,
{
    if from < 0 || from >= sessions.len() {
        None
    } else if sessions[from].obj == obj {
        Some(sessions[from])
    } else {
        sess_of(sessions, obj, from + 1)
    }
}

/// Is capability `c` of `v` a live session capability derived from `root` with session id
/// `sid`?
pub open spec fn is_sess_child(v: Seq<Capability>, sessions: Seq<SessInfo>, c: int, root: int, sid: u64) -> bool {
    &&& crate::caps::live_child(v, c, root)
    &&& v[c].kind == KObjKind::Sess
    &&& sess_of(sessions, v[c].obj, 0) matches Some(s) && s.ident == sid
}

/// The newest (highest-indexed, below `k`) session capability with id `sid` derived from
/// `root`.
pub open spec fn newest_sess(v: Seq<Capability>, sessions: Seq<SessInfo>, root: int, sid: u64, k: int) -> Option<
    int,
>
    decreases k,
{
    if k <= 0 {
        None
    } else if is_sess_child(v, sessions, k - 1, root, sid) {
        Some(k - 1)
    } else {
        newest_sess(v, sessions, root, sid, k - 1)
    }
}

/// Finds the entry for session object `obj` (see `sess_of`).
pub fn find_sess(sessions: &Vec<SessInfo>, obj: u64) -> (r: Option<SessInfo>)
    ensures
        r == sess_of(sessions@, obj, 0),
{
    let mut i: usize = 0;
    while i < sessions.len()
        invariant
            i <= sessions@.len(),
            sess_of(sessions@, obj, 0) == sess_of(sessions@, obj, i as int),
        decreases sessions@.len() - i,
    {
        if sessions[i].obj == obj {
            return Some(sessions[i]);
        }
        i += 1;
    }
    None
}

/// Gives the activity `target` refers to (the result of looking it up) access to the session
/// with id `sid` of the service at `srv` of the caller's table `act`: it obtains, at `dst`, the
/// newest session capability with that id among those derived from the service's root
/// capability; `srv_creator` is the creator of the service object, `sessions` describes the
/// session objects, and `kmem` is the target's kernel memory.
///
/// Fails with the lookup error, with `InvArgs` if the target is the caller, with `InvCap` if
/// there is no capability at `srv` and `InvArgs` if it is no service, with `InvArgs` if there
/// is no such session, with `NoPerm` if it belongs to another creator, and with the error of
/// obtaining it.
#[verifier::loop_isolation(false)]
pub fn get_sess(
    space: &mut CapSpace,
    kmem: &mut KMemObject,
    act: u64,
    target: Result<u64, Code>,
    srv: u64,
    dst: u64,
    sid: u64,
    srv_creator: u64,
    sessions: &Vec<SessInfo>,
) -> (r: Result<usize, Code>)
    requires
        space_wf(old(space)@),
    ensures
        space_wf(final(space)@),
        r is Err ==> final(space)@ == old(space)@ && *final(kmem) == *old(kmem),
        match target {
            Err(e) => r == Err::<usize, Code>(e),
            Ok(t) => if t == act {
                r == Err::<usize, Code>(Code::InvArgs)
            } else {
                match spec_get_kobj(old(space)@, act, srv as int, KObjKind::Serv) {
                    Err(e) => r == Err::<usize, Code>(e),
                    Ok(p) => {
                        let root = crate::caps::root_of(old(space)@, p as int);
                        match newest_sess(old(space)@, sessions@, root, sid, old(space)@.len() as int) {
                            None => r == Err::<usize, Code>(Code::InvArgs),
                            Some(c) => if sess_of(sessions@, old(space)@[c].obj, 0).unwrap().creator
                                != srv_creator {
                                r == Err::<usize, Code>(Code::NoPerm)
                            } else {
                                (final(space)@, *final(kmem), r) == crate::caps::obtain_result(
                                    old(space)@,
                                    *old(kmem),
                                    t,
                                    dst,
                                    c,
                                )
                            },
                        }
                    },
                }
            },
        },
{
    let t = match target {
        Err(e) => {
            return Err(e);
        },
        Ok(t) => t,
    };
    if t == act {
        return Err(Code::InvArgs);
    }
    let p = match space.get_kobj(act, srv, KObjKind::Serv) {
        Err(e) => {
            return Err(e);
        },
        Ok(p) => p,
    };
    let root = space.get_root(p);
    let mut k = space.len();
    while k > 0
        invariant
            k <= space@.len(),
            root < space@.len(),
            space@ == old(space)@,
            *kmem == *old(kmem),
            newest_sess(space@, sessions@, root as int, sid, space@.len() as int) == newest_sess(
                space@,
                sessions@,
                root as int,
                sid,
                k as int,
            ),
        decreases k,
    {
        let c = space.cap(k - 1);
        if c.live && c.parent == Some(root) && c.kind == KObjKind::Sess {
            match find_sess(sessions, c.obj) {
                Some(s) => {
                    if s.ident == sid {
                        assert(is_sess_child(space@, sessions@, k - 1, root as int, sid));
                        if s.creator != srv_creator {
                            return Err(Code::NoPerm);
                        }
                        return space.obtain(t, dst, k - 1, kmem);
                    }
                },
                None => {},
            }
        }
        k -= 1;
    }
    Err(Code::InvArgs)
}

/// Lemma: after appending `c`, a selector is found where it was found before, and otherwise at
/// the new capability if that occupies it.
pub proof fn lemma_lookup_push(v: Seq<Capability>, c: Capability, t: u64, sel: int, from: int)
    requires
        0 <= from <= v.len(),
    ensures
        lookup_from(v.push(c), t, sel, from) == match lookup_from(v, t, sel, from) {
            Some(i) => Some(i),
            None => if crate::caps::covers(c, t, sel) {
                Some(v.len() as int)
            } else {
                None
            },
        },
    decreases v.len() - from,
{
    if from < v.len() {
        assert(v.push(c)[from] == v[from]);
        lemma_lookup_push(v, c, t, sel, from + 1);
    } else {
        assert(v.push(c)[from] == c);
        assert(lookup_from(v.push(c), t, sel, from + 1) is None);
    }
}

/// Lemma: a selector found in `v` is found at the same place in every extension of `v`.
pub proof fn lemma_lookup_prefix(v: Seq<Capability>, w: Seq<Capability>, t: u64, sel: int, from: int)
    requires
        0 <= from,
        v.len() <= w.len(),
        w.subrange(0, v.len() as int) == v,
        lookup_from(v, t, sel, from) is Some,
    ensures
        lookup_from(w, t, sel, from) == lookup_from(v, t, sel, from),
    decreases v.len() - from,
{
    if from < v.len() {
        assert(w[from] == w.subrange(0, v.len() as int)[from]);
        if !crate::caps::covers(v[from], t, sel) {
            lemma_lookup_prefix(v, w, t, sel, from + 1);
        }
    }
}

/// Lemma: copying keeps every capability there was and only appends.
pub proof fn lemma_copy_range_extends(
    v: Seq<Capability>,
    k: KMemObject,
    src: u64,
    dst: u64,
    ss: int,
    ds: int,
    i: int,
    n: int,
)
    ensures
        ({
            let w = copy_range(v, k, src, dst, ss, ds, i, n).0;
            v.len() <= w.len() && w.subrange(0, v.len() as int) == v
        }),
    decreases n - i,
{
    if i >= 0 && i < n {
        match lookup(v, src, ss + i) {
            None => lemma_copy_range_extends(v, k, src, dst, ss, ds, i + 1, n),
            Some(c) => {
                if lookup(v, dst, ds + i) is None && k.left >= CAP_SIZE {
                    let v1 = v.push(copy_of(v, c, dst, ds + i));
                    let k1 = charge(k, CAP_SIZE as int);
                    lemma_copy_range_extends(v1, k1, src, dst, ss, ds, i + 1, n);
                    let w = copy_range(v1, k1, src, dst, ss, ds, i + 1, n).0;
                    assert(w.subrange(0, v.len() as int) =~= w.subrange(0, v1.len() as int).subrange(
                        0,
                        v.len() as int,
                    ));
                    assert(v1.subrange(0, v.len() as int) =~= v);
                } else {
                    assert(v.subrange(0, v.len() as int) =~= v);
                }
            },
        }
    } else {
        assert(v.subrange(0, v.len() as int) =~= v);
    }
}

/// Does the selector `ds + j` of `dst` in `w` hold a copy of the capability `c` of `v`?
pub open spec fn holds_copy(v: Seq<Capability>, w: Seq<Capability>, c: int, dst: u64, sel: int) -> bool {
    match lookup(w, dst, sel) {
        Some(d) => 0 <= d < w.len() && w[d] == copy_of(v, c, dst, sel),
        None => false,
    }
}

/// Lemma: when copying succeeds into free destination selectors of another table, every
/// occupied source selector from `i` on has a copy at its destination selector.
pub proof fn lemma_copy_range_copies(
    v: Seq<Capability>,
    k: KMemObject,
    src: u64,
    dst: u64,
    ss: int,
    ds: int,
    i: int,
    n: int,
)
    requires
        src != dst,
        0 <= i,
        0 <= ds,
        ds + n <= u64::MAX + 1,
        forall|s: int| ds + i <= s < ds + n ==> #[trigger] lookup(v, dst, s) is None,
        copy_range(v, k, src, dst, ss, ds, i, n).2 is Ok,
    ensures
        forall|j: int|
            i <= j < n && #[trigger] lookup(v, src, ss + j) is Some ==> holds_copy(
                v,
                copy_range(v, k, src, dst, ss, ds, i, n).0,
                lookup(v, src, ss + j).unwrap(),
                dst,
                ds + j,
            ),
    decreases n - i,
{
    if i < n {
        let w = copy_range(v, k, src, dst, ss, ds, i, n).0;
        match lookup(v, src, ss + i) {
            None => {
                lemma_copy_range_copies(v, k, src, dst, ss, ds, i + 1, n);
            },
            Some(c) => {
                assert(lookup(v, dst, ds + i) is None);
                let cap = copy_of(v, c, dst, ds + i);
                let v1 = v.push(cap);
                let k1 = charge(k, CAP_SIZE as int);
                assert forall|s: int| ds + i + 1 <= s < ds + n implies #[trigger] lookup(v1, dst, s)
                    is None by {
                    lemma_lookup_push(v, cap, dst, s, 0);
                    assert(lookup(v, dst, s) is None);
                }
                lemma_copy_range_copies(v1, k1, src, dst, ss, ds, i + 1, n);
                lemma_copy_range_extends(v1, k1, src, dst, ss, ds, i + 1, n);
                crate::caps::lemma_lookup_from(v, src, ss + i, 0);
                assert forall|j: int| i <= j < n && #[trigger] lookup(v, src, ss + j) is Some implies holds_copy(
                    v,
                    w,
                    lookup(v, src, ss + j).unwrap(),
                    dst,
                    ds + j,
                ) by {
                    lemma_lookup_push(v, cap, src, ss + j, 0);
                    crate::caps::lemma_lookup_from(v, src, ss + j, 0);
                    let cj = lookup(v, src, ss + j).unwrap();
                    if j == i {
                        lemma_lookup_push(v, cap, dst, ds + i, 0);
                        assert(lookup(v1, dst, ds + i) == Some(v.len() as int));
                        lemma_lookup_prefix(v1, w, dst, ds + i, 0);
                        assert(w[v.len() as int] == w.subrange(0, v1.len() as int)[v.len() as int]);
                    } else {
                        assert(lookup(v1, src, ss + j) == lookup(v, src, ss + j));
                        assert(v1[cj] == v[cj]);
                        assert(copy_of(v1, cj, dst, ds + j) == copy_of(v, cj, dst, ds + j));
                    }
                }
            },
        }
    }
}

/// Law: a successful exchange gives the receiving activity, at each selector of its range, a
/// copy (a child of the source capability) of the capability at the corresponding selector of the
/// other range, wherever that selector held one.
pub proof fn lemma_exchange_copies(
    v: Seq<Capability>,
    k: KMemObject,
    act1: u64,
    act2: u64,
    c1: CapRngDesc,
    c2: CapRngDesc,
    obtain: bool,
)
    requires
        c1.start + c1.count <= u64::MAX,
        c2.start + c2.count <= u64::MAX,
        spec_do_exchange(v, k, act1, act2, c1, c2, obtain).2 is Ok,
    ensures
        ({
            let (src, dst) = if obtain {
                (act2, act1)
            } else {
                (act1, act2)
            };
            let (src_rng, dst_rng) = if obtain {
                (c2, c1)
            } else {
                (c1, c2)
            };
            let w = spec_do_exchange(v, k, act1, act2, c1, c2, obtain).0;
            forall|j: int|
                0 <= j < c2.count && #[trigger] lookup(v, src, src_rng.start + j) is Some
                    ==> holds_copy(
                    v,
                    w,
                    lookup(v, src, src_rng.start + j).unwrap(),
                    dst,
                    dst_rng.start + j,
                )
        }),
{
    let src = if obtain {
        act2
    } else {
        act1
    };
    let dst = if obtain {
        act1
    } else {
        act2
    };
    let src_rng = if obtain {
        c2
    } else {
        c1
    };
    let dst_rng = if obtain {
        c1
    } else {
        c2
    };
    assert(!range_used(v, dst, dst_rng.start as int, dst_rng.count as int));
    assert forall|s: int| dst_rng.start <= s < dst_rng.start + c2.count implies #[trigger] lookup(
        v,
        dst,
        s,
    ) is None by {
        if lookup(v, dst, s) is Some {
            assert(range_used(v, dst, dst_rng.start as int, dst_rng.count as int));
        }
    }
    lemma_copy_range_copies(
        v,
        k,
        src,
        dst,
        src_rng.start as int,
        dst_rng.start as int,
        0,
        c2.count as int,
    );
}

} // verus!
