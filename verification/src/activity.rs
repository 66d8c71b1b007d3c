//! Creating activities: the checks of a creation request, the bookkeeping at the tile and the
//! capabilities that parent and child get.
use vstd::prelude::*;
use vstd::arithmetic::power2::pow2;

use crate::caps::{
    insert_result, lookup, obtain_result, space_wf, spec_get_kobj, CapSpace, Capability,
};
use crate::eps::{free_run, mark, search_start};
use crate::errors::Code;
use crate::kobjs::{EPObject, InvalidateType, KMemObject, KObjKind, TileQuota, CAP_SIZE};
use crate::selrange::{CapRngDesc, CapType, SelRange};
use crate::sysc::{kmems_known, SEL_ACT, SEL_KMEM, SEL_TILE};
use crate::tcu::STD_EPS_COUNT;
use crate::tiles::{
    quotas_wf, spec_next_id, ActSel, ActState, StopAction, WaitTarget, Activity, ActivityMng, QuotaTable, TileMux,
    TileObject, FIRST_FREE_SEL, MAX_ACTS,
};

verus! {

/// Checks a request to create an activity with the selectors `dst` (its own capability and
/// its two pager endpoints) on the tile of `tile` (`tile_lookup` is the result of looking it
/// up), managed by `mux`, with kernel memory `kmem_lookup` (the result of looking it up).
/// Returns the first of the endpoints found for the activity's standard endpoints.
///
/// Fails with `InvArgs` for other than three object selectors, an empty name, or a tile
/// object whose endpoint quota cannot hold the standard endpoints; with the lookup errors;
/// with the error of finding the endpoints; and with `NotSup` for sharing a tile without
/// virtual memory.
pub fn create_activity_check(
    dst: CapRngDesc,
    name_len: usize,
    tile_lookup: Result<(), Code>,
    tile: &TileObject,
    quotas: &QuotaTable,
    kmem_lookup: Result<(), Code>,
    mux: &TileMux,
    virtmem: bool,
) -> (r: Result<u16, Code>)
    requires
        tile.ep_quota < quotas@.len(),
        mux.wf(),
    ensures
        dst.count != 3 || dst.ty != CapType::Object ==> r == Err::<u16, Code>(Code::InvArgs),
        dst.count == 3 && dst.ty == CapType::Object && name_len == 0 ==> r == Err::<u16, Code>(
            Code::InvArgs,
        ),
        dst.count == 3 && dst.ty == CapType::Object && name_len > 0 ==> match tile_lookup {
            Err(e) => r == Err::<u16, Code>(e),
            Ok(_) => if quotas@[tile.ep_quota as int].left < STD_EPS_COUNT {
                r == Err::<u16, Code>(Code::InvArgs)
            } else {
                match kmem_lookup {
                    Err(e) => r == Err::<u16, Code>(e),
                    Ok(_) => match mux.eps() {
                        None => r == Err::<u16, Code>(Code::InvState),
                        Some(e) => if forall|t: int|
                            search_start(e) <= t ==> !free_run(e, t, STD_EPS_COUNT as int) {
                            r == Err::<u16, Code>(Code::NoSpace)
                        } else if mux.acts().len() > 0 && !virtmem {
                            r == Err::<u16, Code>(Code::NotSup)
                        } else {
                            r matches Ok(s) && crate::sysc::first_fit(e, STD_EPS_COUNT as int, s as int)
                        },
                    },
                }
            },
        },
{
    if dst.count != 3 || dst.ty != CapType::Object {
        return Err(Code::InvArgs);
    }
    if name_len == 0 {
        return Err(Code::InvArgs);
    }
    if let Err(e) = tile_lookup {
        return Err(e);
    }
    if !tile.has_quota(quotas, STD_EPS_COUNT) {
        return Err(Code::InvArgs);
    }
    if let Err(e) = kmem_lookup {
        return Err(e);
    }
    let eps = match mux.find_eps(STD_EPS_COUNT) {
        Err(e) => {
            return Err(e);
        },
        Ok(s) => s,
    };
    if mux.has_activities() && !virtmem {
        return Err(Code::NotSup);
    }
    Ok(eps)
}

/// Creates the kernel's state for a new activity on the tile of `tile` and `mux`, with its
/// standard endpoints from `eps_start` on: takes the next free activity id, allocates the
/// standard endpoints at the multiplexer and in the tile's endpoint quota, and registers the
/// activity at the tile object (with the parent's activity id and the selector of the new
/// activity's capability there, if it has a parent), at the multiplexer and in `acts`.
///
/// Fails with `NoSpace` if all activity ids are in use (changing nothing else).
pub fn create_activity(
    acts: &mut ActivityMng,
    mux: &mut TileMux,
    tile: &mut TileObject,
    quotas: &mut QuotaTable,
    parent: Option<ActSel>,
    eps_start: u16,
    is_root: bool,
) -> (r: Result<Activity, Code>)
    requires
        old(acts).wf(),
        old(acts).count < usize::MAX,
        old(mux).wf(),
        old(mux).eps() matches Some(e) && free_run(e, eps_start as int, STD_EPS_COUNT as int),
        quotas_wf(old(quotas)@),
        old(tile).ep_quota < old(quotas)@.len(),
        old(quotas)@[old(tile).ep_quota as int].left >= STD_EPS_COUNT,
    ensures
        final(acts).wf(),
        final(mux).wf(),
        quotas_wf(final(quotas)@),
        match spec_next_id(old(acts).used(), old(acts).next_id as int) {
            None => {
                &&& r == Err::<Activity, Code>(Code::NoSpace)
                &&& final(acts).used() == old(acts).used()
                &&& final(acts).count == old(acts).count
                &&& *final(mux) == *old(mux)
                &&& *final(tile) == *old(tile)
                &&& final(quotas)@ == old(quotas)@
            },
            Some(id) => {
                &&& r == Ok::<Activity, Code>(
                    Activity {
                        id: id as u64,
                        tile: old(tile).tile,
                        eps_start,
                        is_root,
                        state: crate::tiles::ActState::Init,
                        exit_code: None,
                        first_sel: FIRST_FREE_SEL,
                        derive_srv: None,
                    },
                )
                &&& final(acts).used() == old(acts).used().update(id, true)
                &&& final(acts).count == old(acts).count + 1
                &&& final(acts).next_id == id + 1
                &&& final(mux).eps() == Some(
                    mark(old(mux).eps().unwrap(), eps_start as int, STD_EPS_COUNT as int, true),
                )
                &&& final(mux).acts() == old(mux).acts().push(id as u64)
                &&& final(mux).tile == old(mux).tile
                &&& final(quotas)@ == old(quotas)@.update(
                    old(tile).ep_quota as int,
                    TileQuota {
                        left: (old(quotas)@[old(tile).ep_quota as int].left - STD_EPS_COUNT) as usize,
                        ..old(quotas)@[old(tile).ep_quota as int]
                    },
                )
                &&& final(tile).acts() == match parent {
                    Some(p) => old(tile).acts().push(p),
                    None => old(tile).acts(),
                }
                &&& final(tile).tile == old(tile).tile
                &&& final(tile).ep_quota == old(tile).ep_quota
                &&& final(tile).exregs_quota == old(tile).exregs_quota
                &&& final(tile).derived == old(tile).derived
            },
        },
{
    let id = match acts.get_id() {
        Err(e) => {
            return Err(e);
        },
        Ok(id) => id,
    };
    proof {
        crate::tiles::lemma_next_id_unused(old(acts).used(), old(acts).next_id as int);
    }
    let act = Activity::new(id as u64, tile.tile, eps_start, is_root);
    mux.alloc_eps(eps_start, STD_EPS_COUNT);
    quotas.allocate(tile.ep_quota, STD_EPS_COUNT);
    match parent {
        Some(p) => tile.add_activity(p.act, p.sel),
        None => {},
    }
    acts.add(id);
    mux.add_activity(id as u64);
    Ok(act)
}

/// The capabilities of a new activity, step by step as `create_activity_caps` makes them,
/// from the step that obtains the kernel memory on; see there.
pub open spec fn spec_activity_caps(
    v: Seq<Capability>,
    ks: Seq<KMemObject>,
    parent: u64,
    child: u64,
    pk: int,
    dst: u64,
    kmem_sel: u64,
    tile_sel: u64,
    act_obj: u64,
    act_size: usize,
    pager: Option<(u64, u64)>,
    ep_size: usize,
) -> (Seq<Capability>, Seq<KMemObject>, Result<(), Code>) {
    match lookup(v, parent, kmem_sel as int) {
        None => (v, ks, Err(Code::InvCap)),
        Some(kc) => {
            let ck = v[kc].obj as int;
            let s1 = obtain_result(v, ks[ck], child, SEL_KMEM, kc);
            let v1 = s1.0;
            let ks1 = ks.update(ck, s1.1);
            match s1.2 {
                Err(e) => (v1, ks1, Err(e)),
                Ok(_) => match lookup(v1, parent, tile_sel as int) {
                    None => (v1, ks1, Err(Code::InvCap)),
                    Some(tc) => {
                        let s2 = obtain_result(v1, ks1[ck], child, SEL_TILE, tc);
                        let v2 = s2.0;
                        let ks2 = ks1.update(ck, s2.1);
                        match s2.2 {
                            Err(e) => (v2, ks2, Err(e)),
                            Ok(_) => {
                                let act_cap = Capability {
                                    table: parent,
                                    sels: SelRange { start: dst, count: 1 },
                                    kind: KObjKind::Activity,
                                    obj: act_obj,
                                    obj_size: act_size,
                                    derived: false,
                                    parent: match lookup(v2, parent, kmem_sel as int) {
                                        Some(q) => Some(q as usize),
                                        None => None,
                                    },
                                    live: true,
                                };
                                let s3 = insert_result(v2, ks2[pk], act_cap, act_size + CAP_SIZE);
                                let v3 = s3.0;
                                let ks3 = ks2.update(pk, s3.1);
                                match s3.2 {
                                    Err(e) => (v3, ks3, Err(e)),
                                    Ok(ac) => {
                                        let s4 = obtain_result(v3, ks3[ck], child, SEL_ACT, ac as int);
                                        let v4 = s4.0;
                                        let ks4 = ks3.update(ck, s4.1);
                                        match s4.2 {
                                            Err(e) => (v4, ks4, Err(e)),
                                            Ok(_) => spec_pager_caps(
                                                v4,
                                                ks4,
                                                parent,
                                                pk,
                                                dst,
                                                ac,
                                                pager,
                                                ep_size,
                                            ),
                                        }
                                    },
                                }
                            },
                        }
                    },
                },
            }
        },
    }
}

/// The endpoint capabilities for the pager endpoints of a new activity, at the two selectors
/// behind its own capability `ac` (at `dst`), as children of it, charged to `ks[pk]`.
pub open spec fn spec_pager_caps(
    v: Seq<Capability>,
    ks: Seq<KMemObject>,
    parent: u64,
    pk: int,
    dst: u64,
    ac: usize,
    pager: Option<(u64, u64)>,
    ep_size: usize,
) -> (Seq<Capability>, Seq<KMemObject>, Result<(), Code>) {
    match pager {
        None => (v, ks, Ok(())),
        Some((o1, o2)) => {
            let c1 = Capability {
                table: parent,
                sels: SelRange { start: (dst + 1) as u64, count: 1 },
                kind: KObjKind::EP,
                obj: o1,
                obj_size: ep_size,
                derived: false,
                parent: Some(ac),
                live: true,
            };
            let s1 = insert_result(v, ks[pk], c1, ep_size + CAP_SIZE);
            let ks1 = ks.update(pk, s1.1);
            match s1.2 {
                Err(e) => (s1.0, ks1, Err(e)),
                Ok(_) => {
                    let c2 = Capability {
                        sels: SelRange { start: (dst + 2) as u64, count: 1 },
                        obj: o2,
                        ..c1
                    };
                    let s2 = insert_result(s1.0, ks1[pk], c2, ep_size + CAP_SIZE);
                    let ks2 = ks1.update(pk, s2.1);
                    match s2.2 {
                        Err(e) => (s2.0, ks2, Err(e)),
                        Ok(_) => (s2.0, ks2, Ok(())),
                    }
                },
            }
        },
    }
}

/// Gives a new activity (table `child`) and its parent (table `parent`) their capabilities:
/// the child obtains the kernel memory at `kmem_sel` and the tile at `tile_sel` of the parent
/// (charged to that kernel memory, its own); the parent gets the activity's capability at
/// `dst` for object `act_obj`, as child of the kernel-memory capability (charged to the
/// parent's kernel memory `kmems[pk]`), which the child obtains as its own; with virtual memory
/// the parent also gets the pager endpoints `pager` at the next two selectors.
///
/// Stops at the first step that fails, with its error (see `spec_activity_caps`).
pub fn create_activity_caps(
    space: &mut CapSpace,
    kmems: &mut Vec<KMemObject>,
    parent: u64,
    child: u64,
    pk: usize,
    dst: u64,
    kmem_sel: u64,
    tile_sel: u64,
    act_obj: u64,
    act_size: usize,
    pager: Option<(u64, u64)>,
    ep_size: usize,
) -> (r: Result<(), Code>)
    requires
        space_wf(old(space)@),
        kmems_known(old(space)@, old(kmems)@.len() as int),
        pk < old(kmems)@.len(),
        parent != child,
        dst + 2 <= u64::MAX,
        act_size + CAP_SIZE <= usize::MAX,
        ep_size + CAP_SIZE <= usize::MAX,
        spec_get_kobj(old(space)@, parent, kmem_sel as int, KObjKind::KMem) is Ok,
    ensures
        space_wf(final(space)@),
        (final(space)@, final(kmems)@, r) == spec_activity_caps(
            old(space)@,
            old(kmems)@,
            parent,
            child,
            pk as int,
            dst,
            kmem_sel,
            tile_sel,
            act_obj,
            act_size,
            pager,
            ep_size,
        ),
{
    proof {
        crate::caps::lemma_lookup(space@, parent, kmem_sel as int);
    }
    let kc = match space.get(parent, kmem_sel) {
        Err(e) => {
            return Err(e);
        },
        Ok(kc) => kc,
    };
    let n = kmems.len();
    let o = space.cap(kc).obj;
    assert(space@[kc as int].kind == KObjKind::KMem);
    assert(o < n);
    let ck = o as usize;
    let mut k = kmems[ck];
    let res = space.obtain(child, SEL_KMEM, kc, &mut k);
    kmems.set(ck, k);
    if let Err(e) = res {
        return Err(e);
    }
    proof {
        crate::caps::lemma_lookup(space@, parent, tile_sel as int);
    }
    let tc = match space.get(parent, tile_sel) {
        Err(e) => {
            return Err(e);
        },
        Ok(tc) => tc,
    };
    let mut k = kmems[ck];
    let res = space.obtain(child, SEL_TILE, tc, &mut k);
    kmems.set(ck, k);
    if let Err(e) = res {
        return Err(e);
    }
    let mut k = kmems[pk];
    let res = space.insert_as_child(
        parent,
        SelRange::new(dst),
        KObjKind::Activity,
        act_obj,
        act_size,
        parent,
        kmem_sel,
        &mut k,
    );
    kmems.set(pk, k);
    let ac = match res {
        Err(e) => {
            return Err(e);
        },
        Ok(ac) => ac,
    };
    let mut k = kmems[ck];
    let res = space.obtain(child, SEL_ACT, ac, &mut k);
    kmems.set(ck, k);
    if let Err(e) = res {
        return Err(e);
    }
    match pager {
        None => Ok(()),
        Some((o1, o2)) => {
            let mut k = kmems[pk];
            let res = space.insert(parent, SelRange::new(dst + 1), KObjKind::EP, o1, ep_size, Some(ac), &mut k);
            kmems.set(pk, k);
            if let Err(e) = res {
                return Err(e);
            }
            let mut k = kmems[pk];
            let res = space.insert(parent, SelRange::new(dst + 2), KObjKind::EP, o2, ep_size, Some(ac), &mut k);
            kmems.set(pk, k);
            if let Err(e) = res {
                return Err(e);
            }
            Ok(())
        },
    }
}

/// The kinds of memory regions.
#[derive(Clone, Copy, Debug, PartialEq, Eq, Structural)]
pub enum MemType {
    /// The kernel's own memory.
    Kernel,
    /// Memory for the endpoints of tiles with external endpoints.
    Eps,
    /// Memory that the root activity uses itself.
    Root,
    /// Memory for the applications.
    User,
}

/// What a capability of the root activity refers to.
#[derive(Clone, Copy, Debug, PartialEq, Eq, Structural)]
pub enum RootObj {
    /// The platform information.
    BootInfo,
    /// The receive gate for serial input.
    Serial,
    /// The boot module with this index.
    Module(usize),
    /// The tile with this id.
    Tile(u64),
    /// The memory region with this index.
    Memory(usize),
}

/// The objects for the first `n` tiles: every tile but the kernel's.
pub open spec fn tile_objs(tiles: Seq<u64>, kernel_tile: u64, n: int) -> Seq<RootObj>
    decreases n,
{
    if n <= 0 {
        Seq::empty()
    } else if tiles[n - 1] == kernel_tile {
        tile_objs(tiles, kernel_tile, n - 1)
    } else {
        tile_objs(tiles, kernel_tile, n - 1).push(RootObj::Tile(tiles[n - 1]))
    }
}

/// The objects for the first `n` memory regions: every application region.
pub open spec fn mem_objs(mems: Seq<MemType>, n: int) -> Seq<RootObj>
    decreases n,
{
    if n <= 0 {
        Seq::empty()
    } else if mems[n - 1] == MemType::User {
        mem_objs(mems, n - 1).push(RootObj::Memory((n - 1) as usize))
    } else {
        mem_objs(mems, n - 1)
    }
}

/// The first `n` memory regions that the root's tile gets protection endpoints for: all but
/// the kernel's and the endpoint memory.
pub open spec fn pmp_regions(mems: Seq<MemType>, n: int) -> Seq<usize>
    decreases n,
{
    if n <= 0 {
        Seq::empty()
    } else if mems[n - 1] != MemType::Kernel && mems[n - 1] != MemType::Eps {
        pmp_regions(mems, n - 1).push((n - 1) as usize)
    } else {
        pmp_regions(mems, n - 1)
    }
}

/// The objects of the root activity's capabilities, in selector order from the first free
/// selector on: the platform information, the serial receive gate, the boot modules, the
/// tiles but the kernel's, and the application memory regions.
pub open spec fn root_objs(n_mods: nat, tiles: Seq<u64>, kernel_tile: u64, mems: Seq<MemType>) -> Seq<
    RootObj,
> {
    seq![RootObj::BootInfo, RootObj::Serial] + Seq::new(n_mods, |i: int| RootObj::Module(i as usize))
        + tile_objs(tiles, kernel_tile, tiles.len() as int) + mem_objs(mems, mems.len() as int)
}

/// The capabilities of the root activity and the protection endpoints of its tile.
pub struct RootLayout {
    /// The objects, the `i`-th at selector `FIRST_FREE_SEL + i`.
    pub caps: Vec<RootObj>,
    /// The memory regions, the `i`-th on protection endpoint `i + 1`.
    pub pmp: Vec<usize>,
    /// The first selector that is free afterwards.
    pub first_sel: u64,
}

/// Lays out the root activity's capabilities for `n_mods` boot modules, the tiles `tiles`
/// (the kernel's being `kernel_tile`) and the memory regions of types `mems` (see
/// `root_objs`), and assigns the protection endpoints of its tile (see `pmp_regions`).
pub fn root_layout(n_mods: usize, tiles: &Vec<u64>, kernel_tile: u64, mems: &Vec<MemType>) -> (r:
    RootLayout)
    requires
        pmp_regions(mems@, mems@.len() as int).len() < crate::tcu::PMEM_PROT_EPS,
        n_mods + tiles@.len() + mems@.len() + FIRST_FREE_SEL + 2 <= u64::MAX,
    ensures
        r.caps@ == root_objs(n_mods as nat, tiles@, kernel_tile, mems@),
        r.pmp@ == pmp_regions(mems@, mems@.len() as int),
        r.first_sel == FIRST_FREE_SEL + r.caps@.len(),
{
    let mut caps: Vec<RootObj> = Vec::new();
    caps.push(RootObj::BootInfo);
    caps.push(RootObj::Serial);
    let mut i: usize = 0;
    while i < n_mods
        invariant
            i <= n_mods,
            caps@ == seq![RootObj::BootInfo, RootObj::Serial] + Seq::new(
                i as nat,
                |j: int| RootObj::Module(j as usize),
            ),
        decreases n_mods - i,
    {
        caps.push(RootObj::Module(i));
        i += 1;
        assert(caps@ =~= seq![RootObj::BootInfo, RootObj::Serial] + Seq::new(
            i as nat,
            |j: int| RootObj::Module(j as usize),
        ));
    }
    let ghost base = caps@;
    let mut t: usize = 0;
    while t < tiles.len()
        invariant
            t <= tiles@.len(),
            caps@ == base + tile_objs(tiles@, kernel_tile, t as int),
        decreases tiles@.len() - t,
    {
        if tiles[t] != kernel_tile {
            caps.push(RootObj::Tile(tiles[t]));
        }
        t += 1;
        assert(caps@ =~= base + tile_objs(tiles@, kernel_tile, t as int));
    }
    let ghost base2 = caps@;
    let mut pmp: Vec<usize> = Vec::new();
    let mut m: usize = 0;
    while m < mems.len()
        invariant
            m <= mems@.len(),
            caps@ == base2 + mem_objs(mems@, m as int),
            pmp@ == pmp_regions(mems@, m as int),
        decreases mems@.len() - m,
    {
        if mems[m] != MemType::Kernel && mems[m] != MemType::Eps {
            pmp.push(m);
        }
        if mems[m] == MemType::User {
            caps.push(RootObj::Memory(m));
        }
        m += 1;
        assert(caps@ =~= base2 + mem_objs(mems@, m as int));
    }
    proof {
        lemma_tile_objs_len(tiles@, kernel_tile, tiles@.len() as int);
        lemma_mem_objs_len(mems@, mems@.len() as int);
    }
    let first_sel = FIRST_FREE_SEL + caps.len() as u64;
    RootLayout { caps, pmp, first_sel }
}

/// Lemma: there are at most as many tile objects as tiles.
pub proof fn lemma_tile_objs_len(tiles: Seq<u64>, kernel_tile: u64, n: int)
    requires
        0 <= n,
    ensures
        tile_objs(tiles, kernel_tile, n).len() <= n,
    decreases n,
{
    if n > 0 {
        lemma_tile_objs_len(tiles, kernel_tile, n - 1);
    }
}

/// Lemma: there are at most as many memory objects as memory regions.
pub proof fn lemma_mem_objs_len(mems: Seq<MemType>, m: int)
    requires
        0 <= m,
    ensures
        mem_objs(mems, m).len() <= m,
    decreases m,
{
    if m > 0 {
        lemma_mem_objs_len(mems, m - 1);
    }
}

/// An object that the root activity gets a capability for, with the memory it is accounted
/// with.
#[derive(Clone, Copy, Debug, PartialEq, Eq, Structural)]
pub struct RootCap {
    pub kind: KObjKind,
    pub obj: u64,
    pub size: usize,
}

/// The `j`-th capability of the root activity (table `table`), in the order of insertion: its
/// kernel memory `kmem` (of `sizes.0` bytes), its tile `tile` (`sizes.1`) and itself `act`
/// (`sizes.2`) at their fixed selectors, then the objects `caps` from the first free selector
/// on.
pub open spec fn root_entry(
    table: u64,
    kmem: u64,
    tile: u64,
    act: u64,
    sizes: (usize, usize, usize),
    caps: Seq<RootCap>,
    j: int,
) -> Capability {
    if j == 0 {
        crate::sysc::single_cap(table, SEL_KMEM, KObjKind::KMem, kmem, sizes.0, None)
    } else if j == 1 {
        crate::sysc::single_cap(table, SEL_TILE, KObjKind::Tile, tile, sizes.1, None)
    } else if j == 2 {
        crate::sysc::single_cap(table, SEL_ACT, KObjKind::Activity, act, sizes.2, None)
    } else {
        crate::sysc::single_cap(
            table,
            (FIRST_FREE_SEL + j - 3) as u64,
            caps[j - 3].kind,
            caps[j - 3].obj,
            caps[j - 3].size,
            None,
        )
    }
}

/// All capabilities of the root activity, in the order of insertion (see `root_entry`).
pub open spec fn root_entries(
    table: u64,
    kmem: u64,
    tile: u64,
    act: u64,
    sizes: (usize, usize, usize),
    caps: Seq<RootCap>,
) -> Seq<Capability> {
    Seq::new(caps.len() + 3, |j: int| root_entry(table, kmem, tile, act, sizes, caps, j))
}

/// The kernel memory that inserting the capabilities `es` takes: each capability and its
/// object.
pub open spec fn entries_cost(es: Seq<Capability>) -> int
    decreases es.len(),
{
    if es.len() == 0 {
        0
    } else {
        entries_cost(es.drop_last()) + es.last().obj_size + CAP_SIZE
    }
}

/// How many of the capabilities `es` (from the `j`-th on) fit, one after another, into `q`
/// bytes of kernel memory: the index of the first that does not, or the number of all.
pub open spec fn entries_fitting(q: int, es: Seq<Capability>, j: int) -> int
    decreases es.len() - j,
{
    if j < 0 || j >= es.len() {
        es.len() as int
    } else if entries_cost(es.take(j)) + es[j].obj_size + CAP_SIZE > q {
        j
    } else {
        entries_fitting(q, es, j + 1)
    }
}

/// Lemma: from the `j`-th capability on, at least `j` fit.
proof fn lemma_fitting_ge(q: int, es: Seq<Capability>, j: int)
    requires
        0 <= j <= es.len(),
    ensures
        j <= entries_fitting(q, es, j) <= es.len(),
    decreases es.len() - j,
{
    if j < es.len() {
        lemma_fitting_ge(q, es, j + 1);
    }
}

/// Lemma: the selectors of the root activity's capabilities before the `j`-th do not hold the
/// `j`-th's selector, and nothing of the table is found there.
proof fn lemma_root_fresh(v: Seq<Capability>, es: Seq<Capability>, table: u64, j: int, sel: int)
    requires
        forall|i: int| 0 <= i < v.len() && #[trigger] v[i].live ==> v[i].table != table,
        0 <= j <= es.len(),
        forall|i: int| 0 <= i < j ==> #[trigger] es[i].sels.count == 1 && es[i].sels.start != sel,
    ensures
        lookup(v + es.take(j), table, sel) is None,
    decreases j,
{
    if j == 0 {
        assert(v + es.take(0) =~= v);
        crate::caps::lemma_lookup_from(v, table, sel, 0);
        if lookup(v, table, sel) is Some {
            let i = lookup(v, table, sel).unwrap();
            assert(v[i].live);
        }
    } else {
        lemma_root_fresh(v, es, table, j - 1, sel);
        assert(v + es.take(j) =~= (v + es.take(j - 1)).push(es[j - 1]));
        crate::sysc::lemma_lookup_push(v + es.take(j - 1), es[j - 1], table, sel, 0);
    }
}

/// Sets up the root activity `act`, just created (see `create_activity`) with its own
/// capability table `act.id` and no capabilities yet: creates its kernel memory with the boot
/// quota `boot_kmem` less what the kernel keeps (`fixed_kmem`), as the next entry of `kmems`,
/// inserts its capabilities (see `root_entries`; `tile` is its tile object and `caps` the
/// objects of its layout, see `root_layout`), each charged to that kernel memory, records the
/// first free selector behind them and starts it.
///
/// Fails with `NoSpace` if its kernel memory cannot hold one of its first three capabilities
/// (the ones inserted before stay).
pub fn setup_root(
    space: &mut CapSpace,
    kmems: &mut Vec<KMemObject>,
    act: &mut Activity,
    boot_kmem: usize,
    fixed_kmem: usize,
    tile: u64,
    sizes: (usize, usize, usize),
    caps: &Vec<RootCap>,
) -> (r: Result<(), Code>)
    requires
        space_wf(old(space)@),
        forall|i: int|
            0 <= i < old(space)@.len() && #[trigger] old(space)@[i].live ==> old(space)@[i].table
                != old(act).id,
        boot_kmem >= fixed_kmem,
        old(kmems)@.len() < u64::MAX,
        FIRST_FREE_SEL + caps@.len() <= u64::MAX,
        sizes.0 + CAP_SIZE <= usize::MAX,
        sizes.1 + CAP_SIZE <= usize::MAX,
        sizes.2 + CAP_SIZE <= usize::MAX,
        forall|i: int| 0 <= i < caps@.len() ==> #[trigger] caps@[i].size + CAP_SIZE <= usize::MAX,
        caps@.len() + 3 <= usize::MAX,
        ({
            let es = root_entries(old(act).id, old(kmems)@.len() as u64, tile, old(act).id, sizes, caps@);
            entries_fitting(boot_kmem - fixed_kmem, es, 0) < es.len() ==> entries_fitting(
                boot_kmem - fixed_kmem,
                es,
                0,
            ) < 3
        }),
    ensures
        space_wf(final(space)@),
        ({
            let es = root_entries(old(act).id, old(kmems)@.len() as u64, tile, old(act).id, sizes, caps@);
            let q = boot_kmem - fixed_kmem;
            let n = entries_fitting(q, es, 0);
            &&& final(space)@ == old(space)@ + es.take(n)
            &&& final(kmems)@ == old(kmems)@.push(
                KMemObject {
                    id: old(kmems)@.len() as u64,
                    quota: q as usize,
                    left: (q - entries_cost(es.take(n))) as usize,
                },
            )
            &&& n < es.len() ==> r == Err::<(), Code>(Code::NoSpace) && *final(act) == *old(act)
            &&& n == es.len() ==> r == Ok::<(), Code>(()) && *final(act) == (Activity {
                first_sel: (FIRST_FREE_SEL + caps@.len()) as u64,
                state: if old(act).state == ActState::Init {
                    ActState::Running
                } else {
                    old(act).state
                },
                ..*old(act)
            })
        }),
{
    let table = act.id;
    let kid = kmems.len() as u64;
    let ghost es = root_entries(table, kid, tile, table, sizes, caps@);
    let ghost q = (boot_kmem - fixed_kmem) as int;
    let ghost v0 = space@;
    let mut k = KMemObject::new(kid, boot_kmem - fixed_kmem);
    let total = caps.len() + 3;
    let mut j: usize = 0;
    proof {
        assert(es.take(0) =~= Seq::<Capability>::empty());
        assert(v0 + es.take(0) =~= v0);
        lemma_fitting_ge(q, es, 0);
    }
    while j < total
        invariant
            total == caps@.len() + 3,
            es.len() == total,
            es == root_entries(table, kid, tile, table, sizes, caps@),
            q == boot_kmem - fixed_kmem,
            table == old(act).id,
            *act == *old(act),
            kid == old(kmems)@.len(),
            *kmems == *old(kmems),
            v0 == old(space)@,
            j <= total,
            j <= entries_fitting(q, es, 0),
            entries_fitting(q, es, 0) == entries_fitting(q, es, j as int),
            entries_fitting(q, es, 0) < es.len() ==> entries_fitting(q, es, 0) < 3,
            space_wf(space@),
            space@ == v0 + es.take(j as int),
            k == (KMemObject { id: kid, quota: q as usize, left: (q - entries_cost(es.take(j as int))) as usize }),
            0 <= entries_cost(es.take(j as int)) <= q,
            q <= usize::MAX,
            forall|i: int| 0 <= i < v0.len() && #[trigger] v0[i].live ==> v0[i].table != table,
            FIRST_FREE_SEL + caps@.len() <= u64::MAX,
            sizes.0 + CAP_SIZE <= usize::MAX,
            sizes.1 + CAP_SIZE <= usize::MAX,
            sizes.2 + CAP_SIZE <= usize::MAX,
            forall|i: int| 0 <= i < caps@.len() ==> #[trigger] caps@[i].size + CAP_SIZE <= usize::MAX,
        decreases total - j,
    {
        let (sel, kind, obj, size) = if j == 0 {
            (SEL_KMEM, KObjKind::KMem, kid, sizes.0)
        } else if j == 1 {
            (SEL_TILE, KObjKind::Tile, tile, sizes.1)
        } else if j == 2 {
            (SEL_ACT, KObjKind::Activity, table, sizes.2)
        } else {
            let c = caps[j - 3];
            (FIRST_FREE_SEL + (j - 3) as u64, c.kind, c.obj, c.size)
        };
        let ghost e = es[j as int];
        assert(e == crate::sysc::single_cap(table, sel, kind, obj, size, None));
        proof {
            assert forall|i: int| 0 <= i < j implies #[trigger] es[i].sels.count == 1
                && es[i].sels.start != sel by {
                assert(es[i] == root_entry(table, kid, tile, table, sizes, caps@, i));
            }
            lemma_root_fresh(v0, es, table, j as int, sel as int);
        }
        let ghost before = space@;
        match space.insert(table, SelRange::new(sel), kind, obj, size, None, &mut k) {
            Err(e) => {
                proof {
                    assert(lookup(before, table, sel as int) is None);
                    assert(k.left == q - entries_cost(es.take(j as int)));
                    assert(entries_cost(es.take(j as int)) + es[j as int].obj_size + CAP_SIZE > q);
                    assert(entries_fitting(q, es, j as int) == j);
                }
                kmems.push(k);
                return Err(e);
            },
            Ok(_) => {},
        }
        proof {
            lemma_fitting_ge(q, es, j + 1);
            assert(es.take(j + 1).drop_last() =~= es.take(j as int));
            assert(es.take(j + 1).last() == e);
            assert(v0 + es.take(j + 1) =~= before.push(e));
            assert(entries_cost(es.take(j + 1)) == entries_cost(es.take(j as int)) + e.obj_size + CAP_SIZE);
            assert(entries_fitting(q, es, j as int) == entries_fitting(q, es, j + 1));
        }
        j += 1;
    }
    proof {
        assert(es.take(total as int) =~= es);
    }
    kmems.push(k);
    act.set_first_sel(FIRST_FREE_SEL + caps.len() as u64);
    act.start_app();
    Ok(())
}

/// Removes the kernel's state of a destroyed activity `act`: frees its standard endpoints at
/// the multiplexer and, if the tile object still exists, in its endpoint quota, removes it from
/// the tile object (if it had a parent, `parent` being what `create_activity` registered), from
/// the multiplexer and from `acts`, where its id becomes unused.
pub fn destroy_activity(
    act: &Activity,
    parent: Option<ActSel>,
    acts: &mut ActivityMng,
    mux: &mut TileMux,
    tile: &mut Option<TileObject>,
    quotas: &mut QuotaTable,
)
    requires
        old(acts).wf(),
        act.id < MAX_ACTS,
        old(acts).count > 0,
        old(mux).wf(),
        old(mux).acts().len() > 0,
        old(mux).eps() matches Some(e) ==> crate::eps::used_run(
            e,
            act.eps_start as int,
            STD_EPS_COUNT as int,
        ),
        quotas_wf(old(quotas)@),
        *old(tile) matches Some(t) ==> t.ep_quota < old(quotas)@.len() && old(
            quotas)@[t.ep_quota as int].left + STD_EPS_COUNT <= old(quotas)@[t.ep_quota as int].total,
    ensures
        final(acts).wf(),
        final(acts).used() == old(acts).used().update(act.id as int, false),
        final(acts).count == old(acts).count - 1,
        final(acts).next_id == old(acts).next_id,
        final(mux).wf(),
        final(mux).eps() == match old(mux).eps() {
            Some(e) => Some(mark(e, act.eps_start as int, STD_EPS_COUNT as int, false)),
            None => None,
        },
        final(mux).acts() == old(mux).acts().filter(crate::tiles::other_act(act.id)),
        final(mux).tile == old(mux).tile,
        quotas_wf(final(quotas)@),
        match *old(tile) {
            Some(t) => {
                &&& final(quotas)@ == old(quotas)@.update(
                    t.ep_quota as int,
                    TileQuota {
                        left: (old(quotas)@[t.ep_quota as int].left + STD_EPS_COUNT) as usize,
                        ..old(quotas)@[t.ep_quota as int]
                    },
                )
                &&& *final(tile) matches Some(u)
                &&& u.acts() == match parent {
                    Some(p) => t.acts().filter(crate::tiles::other_than(p.act, p.sel)),
                    None => t.acts(),
                }
                &&& u.tile == t.tile && u.ep_quota == t.ep_quota && u.exregs_quota == t.exregs_quota
                &&& u.derived == t.derived
            },
            None => final(quotas)@ == old(quotas)@ && *final(tile) is None,
        },
{
    mux.free_eps(act.eps_start, STD_EPS_COUNT);
    match tile {
        Some(t) => {
            quotas.free(t.ep_quota, STD_EPS_COUNT);
            match parent {
                Some(p) => t.rem_activity(p.act, p.sel),
                None => {},
            }
        },
        None => {},
    }
    mux.rem_activity(act.id);
    acts.free(act.id as usize);
    acts.remove_activity(act.id as usize);
}

/// Law: destroying an activity right after creating it gives back what the creation took: the
/// activity id, the standard endpoints at the multiplexer and in the tile's endpoint quota.
pub proof fn lemma_create_destroy(
    used: Seq<bool>,
    id: int,
    eps: Seq<bool>,
    start: int,
    q: Seq<TileQuota>,
    qi: int,
)
    requires
        0 <= id < used.len(),
        !used[id],
        free_run(eps, start, STD_EPS_COUNT as int),
        0 <= qi < q.len(),
        q[qi].left >= STD_EPS_COUNT,
    ensures
        used.update(id, true).update(id, false) == used,
        mark(mark(eps, start, STD_EPS_COUNT as int, true), start, STD_EPS_COUNT as int, false)
            == eps,
        ({
            let taken = q.update(qi, TileQuota { left: (q[qi].left - STD_EPS_COUNT) as usize, ..q[qi] });
            taken.update(qi, TileQuota { left: (taken[qi].left + STD_EPS_COUNT) as usize, ..taken[qi] })
                == q
        }),
{
    assert(used.update(id, true).update(id, false) =~= used);
    assert(mark(mark(eps, start, STD_EPS_COUNT as int, true), start, STD_EPS_COUNT as int, false)
        =~= eps);
    let taken = q.update(qi, TileQuota { left: (q[qi].left - STD_EPS_COUNT) as usize, ..q[qi] });
    assert(taken.update(qi, TileQuota { left: (taken[qi].left + STD_EPS_COUNT) as usize, ..taken[qi] })
        =~= q);
}

/// What stopping an activity takes, once its state has been set to stopping.
#[derive(Clone, Copy, Debug, PartialEq, Eq, Structural)]
pub struct StopPlan {
    /// The first of the standard endpoints to invalidate (forcibly), and their number.
    pub std_eps: u16,
    pub std_eps_count: usize,
    /// Revoke all capabilities of the activity (all but the root activity).
    pub revoke_caps: bool,
    /// Ask the multiplexer to stop the activity.
    pub stop_at_mux: bool,
    /// Remove the activity at once (root, whom nobody waits for).
    pub remove_now: bool,
    /// Notify the activities waiting for exits (it was running).
    pub notify_exit: bool,
}

/// The plan for stopping `act` (whose state is already stopping) on a tile that is
/// `programmable` or not, on behalf of activity `revoker`, `was_running` telling whether it was
/// running before.
pub fn stop_plan(act: &Activity, programmable: bool, revoker: u64, was_running: bool) -> (r: StopPlan)
    ensures
        r == (StopPlan {
            std_eps: act.eps_start,
            std_eps_count: STD_EPS_COUNT,
            revoke_caps: !act.is_root,
            stop_at_mux: programmable || (act.state == ActState::Running && revoker != act.id),
            remove_now: act.is_root,
            notify_exit: was_running,
        }),
{
    let running = match act.state {
        ActState::Running => true,
        _ => false,
    };
    StopPlan {
        std_eps: act.eps_start,
        std_eps_count: STD_EPS_COUNT,
        revoke_caps: !act.is_root,
        stop_at_mux: programmable || (running && revoker != act.id),
        remove_now: act.is_root,
        notify_exit: was_running,
    }
}

/// One step of revoking tile object `tile`: takes the activity that started using the tile
/// last and revokes its capability (at the selector of its parent's table that `create_activity`
/// registered) with everything derived from it, so that the activity goes away. Returns that
/// activity and the revoked capabilities, for the caller to release; `None` once no activity
/// uses the tile, when the tile's quotas can be given back (see `TileObject::revoke_quotas`).
pub fn tile_revoke_step(tile: &mut TileObject, space: &mut CapSpace) -> (r: Option<(ActSel, Vec<usize>)>)
    requires
        space_wf(old(space)@),
    ensures
        space_wf(final(space)@),
        final(tile).tile == old(tile).tile,
        final(tile).ep_quota == old(tile).ep_quota,
        final(tile).exregs_quota == old(tile).exregs_quota,
        final(tile).derived == old(tile).derived,
        old(tile).acts().len() == 0 ==> r is None && final(tile).acts() == old(tile).acts()
            && final(space)@ == old(space)@,
        old(tile).acts().len() > 0 ==> {
            let a = old(tile).acts().last();
            &&& final(tile).acts() == old(tile).acts().drop_last()
            &&& r matches Some((b, rev)) && b == a && forall|k: usize|
                #[trigger] rev@.contains(k) <==> (k < old(space)@.len() && old(space)@[k as int].live
                    && !final(space)@[k as int].live)
            &&& final(space)@ == match lookup(old(space)@, a.act, a.sel as int) {
                Some(i) => crate::caps::revoke_subtree_spec(old(space)@, i, true),
                None => old(space)@,
            }
        },
{
    match tile.pop_activity() {
        None => None,
        Some(a) => {
            proof {
                crate::caps::lemma_lookup(space@, a.act, a.sel as int);
            }
            match space.lookup(a.act, a.sel) {
                None => Some((a, Vec::new())),
                Some(i) => {
                    let rev = space.revoke_subtree(i, true);
                    Some((a, rev))
                },
            }
        },
    }
}

/// What the first part of stopping an activity did.
pub struct StopStart {
    /// What stopping requires (see `Activity::stop_app`).
    pub action: StopAction,
    /// When it stops the activity now: the rest of the plan (see `stop_plan`).
    pub plan: Option<StopPlan>,
    /// The capabilities that were revoked, for the caller to release.
    pub revoked: Vec<usize>,
}

/// Starts stopping activity `act` on behalf of activity `revoker`, on a tile that is
/// `programmable` or not: if it is neither dead nor already being stopped, marks it as being
/// stopped, force-deconfigures all its endpoint objects `eps`, and revokes all its capabilities
/// (those of its tables `obj_table` and `map_table`) unless it is the root activity. The plan
/// says which standard endpoints to force-invalidate at the tile and what follows (see
/// `stop_plan`); `finish_stop` completes it.
pub fn stop_activity(
    act: &mut Activity,
    space: &mut CapSpace,
    obj_table: u64,
    map_table: u64,
    eps: &mut Vec<EPObject>,
    programmable: bool,
    revoker: u64,
) -> (r: StopStart)
    requires
        space_wf(old(space)@),
    ensures
        space_wf(final(space)@),
        match old(act).state {
            ActState::Dead => r.action == StopAction::Nothing,
            ActState::Stopping => r.action == StopAction::Wait,
            _ => r.action == (StopAction::Stop { was_running: old(act).state == ActState::Running }),
        },
        !(r.action is Stop) ==> {
            &&& *final(act) == *old(act)
            &&& final(space)@ == old(space)@
            &&& final(eps)@ == old(eps)@
            &&& r.plan is None
            &&& r.revoked@.len() == 0
        },
        r.action is Stop ==> {
            &&& *final(act) == (Activity { state: ActState::Stopping, ..*old(act) })
            &&& r.plan == Some(
                StopPlan {
                    std_eps: old(act).eps_start,
                    std_eps_count: STD_EPS_COUNT,
                    revoke_caps: !old(act).is_root,
                    stop_at_mux: programmable,
                    remove_now: old(act).is_root,
                    notify_exit: old(act).state == ActState::Running,
                },
            )
            &&& final(eps)@.len() == old(eps)@.len()
            &&& forall|i: int|
                0 <= i < old(eps)@.len() ==> #[trigger] final(eps)@[i] == (EPObject {
                    gate: None,
                    ..old(eps)@[i]
                })
            &&& if old(act).is_root {
                final(space)@ == old(space)@ && r.revoked@.len() == 0
            } else {
                &&& final(space)@ == crate::caps::revoke_all_spec(
                    crate::caps::revoke_all_spec(old(space)@, obj_table),
                    map_table,
                )
                &&& forall|k: int|
                    0 <= k < final(space)@.len() && #[trigger] final(space)@[k].live ==> final(space)@[k].table != obj_table && final(space)@[k].table != map_table
                &&& forall|k: usize|
                    #[trigger] r.revoked@.contains(k) <==> (k < old(space)@.len() && old(space)@[k as int].live && !final(space)@[k as int].live)
            }
        },
{
    let action = act.stop_app();
    match action {
        StopAction::Stop { was_running } => {
            let mut i: usize = 0;
            while i < eps.len()
                invariant
                    i <= eps@.len(),
                    eps@.len() == old(eps)@.len(),
                    forall|j: int|
                        0 <= j < i ==> #[trigger] eps@[j] == (EPObject { gate: None, ..old(eps)@[j] }),
                    forall|j: int| i <= j < eps@.len() ==> #[trigger] eps@[j] == old(eps)@[j],
                decreases eps@.len() - i,
            {
                let mut e = eps[i];
                let _ = e.deconfigure(InvalidateType::Force);
                eps.set(i, e);
                i += 1;
            }
            let mut revoked: Vec<usize> = Vec::new();
            if !act.is_root {
                let ghost v0 = space@;
                let mut a = space.revoke_all(obj_table);
                let ghost v1 = space@;
                let mut b = space.revoke_all(map_table);
                proof {
                    assert forall|k: int| 0 <= k < space@.len() && #[trigger] space@[k].live implies space@[k].table
                        != obj_table by {
                        assert(v1[k].live);
                        assert(space@[k].table == v1[k].table);
                    }
                }
                let ghost ra = a@;
                let ghost rb = b@;
                revoked.append(&mut a);
                revoked.append(&mut b);
                proof {
                    crate::caps::lemma_seq_add_contains(ra, rb);
                    assert forall|k: usize| #[trigger] revoked@.contains(k) <==> (k < v0.len()
                        && v0[k as int].live && !space@[k as int].live) by {
                        if k < v0.len() && v0[k as int].live && !space@[k as int].live {
                            if v1[k as int].live {
                                assert(rb.contains(k));
                            } else {
                                assert(ra.contains(k));
                            }
                        }
                        if rb.contains(k) {
                            assert(v1[k as int].live);
                        }
                        if ra.contains(k) {
                            assert(!v1[k as int].live);
                        }
                    }
                }
            }
            let plan = stop_plan(act, programmable, revoker, was_running);
            StopStart { action, plan: Some(plan), revoked }
        },
        _ => StopStart { action, plan: None, revoked: Vec::new() },
    }
}

/// What a wait for the exit of activities does next.
#[derive(Clone, Copy, Debug, PartialEq, Eq, Structural)]
pub enum WaitStep {
    /// Report this exit (of the activity at the selector, with its code).
    Report(u64, Code),
    /// Tell the waiting activity by upcall about this exit; the reply reports nothing.
    Upcall(u64, Code),
    /// Nothing to report now.
    Done,
    /// Block until some activity exits, then look again.
    Block,
}

/// Decides a round of waiting for exits: `found` is the exit found among the waited-for
/// activities, if any. With an `event` the waiter is told by upcall and never blocks; without,
/// it blocks until an exit, unless it is no longer running.
pub fn wait_step(event: u64, found: Option<(u64, Code)>, running: bool) -> (r: WaitStep)
    ensures
        r == match found {
            Some((sel, code)) => if event != 0 {
                WaitStep::Upcall(sel, code)
            } else {
                WaitStep::Report(sel, code)
            },
            None => if event != 0 || !running {
                WaitStep::Done
            } else {
                WaitStep::Block
            },
        },
{
    match found {
        Some((sel, code)) => {
            if event != 0 {
                WaitStep::Upcall(sel, code)
            } else {
                WaitStep::Report(sel, code)
            }
        },
        None => {
            if event != 0 || !running {
                WaitStep::Done
            } else {
                WaitStep::Block
            }
        },
    }
}

/// What waiting for the activity at selector `sel` of `table` finds: the lookup error if the
/// selector does not refer to an activity (for example because its capability was revoked),
/// and otherwise the activity, with whether it has an exit code (`exited`, by activity id).
pub open spec fn spec_wait_target(v: Seq<Capability>, table: u64, sel: u64, exited: Seq<bool>) -> WaitTarget {
    match spec_get_kobj(v, table, sel as int, KObjKind::Activity) {
        Err(e) => WaitTarget::Invalid(e),
        Ok(i) => WaitTarget::Act {
            id: v[i as int].obj,
            exited: v[i as int].obj < exited.len() && exited[v[i as int].obj as int],
        },
    }
}

/// Looks up the activities at the selectors `sels` of `table` that an activity waits for (see
/// `spec_wait_target`), for `fetch_exit`.
pub fn wait_targets(space: &CapSpace, table: u64, sels: &Vec<u64>, exited: &Vec<bool>) -> (r: Vec<
    WaitTarget,
>)
    ensures
        r@.len() == sels@.len(),
        forall|i: int|
            0 <= i < sels@.len() ==> #[trigger] r@[i] == spec_wait_target(space@, table, sels@[i], exited@),
{
    let mut out: Vec<WaitTarget> = Vec::new();
    let mut i: usize = 0;
    while i < sels.len()
        invariant
            i <= sels@.len(),
            out@.len() == i,
            forall|j: int|
                0 <= j < i ==> #[trigger] out@[j] == spec_wait_target(space@, table, sels@[j], exited@),
        decreases sels@.len() - i,
    {
        let t = match space.get_kobj(table, sels[i], KObjKind::Activity) {
            Err(e) => WaitTarget::Invalid(e),
            Ok(c) => {
                let id = space.cap(c).obj;
                let n = exited.len();
                let ex = id < n as u64 && exited[id as usize];
                WaitTarget::Act { id, exited: ex }
            },
        };
        out.push(t);
        i += 1;
    }
    out
}

/// Whether a waiter with `event` for `count` activities stays registered for an upcall after a
/// round that ended with `step`: only a waiter by upcall for which no exit was found.
pub fn keeps_listening(event: u64, count: usize, step: WaitStep) -> (r: bool)
    ensures
        r == (event != 0 && count > 0 && step == WaitStep::Done),
{
    event != 0 && count > 0 && match step {
        WaitStep::Done => true,
        _ => false,
    }
}

/// The configuration of a standard endpoint of an activity.
#[derive(Clone, Copy, Debug, PartialEq, Eq, Structural)]
pub enum StdEp {
    /// A send endpoint to the kernel's syscall endpoint, labeled with the activity's id.
    Send { ep: u16, label: u64 },
    /// A receive endpoint with a buffer of `2^order` bytes at `addr`, with reply endpoints
    /// from `reply_eps` on if given.
    Recv { ep: u16, order: u32, addr: u64, reply_eps: Option<u16> },
}

/// The standard endpoints of activity `id` whose endpoints start at `eps_start` and whose
/// receive buffers start at `rbuf`: the syscall send endpoint, and the syscall, upcall and
/// default receive endpoints with buffers of `2^sysc_ord`, `2^upcall_ord` and `2^def_ord`
/// bytes one after another.
pub fn std_eps(id: u64, eps_start: u16, rbuf: u64, sysc_ord: u32, upcall_ord: u32, def_ord: u32) -> (r:
    Vec<StdEp>)
    requires
        eps_start + crate::tcu::DEF_REP_OFF <= u16::MAX,
        sysc_ord < 32,
        upcall_ord < 32,
        def_ord < 32,
        rbuf + pow2(sysc_ord as nat) + pow2(upcall_ord as nat) <= u64::MAX,
    ensures
        r@ == seq![
            StdEp::Send { ep: (eps_start + crate::tcu::SYSC_SEP_OFF) as u16, label: id },
            StdEp::Recv {
                ep: (eps_start + crate::tcu::SYSC_REP_OFF) as u16,
                order: sysc_ord,
                addr: rbuf,
                reply_eps: None,
            },
            StdEp::Recv {
                ep: (eps_start + crate::tcu::UPCALL_REP_OFF) as u16,
                order: upcall_ord,
                addr: (rbuf + pow2(sysc_ord as nat)) as u64,
                reply_eps: Some((eps_start + crate::tcu::UPCALL_RPLEP_OFF) as u16),
            },
            StdEp::Recv {
                ep: (eps_start + crate::tcu::DEF_REP_OFF) as u16,
                order: def_ord,
                addr: (rbuf + pow2(sysc_ord as nat) + pow2(upcall_ord as nat)) as u64,
                reply_eps: None,
            },
        ],
{
    proof {
        vstd::bits::lemma_u64_pow2_no_overflow(sysc_ord as nat);
        vstd::bits::lemma_u64_shl_is_mul(1, sysc_ord as u64);
        vstd::bits::lemma_u64_pow2_no_overflow(upcall_ord as nat);
        vstd::bits::lemma_u64_shl_is_mul(1, upcall_ord as u64);
    }
    let sysc_size = 1u64 << (sysc_ord as u64);
    let upcall_size = 1u64 << (upcall_ord as u64);
    let mut v: Vec<StdEp> = Vec::new();
    v.push(StdEp::Send { ep: eps_start + crate::tcu::SYSC_SEP_OFF, label: id });
    v.push(
        StdEp::Recv {
            ep: eps_start + crate::tcu::SYSC_REP_OFF,
            order: sysc_ord,
            addr: rbuf,
            reply_eps: None,
        },
    );
    v.push(
        StdEp::Recv {
            ep: eps_start + crate::tcu::UPCALL_REP_OFF,
            order: upcall_ord,
            addr: rbuf + sysc_size,
            reply_eps: Some(eps_start + crate::tcu::UPCALL_RPLEP_OFF),
        },
    );
    v.push(
        StdEp::Recv {
            ep: eps_start + crate::tcu::DEF_REP_OFF,
            order: def_ord,
            addr: rbuf + sysc_size + upcall_size,
            reply_eps: None,
        },
    );
    v
}

/// An operation on an activity through its capability.
#[derive(Clone, Copy, Debug, PartialEq, Eq, Structural)]
pub enum ActivityOp {
    Start,
    Stop,
}

/// What an activity-control request does.
#[derive(Clone, Copy, Debug, PartialEq, Eq, Structural)]
pub enum CtrlStep {
    /// Start the activity, then reply.
    Start,
    /// Stop the activity; reply afterwards unless the caller stopped itself.
    Stop { reply: bool },
}

/// Decides a request of an activity to start or stop the activity at selector `sel`, which is
/// the caller itself if `is_caller`.
///
/// Fails with `InvArgs` if an activity asks to start itself.
pub fn activity_ctrl(op: ActivityOp, sel: u64, is_caller: bool) -> (r: Result<CtrlStep, Code>)
    ensures
        r == match op {
            ActivityOp::Start => if is_caller {
                Err(Code::InvArgs)
            } else {
                Ok(CtrlStep::Start)
            },
            ActivityOp::Stop => Ok(CtrlStep::Stop { reply: sel != SEL_ACT }),
        },
{
    match op {
        ActivityOp::Start => {
            if is_caller {
                Err(Code::InvArgs)
            } else {
                Ok(CtrlStep::Start)
            }
        },
        ActivityOp::Stop => Ok(CtrlStep::Stop { reply: sel != SEL_ACT }),
    }
}

} // verus!
