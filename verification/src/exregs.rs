//! Exclusive regions: parts of a memory tile that only one user tile may access.
//!
//! A memory tile has a fixed number of region slots. Making a region exclusive takes a free
//! slot and one unit of the memory tile object's region quota; invalidating the regions of a
//! user tile gives the quota back.
use vstd::prelude::*;

use crate::eps::{first_clear, first_clear_bit};
use crate::errors::Code;
use crate::kobjs::{MGateObject, TileQuota};
use crate::tiles::{quotas_wf, QuotaTable, TileObject};

verus! {

/// An exclusive region: its slot, the user tile it belongs to, the memory gate (by identity)
/// that describes it, and that memory gate's region.
#[derive(Clone, Copy, Debug, PartialEq, Eq, Structural)]
pub struct ExclRegion {
    pub idx: usize,
    pub user_tile: u64,
    pub mgate: u64,
    pub offset: u64,
    pub size: u64,
}

/// Do the ranges `[a1, a2)` and `[b1, b2)` overlap?
pub open spec fn overlaps(a1: int, a2: int, b1: int, b2: int) -> bool {
    a1 < b2 && b1 < a2
}

/// Does one of the `regions` whose gate is `alive` give `tile` access to the range of `size`
/// bytes at `offset`?
pub open spec fn grants_access(regions: Seq<ExclRegion>, alive: Seq<bool>, tile: u64, offset: int, size: int) -> bool {
    exists|i: int|
        0 <= i < regions.len() && #[trigger] alive[i] && regions[i].user_tile == tile && overlaps(
            regions[i].offset as int,
            regions[i].offset + regions[i].size,
            offset,
            offset + size,
        )
}

/// Law: a region just made exclusive for a tile, while its gate lives, gives that tile access
/// to every range that overlaps it.
pub proof fn lemma_added_region_grants_access(
    regions: Seq<ExclRegion>,
    e: ExclRegion,
    alive: Seq<bool>,
    offset: int,
    size: int,
)
    requires
        alive.len() == regions.len() + 1,
        alive[regions.len() as int],
        overlaps(e.offset as int, e.offset + e.size, offset, offset + size),
    ensures
        grants_access(regions.push(e), alive, e.user_tile, offset, size),
{
    let i = regions.len() as int;
    assert(regions.push(e)[i] == e);
    assert(alive[i]);
}

/// Law: once no region belongs to a tile any more (what removing its regions until none is
/// left achieves), the tile has access to no range.
pub proof fn lemma_no_region_no_access(regions: Seq<ExclRegion>, alive: Seq<bool>, tile: u64, offset: int, size: int)
    requires
        forall|i: int| 0 <= i < regions.len() ==> #[trigger] regions[i].user_tile != tile,
    ensures
        !grants_access(regions, alive, tile, offset, size),
{
}

/// The exclusive regions of a memory tile, with the slots in use.
pub struct ExRegs {
    pub tile: u64,
    pub used: Vec<bool>,
    pub regions: Vec<ExclRegion>,
}

/// `q` with one unit of quota `id` taken.
pub open spec fn take_one(q: Seq<TileQuota>, id: int) -> Seq<TileQuota> {
    q.update(id, TileQuota { left: (q[id].left - 1) as usize, ..q[id] })
}

impl ExRegs {
    /// The regions of memory tile `tile` with `slots` free slots.
    pub fn new(tile: u64, slots: usize) -> (r: Self)
        ensures
            r.tile == tile,
            r.used@.len() == slots,
            forall|i: int| 0 <= i < slots ==> !#[trigger] r.used@[i],
            r.regions@ == Seq::<ExclRegion>::empty(),
    {
        let mut used: Vec<bool> = Vec::new();
        let mut i: usize = 0;
        while i < slots
            invariant
                i <= slots,
                used@.len() == i,
                forall|j: int| 0 <= j < i ==> !#[trigger] used@[j],
            decreases slots - i,
        {
            used.push(false);
            i += 1;
        }
        ExRegs { tile, used, regions: Vec::new() }
    }

    /// Starts making a region of this memory tile exclusive through `mem_tile`: returns the
    /// slot it will get, the first free one.
    ///
    /// Fails with `NotSup` if the platform has no root of trust to manage the regions, and with
    /// `NoSpace` if the region quota of `mem_tile` is used up.
    pub fn add_start(&self, has_rot: bool, mem_tile: &TileObject, quotas: &QuotaTable) -> (r: Result<
        usize,
        Code,
    >)
        requires
            mem_tile.exregs_quota < quotas@.len(),
        ensures
            r == (if !has_rot {
                Err(Code::NotSup)
            } else if quotas@[mem_tile.exregs_quota as int].left == 0 {
                Err(Code::NoSpace)
            } else {
                Ok(first_clear(self.used@) as usize)
            }),
    {
        if !has_rot {
            return Err(Code::NotSup);
        }
        if quotas.get(mem_tile.exregs_quota).left() == 0 {
            return Err(Code::NoSpace);
        }
        Ok(first_clear_bit(&self.used))
    }

    /// Completes making the region of `mgate` (with identity `mgate_id`) exclusive for
    /// `user_tile` in slot `idx`: the memory gate becomes exclusive, one unit of the region quota of
    /// `mem_tile` is taken, and the region is recorded in the slot.
    pub fn add_finish(
        &mut self,
        mgate: &mut MGateObject,
        mgate_id: u64,
        quotas: &mut QuotaTable,
        mem_tile: &TileObject,
        user_tile: u64,
        idx: usize,
    )
        requires
            quotas_wf(old(quotas)@),
            mem_tile.exregs_quota < old(quotas)@.len(),
            old(quotas)@[mem_tile.exregs_quota as int].left >= 1,
            idx < old(self).used@.len(),
        ensures
            *final(mgate) == (MGateObject { exclusive: Some(user_tile), ..*old(mgate) }),
            quotas_wf(final(quotas)@),
            final(quotas)@ == take_one(old(quotas)@, mem_tile.exregs_quota as int),
            final(self).tile == old(self).tile,
            final(self).regions@ == old(self).regions@.push(
                ExclRegion {
                    idx,
                    user_tile,
                    mgate: mgate_id,
                    offset: old(mgate).addr.offset,
                    size: old(mgate).size,
                },
            ),
            final(self).used@ == old(self).used@.update(idx as int, true),
    {
        mgate.exclusive = Some(user_tile);
        quotas.allocate(mem_tile.exregs_quota, 1);
        self.regions.push(
            ExclRegion {
                idx,
                user_tile,
                mgate: mgate_id,
                offset: mgate.addr.offset,
                size: mgate.size,
            },
        );
        self.used.set(idx, true);
    }

    /// May `tile` access the region `[offset, offset + size)` of this memory tile? It may if
    /// one of its exclusive regions whose gate still exists (`alive`, per region) overlaps it.
    pub fn has_access(&self, tile: u64, offset: u64, size: u64, alive: &Vec<bool>) -> (r: bool)
        requires
            alive@.len() == self.regions@.len(),
        ensures
            r == grants_access(self.regions@, alive@, tile, offset as int, size as int),
    {
        let mut i: usize = 0;
        while i < self.regions.len()
            invariant
                i <= self.regions@.len(),
                alive@.len() == self.regions@.len(),
                forall|j: int|
                    0 <= j < i ==> !(#[trigger] alive@[j] && self.regions@[j].user_tile == tile
                        && overlaps(
                        self.regions@[j].offset as int,
                        self.regions@[j].offset + self.regions@[j].size,
                        offset as int,
                        offset + size,
                    )),
            decreases self.regions@.len() - i,
        {
            let e = self.regions[i];
            if alive[i] && e.user_tile == tile && (e.offset as u128) < (offset as u128) + (
            size as u128) && (offset as u128) < (e.offset as u128) + (e.size as u128) {
                assert(alive@[i as int]);
                return true;
            }
            i += 1;
        }
        false
    }

    /// Removes the first region of `tile`, if any, and returns it with its position; the slot
    /// at that position is marked free. The caller ends the exclusiveness of its gate and gives
    /// the quota back.
    pub fn remove_first_of(&mut self, tile: u64) -> (r: Option<(usize, ExclRegion)>)
        requires
            old(self).regions@.len() <= old(self).used@.len(),
        ensures
            final(self).tile == old(self).tile,
            final(self).regions@.len() <= final(self).used@.len(),
            match r {
                None => {
                    &&& final(self).regions@ == old(self).regions@
                    &&& final(self).used@ == old(self).used@
                    &&& forall|i: int|
                        0 <= i < old(self).regions@.len() ==> #[trigger] old(self).regions@[i].user_tile
                            != tile
                },
                Some((p, e)) => {
                    &&& p < old(self).regions@.len()
                    &&& e == old(self).regions@[p as int]
                    &&& e.user_tile == tile
                    &&& forall|i: int| 0 <= i < p ==> #[trigger] old(self).regions@[i].user_tile != tile
                    &&& final(self).regions@ == old(self).regions@.remove(p as int)
                    &&& final(self).used@ == old(self).used@.update(p as int, false)
                },
            },
    {
        let mut i: usize = 0;
        while i < self.regions.len()
            invariant
                i <= self.regions@.len(),
                self.tile == old(self).tile,
                self.regions@ == old(self).regions@,
                self.used@ == old(self).used@,
                old(self).regions@.len() <= old(self).used@.len(),
                forall|j: int| 0 <= j < i ==> #[trigger] self.regions@[j].user_tile != tile,
            decreases self.regions@.len() - i,
        {
            if self.regions[i].user_tile == tile {
                let e = self.regions.remove(i);
                self.used.set(i, false);
                return Some((i, e));
            }
            i += 1;
        }
        None
    }
}

impl ExRegs {
    /// One step of invalidating the regions of `tile`: without a root of trust (`has_rot`),
    /// which manages the regions, there is nothing to do; otherwise the first region of the tile
    /// is removed (see `remove_first_of`), until none is left.
    pub fn invalidate_step(&mut self, has_rot: bool, tile: u64) -> (r: Option<(usize, ExclRegion)>)
        requires
            old(self).regions@.len() <= old(self).used@.len(),
        ensures
            final(self).tile == old(self).tile,
            final(self).regions@.len() <= final(self).used@.len(),
            !has_rot ==> r is None && final(self).regions@ == old(self).regions@ && final(self).used@
                == old(self).used@,
            has_rot ==> match r {
                None => {
                    &&& final(self).regions@ == old(self).regions@
                    &&& final(self).used@ == old(self).used@
                    &&& forall|i: int|
                        0 <= i < old(self).regions@.len() ==> #[trigger] old(self).regions@[i].user_tile
                            != tile
                },
                Some((p, e)) => {
                    &&& p < old(self).regions@.len()
                    &&& e == old(self).regions@[p as int]
                    &&& e.user_tile == tile
                    &&& forall|i: int| 0 <= i < p ==> #[trigger] old(self).regions@[i].user_tile != tile
                    &&& final(self).regions@ == old(self).regions@.remove(p as int)
                    &&& final(self).used@ == old(self).used@.update(p as int, false)
                },
            },
    {
        if !has_rot {
            return None;
        }
        self.remove_first_of(tile)
    }
}

/// The exclusive regions of a memory tile that the kernel configures at the tile directly.
pub struct MemMux {
    pub tile: u64,
    pub used: Vec<bool>,
    pub regions: Vec<ExclRegion>,
}

impl MemMux {
    /// The regions of memory tile `tile` with `slots` free slots.
    pub fn new(tile: u64, slots: usize) -> (r: Self)
        ensures
            r.tile == tile,
            r.used@.len() == slots,
            forall|i: int| 0 <= i < slots ==> !#[trigger] r.used@[i],
            r.regions@ == Seq::<ExclRegion>::empty(),
    {
        let e = ExRegs::new(tile, slots);
        MemMux { tile, used: e.used, regions: e.regions }
    }

    /// Starts making the region of `mgate` exclusive for `user_tile` through `mem_tile`: the
    /// gate becomes exclusive to the user tile, and the slot it will get, the first free one, is
    /// returned. The caller configures the region at the tile and then calls `add_finish`.
    ///
    /// Fails with `NoSpace` if the region quota of `mem_tile` is used up, and with `Exists` if
    /// the memory gate is exclusive to another tile.
    pub fn add_start(
        &self,
        mgate: &mut MGateObject,
        mem_tile: &TileObject,
        quotas: &QuotaTable,
        user_tile: u64,
    ) -> (r: Result<usize, Code>)
        requires
            mem_tile.exregs_quota < quotas@.len(),
        ensures
            quotas@[mem_tile.exregs_quota as int].left == 0 ==> r == Err::<usize, Code>(
                Code::NoSpace,
            ) && *final(mgate) == *old(mgate),
            quotas@[mem_tile.exregs_quota as int].left > 0 ==> match old(mgate).exclusive {
                Some(t) => if t == user_tile {
                    r == Ok::<usize, Code>(first_clear(self.used@) as usize) && *final(mgate)
                        == *old(mgate)
                } else {
                    r == Err::<usize, Code>(Code::Exists) && *final(mgate) == *old(mgate)
                },
                None => r == Ok::<usize, Code>(first_clear(self.used@) as usize) && *final(mgate)
                    == (MGateObject { exclusive: Some(user_tile), ..*old(mgate) }),
            },
    {
        if quotas.get(mem_tile.exregs_quota).left() == 0 {
            return Err(Code::NoSpace);
        }
        mgate.make_exclusive(user_tile)?;
        Ok(first_clear_bit(&self.used))
    }

    /// Completes adding the region of `mgate` (with identity `mgate_id`) for `user_tile` in slot
    /// `idx`: one unit of the region quota of `mem_tile` is taken and the region recorded.
    pub fn add_finish(
        &mut self,
        mgate: &MGateObject,
        mgate_id: u64,
        quotas: &mut QuotaTable,
        mem_tile: &TileObject,
        user_tile: u64,
        idx: usize,
    )
        requires
            quotas_wf(old(quotas)@),
            mem_tile.exregs_quota < old(quotas)@.len(),
            old(quotas)@[mem_tile.exregs_quota as int].left >= 1,
            idx < old(self).used@.len(),
        ensures
            quotas_wf(final(quotas)@),
            final(quotas)@ == take_one(old(quotas)@, mem_tile.exregs_quota as int),
            final(self).tile == old(self).tile,
            final(self).regions@ == old(self).regions@.push(
                ExclRegion {
                    idx,
                    user_tile,
                    mgate: mgate_id,
                    offset: mgate.addr.offset,
                    size: mgate.size,
                },
            ),
            final(self).used@ == old(self).used@.update(idx as int, true),
    {
        quotas.allocate(mem_tile.exregs_quota, 1);
        self.regions.push(
            ExclRegion {
                idx,
                user_tile,
                mgate: mgate_id,
                offset: mgate.addr.offset,
                size: mgate.size,
            },
        );
        self.used.set(idx, true);
    }

    /// Removes all regions of `tile` and returns them, in their order; the caller ends the
    /// exclusiveness of their gates, gives the quota back and invalidates them at the tile.
    pub fn invalidate(&mut self, tile: u64) -> (r: Vec<ExclRegion>)
        ensures
            final(self).tile == old(self).tile,
            final(self).used@ == old(self).used@,
            final(self).regions@ == old(self).regions@.filter(other_tile(tile)),
            r@ == old(self).regions@.filter(of_tile(tile)),
    {
        let mut kept: Vec<ExclRegion> = Vec::new();
        let mut removed: Vec<ExclRegion> = Vec::new();
        let mut i: usize = 0;
        while i < self.regions.len()
            invariant
                i <= self.regions@.len(),
                kept@ == self.regions@.subrange(0, i as int).filter(other_tile(tile)),
                removed@ == self.regions@.subrange(0, i as int).filter(of_tile(tile)),
            decreases self.regions@.len() - i,
        {
            let e = self.regions[i];
            proof {
                let s = self.regions@.subrange(0, i as int + 1);
                self.regions@.subrange(0, i as int).lemma_filter_push(e, other_tile(tile));
                self.regions@.subrange(0, i as int).lemma_filter_push(e, of_tile(tile));
                assert(self.regions@.subrange(0, i as int).push(e) =~= s);
            }
            if e.user_tile != tile {
                kept.push(e);
            } else {
                removed.push(e);
            }
            i += 1;
        }
        assert(self.regions@.subrange(0, self.regions@.len() as int) =~= self.regions@);
        self.regions = kept;
        removed
    }
}

/// Keeps the regions of tiles other than `tile`.
pub open spec fn other_tile(tile: u64) -> spec_fn(ExclRegion) -> bool {
    |e: ExclRegion| e.user_tile != tile
}

/// Keeps the regions of `tile`.
pub open spec fn of_tile(tile: u64) -> spec_fn(ExclRegion) -> bool {
    |e: ExclRegion| e.user_tile == tile
}

} // verus!
