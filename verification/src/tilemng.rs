//! The kernel's per-tile bookkeeping: tables indexed by chip and tile, the tile objects it
//! hands out for whole tiles, the search for a tile of a given kind, and the order in which
//! tiles are shut down.
use vstd::prelude::*;

use crate::sysc::TileType;
use crate::tiles::{quotas_wf, QuotaTable, TileObject};

verus! {

/// The exclusive regions of the endpoint-memory tile that the kernel keeps for itself.
pub const KERNEL_EPREGS: usize = 4;

/// A table with an optional entry per tile, one row per chip.
pub struct PerTile<T> {
    objs: Vec<Vec<Option<T>>>,
}

/// The contents of the rows.
pub open spec fn rows<T>(v: Seq<Vec<Option<T>>>) -> Seq<Seq<Option<T>>> {
    v.map_values(|r: Vec<Option<T>>| r@)
}

impl<T> View for PerTile<T> {
    type V = Seq<Seq<Option<T>>>;

    closed spec fn view(&self) -> Seq<Seq<Option<T>>> {
        rows(self.objs@)
    }
}

impl<T> PerTile<T> {
    /// An empty table.
    pub fn new() -> (r: Self)
        ensures
            r@ == Seq::<Seq<Option<T>>>::empty(),
    {
        let r = PerTile { objs: Vec::new() };
        assert(r@ =~= Seq::<Seq<Option<T>>>::empty());
        r
    }

    /// The entry of tile `tile` on chip `chip`; the tile has to have a place in the table.
    pub fn get(&self, chip: usize, tile: usize) -> (r: Option<&T>)
        requires
            chip < self@.len(),
            tile < self@[chip as int].len(),
        ensures
            r is Some == self@[chip as int][tile as int] is Some,
            r matches Some(x) ==> self@[chip as int][tile as int] == Some(*x),
    {
        match &self.objs[chip][tile] {
            Some(x) => Some(x),
            None => None,
        }
    }

    /// Adds the entry `obj` for tile `tile` on chip `chip`: chips come one after another, and
    /// within a chip tiles in increasing order, the tiles skipped in between without entry.
    pub fn add(&mut self, chip: usize, tile: usize, obj: T)
        requires
            chip <= old(self)@.len(),
            chip < old(self)@.len() ==> tile >= old(self)@[chip as int].len(),
        ensures
            ({
                let row = if chip < old(self)@.len() {
                    old(self)@[chip as int]
                } else {
                    Seq::<Option<T>>::empty()
                };
                let new_row = row + Seq::new((tile - row.len()) as nat, |j: int| None::<T>).push(
                    Some(obj),
                );
                final(self)@ == if chip < old(self)@.len() {
                    old(self)@.update(chip as int, new_row)
                } else {
                    old(self)@.push(new_row)
                }
            }),
    {
        let ghost old_objs = self.objs@;
        if chip >= self.objs.len() {
            self.objs.push(Vec::new());
        }
        let ghost mid = self.objs@;
        let mut row: Vec<Option<T>> = Vec::new();
        std::mem::swap(&mut row, &mut self.objs[chip]);
        let ghost old_row = row@;
        while row.len() < tile
            invariant
                old_row.len() <= tile,
                row@ == old_row + Seq::new((row@.len() - old_row.len()) as nat, |j: int| None::<T>),
                row@.len() <= tile,
            decreases tile - row@.len(),
        {
            row.push(None);
            proof {
                assert(row@ =~= old_row + Seq::new((row@.len() - old_row.len()) as nat, |j: int| None::<T>));
            }
        }
        row.push(Some(obj));
        self.objs.set(chip, row);
        proof {
            let new_row = old_row + Seq::new((tile - old_row.len()) as nat, |j: int| None::<T>).push(Some(obj));
            assert(row@ =~= new_row);
            if chip < old_objs.len() {
                assert(mid == old_objs);
                assert(rows(self.objs@) =~= rows(old_objs).update(chip as int, new_row));
            } else {
                assert(old_row =~= Seq::<Option<T>>::empty());
                assert(rows(self.objs@) =~= rows(old_objs).push(new_row));
            }
        }
    }
}

/// What the kernel knows of a user tile when it shuts the system down.
#[derive(Clone, Copy, Debug, PartialEq, Eq, Structural)]
pub struct TileStatus {
    pub id: u64,
    /// Does its multiplexer run (i.e., is it not shut down yet)?
    pub initialized: bool,
    /// Is it the root of trust?
    pub rot: bool,
}

/// The running tiles of `s` other than the root of trust, in order.
pub open spec fn running_others(s: Seq<TileStatus>) -> Seq<u64>
    decreases s.len(),
{
    if s.len() == 0 {
        Seq::empty()
    } else {
        let p = running_others(s.drop_last());
        if s.last().initialized && !s.last().rot {
            p.push(s.last().id)
        } else {
            p
        }
    }
}

/// The last running root-of-trust tile of `s`, if any.
pub open spec fn running_rot(s: Seq<TileStatus>) -> Option<u64>
    decreases s.len(),
{
    if s.len() == 0 {
        None
    } else if s.last().initialized && s.last().rot {
        Some(s.last().id)
    } else {
        running_rot(s.drop_last())
    }
}

/// The order in which the user tiles `tiles` are reset when the system shuts down: every
/// running tile but the root of trust in order, and the root of trust last.
pub fn shutdown_order(tiles: &Vec<TileStatus>) -> (r: Vec<u64>)
    ensures
        r@ == running_others(tiles@) + match running_rot(tiles@) {
            Some(t) => seq![t],
            None => Seq::<u64>::empty(),
        },
{
    let mut out: Vec<u64> = Vec::new();
    let mut rot: Option<u64> = None;
    let mut i: usize = 0;
    while i < tiles.len()
        invariant
            i <= tiles@.len(),
            out@ == running_others(tiles@.take(i as int)),
            rot == running_rot(tiles@.take(i as int)),
        decreases tiles@.len() - i,
    {
        let t = tiles[i];
        proof {
            assert(tiles@.take(i + 1).drop_last() =~= tiles@.take(i as int));
            assert(tiles@.take(i + 1).last() == t);
        }
        if t.initialized {
            if t.rot {
                rot = Some(t.id);
            } else {
                out.push(t.id);
            }
        }
        i += 1;
    }
    assert(tiles@.take(tiles@.len() as int) =~= tiles@);
    match rot {
        Some(t) => {
            out.push(t);
        },
        None => {
            assert(out@ =~= out@ + Seq::<u64>::empty());
        },
    }
    out
}

/// A new tile object for compute tile `mux_tile.tile`, as its multiplexer hands it out: a new
/// endpoint quota as large as the one of `mux_tile` in total, a new region quota of
/// `exclusive_regions`, and the multiplexer's time and page-table quotas.
pub fn new_comp_tile_obj(mux_tile: &TileObject, quotas: &mut QuotaTable, exclusive_regions: usize) -> (r:
    TileObject)
    requires
        quotas_wf(old(quotas)@),
        mux_tile.ep_quota < old(quotas)@.len(),
    ensures
        quotas_wf(final(quotas)@),
        final(quotas)@ == old(quotas)@.push(
            crate::kobjs::TileQuota {
                id: old(quotas)@.len() as u64,
                total: old(quotas)@[mux_tile.ep_quota as int].total,
                left: old(quotas)@[mux_tile.ep_quota as int].total,
            },
        ).push(
            crate::kobjs::TileQuota {
                id: (old(quotas)@.len() + 1) as u64,
                total: exclusive_regions,
                left: exclusive_regions,
            },
        ),
        r.tile == mux_tile.tile,
        r.acts().len() == 0,
        r.ep_quota == old(quotas)@.len(),
        r.exregs_quota == old(quotas)@.len() + 1,
        r.time_quota == mux_tile.time_quota,
        r.pt_quota == mux_tile.pt_quota,
        !r.derived,
{
    let total = quotas.get(mux_tile.ep_quota).total();
    let eps = quotas.create(total);
    let exregs = quotas.create(exclusive_regions);
    TileObject::new(mux_tile.tile(), eps, exregs, mux_tile.time_quota_id(), mux_tile.pt_quota_id(), false)
}

/// A new tile object for memory tile `tile`, with no endpoints and no time or page-table quota.
/// For the endpoint-memory tile `epm` it is derived from it and gets the exclusive regions that
/// the kernel does not keep for itself, taken from the quota of `epm`; any other memory tile
/// gets its `exclusive_regions`.
pub fn new_mem_tile_obj(tile: u64, epm: &TileObject, quotas: &mut QuotaTable, exclusive_regions: usize) -> (r:
    TileObject)
    requires
        quotas_wf(old(quotas)@),
        epm.exregs_quota < old(quotas)@.len(),
        tile == epm.tile && old(quotas)@[epm.exregs_quota as int].total != 0 ==> {
            &&& old(quotas)@[epm.exregs_quota as int].total >= KERNEL_EPREGS
            &&& old(quotas)@[epm.exregs_quota as int].left + KERNEL_EPREGS
                >= old(quotas)@[epm.exregs_quota as int].total
        },
    ensures
        ({
            let q = old(quotas)@[epm.exregs_quota as int];
            let num: int = if tile != epm.tile {
                exclusive_regions as int
            } else if q.total == 0 {
                0
            } else {
                q.total - KERNEL_EPREGS
            };
            let taken = if tile == epm.tile {
                old(quotas)@.update(
                    epm.exregs_quota as int,
                    crate::kobjs::TileQuota { left: (q.left - num) as usize, ..q },
                )
            } else {
                old(quotas)@
            };
            &&& final(quotas)@ == taken.push(
                crate::kobjs::TileQuota { id: old(quotas)@.len() as u64, total: 0, left: 0 },
            ).push(
                crate::kobjs::TileQuota {
                    id: (old(quotas)@.len() + 1) as u64,
                    total: num as usize,
                    left: num as usize,
                },
            )
            &&& r.ep_quota == old(quotas)@.len()
            &&& r.exregs_quota == old(quotas)@.len() + 1
            &&& r.derived == (tile == epm.tile)
        }),
        quotas_wf(final(quotas)@),
        r.tile == tile,
        r.acts().len() == 0,
        r.time_quota == 0,
        r.pt_quota == 0,
{
    let (num, derived) = if tile == epm.tile() {
        let total = quotas.get(epm.exregs_quota).total();
        let num = if total == 0 {
            0
        } else {
            total - KERNEL_EPREGS
        };
        quotas.allocate(epm.exregs_quota, num);
        (num, true)
    } else {
        (exclusive_regions, false)
    };
    let eps = quotas.create(0);
    let exregs = quotas.create(num);
    TileObject::new(tile, eps, exregs, 0, 0, derived)
}

/// A user tile with its instruction set and type.
#[derive(Clone, Copy, Debug, PartialEq, Eq, Structural)]
pub struct UserTile {
    pub id: u64,
    pub isa: u32,
    pub ty: TileType,
}

/// The index of the first of `tiles` from `from` on with instruction set `isa` and type `ty`.
pub open spec fn spec_find_tile(tiles: Seq<UserTile>, isa: u32, ty: TileType, from: int) -> Option<int>
    decreases tiles.len() - from,
{
    if from < 0 || from >= tiles.len() {
        None
    } else if tiles[from].isa == isa && tiles[from].ty == ty {
        Some(from)
    } else {
        spec_find_tile(tiles, isa, ty, from + 1)
    }
}

/// The first user tile with instruction set `isa` and type `ty`, if any.
pub fn find_tile(tiles: &Vec<UserTile>, isa: u32, ty: TileType) -> (r: Option<u64>)
    ensures
        r == match spec_find_tile(tiles@, isa, ty, 0) {
            Some(i) => Some(tiles@[i].id),
            None => None::<u64>,
        },
{
    let mut i: usize = 0;
    while i < tiles.len()
        invariant
            i <= tiles@.len(),
            spec_find_tile(tiles@, isa, ty, 0) == spec_find_tile(tiles@, isa, ty, i as int),
        decreases tiles@.len() - i,
    {
        if tiles[i].isa == isa && tiles[i].ty == ty {
            return Some(tiles[i].id);
        }
        i += 1;
    }
    None
}

} // verus!
