//! Tiles and activities: tile objects with their endpoint and region quotas, the kernel's view
//! of each tile multiplexer, and the life cycle of activities.
use vstd::prelude::*;

use crate::eps::{free_run, search_start, EpAllocator};
use crate::errors::Code;
use crate::kobjs::TileQuota;

verus! {

/// All tile quotas; a quota's id is its index.
pub struct QuotaTable {
    quotas: Vec<TileQuota>,
}

impl View for QuotaTable {
    type V = Seq<TileQuota>;

    closed spec fn view(&self) -> Seq<TileQuota> {
        self.quotas@
    }
}

/// Every quota has its index as id and never more left than in total.
pub open spec fn quotas_wf(q: Seq<TileQuota>) -> bool {
    forall|i: int| 0 <= i < q.len() ==> #[trigger] q[i].id == i && q[i].wf()
}

impl QuotaTable {
    pub fn new() -> (r: Self)
        ensures
            r@ == Seq::<TileQuota>::empty(),
    {
        QuotaTable { quotas: Vec::new() }
    }

    /// Creates a quota of `num` units and returns its id, the next unused one.
    pub fn create(&mut self, num: usize) -> (r: usize)
        requires
            quotas_wf(old(self)@),
        ensures
            r == old(self)@.len(),
            final(self)@ == old(self)@.push(TileQuota { id: r as u64, total: num, left: num }),
            quotas_wf(final(self)@),
    {
        let id = self.quotas.len();
        self.quotas.push(TileQuota::new(id as u64, num));
        proof {
            assert forall|i: int| 0 <= i < self@.len() implies #[trigger] self@[i].id == i
                && self@[i].wf() by {
                if i < id {
                    assert(self@[i] == old(self)@[i]);
                }
            }
        }
        id
    }

    pub fn get(&self, id: usize) -> (r: TileQuota)
        requires
            id < self@.len(),
        ensures
            r == self@[id as int],
    {
        self.quotas[id]
    }

    /// Takes `num` units from quota `id`.
    pub fn allocate(&mut self, id: usize, num: usize)
        requires
            quotas_wf(old(self)@),
            id < old(self)@.len(),
            old(self)@[id as int].left >= num,
        ensures
            quotas_wf(final(self)@),
            final(self)@ == old(self)@.update(
                id as int,
                TileQuota { left: (old(self)@[id as int].left - num) as usize, ..old(self)@[id as int] },
            ),
    {
        let mut q = self.quotas[id];
        q.allocate(num);
        self.quotas.set(id, q);
        proof {
            assert forall|i: int| 0 <= i < self@.len() implies #[trigger] self@[i].id == i
                && self@[i].wf() by {
                if i != id {
                    assert(self@[i] == old(self)@[i]);
                }
            }
        }
    }

    /// Gives `num` units back to quota `id`.
    pub fn free(&mut self, id: usize, num: usize)
        requires
            quotas_wf(old(self)@),
            id < old(self)@.len(),
            old(self)@[id as int].left + num <= old(self)@[id as int].total,
        ensures
            quotas_wf(final(self)@),
            final(self)@ == old(self)@.update(
                id as int,
                TileQuota { left: (old(self)@[id as int].left + num) as usize, ..old(self)@[id as int] },
            ),
    {
        let mut q = self.quotas[id];
        q.free(num);
        self.quotas.set(id, q);
        proof {
            assert forall|i: int| 0 <= i < self@.len() implies #[trigger] self@[i].id == i
                && self@[i].wf() by {
                if i != id {
                    assert(self@[i] == old(self)@[i]);
                }
            }
        }
    }

    /// Resets quota `id` to `total` units, all of them left.
    pub fn reset(&mut self, id: usize, total: usize)
        requires
            quotas_wf(old(self)@),
            id < old(self)@.len(),
        ensures
            quotas_wf(final(self)@),
            final(self)@ == old(self)@.update(
                id as int,
                TileQuota { total, left: total, ..old(self)@[id as int] },
            ),
    {
        let mut q = self.quotas[id];
        q.reset(total);
        self.quotas.set(id, q);
        proof {
            assert forall|i: int| 0 <= i < self@.len() implies #[trigger] self@[i].id == i
                && self@[i].wf() by {
                if i != id {
                    assert(self@[i] == old(self)@[i]);
                }
            }
        }
    }
}

/// An activity using a tile, identified by its id and the selector of its capability.
#[derive(Clone, Copy, Debug, PartialEq, Eq, Structural)]
pub struct ActSel {
    pub act: u64,
    pub sel: u64,
}

/// The quota that releasing a derived tile object gives back to its parent: the units left of
/// a quota the child does not share with the parent.
pub open spec fn spec_refund(child_quota: usize, parent_quota: usize, q: Seq<TileQuota>) -> int {
    if child_quota != parent_quota {
        q[child_quota as int].left as int
    } else {
        0
    }
}

/// Keeps every entry but that of activity `act` with selector `sel`.
pub open spec fn other_than(act: u64, sel: u64) -> spec_fn(ActSel) -> bool {
    |a: ActSel| !(a.act == act && a.sel == sel)
}

/// Keeps every activity but `act`.
pub open spec fn other_act(act: u64) -> spec_fn(u64) -> bool {
    |a: u64| a != act
}

/// A tile object: the right to use a tile, with quotas for endpoints and exclusive regions.
pub struct TileObject {
    pub tile: u64,
    pub acts: Vec<ActSel>,
    pub ep_quota: usize,
    pub exregs_quota: usize,
    pub time_quota: u64,
    pub pt_quota: u64,
    pub derived: bool,
}

impl TileObject {
    /// The activities using the tile through this object.
    pub open spec fn acts(&self) -> Seq<ActSel> {
        self.acts@
    }

    pub fn new(
        tile: u64,
        ep_quota: usize,
        exregs_quota: usize,
        time_quota: u64,
        pt_quota: u64,
        derived: bool,
    ) -> (r: Self)
        ensures
            r.tile == tile,
            r.acts() == Seq::<ActSel>::empty(),
            r.ep_quota == ep_quota,
            r.exregs_quota == exregs_quota,
            r.time_quota == time_quota,
            r.pt_quota == pt_quota,
            r.derived == derived,
    {
        TileObject { tile, acts: Vec::new(), ep_quota, exregs_quota, time_quota, pt_quota, derived }
    }

    pub fn tile(&self) -> (r: u64)
        ensures
            r == self.tile,
    {
        self.tile
    }

    pub fn derived(&self) -> (r: bool)
        ensures
            r == self.derived,
    {
        self.derived
    }

    pub fn time_quota_id(&self) -> (r: u64)
        ensures
            r == self.time_quota,
    {
        self.time_quota
    }

    pub fn pt_quota_id(&self) -> (r: u64)
        ensures
            r == self.pt_quota,
    {
        self.pt_quota
    }

    /// The number of activities using the tile through this object.
    pub fn activities(&self) -> (r: usize)
        ensures
            r == self.acts().len(),
    {
        self.acts.len()
    }

    /// Are at least `eps` endpoints left in the endpoint quota?
    pub fn has_quota(&self, quotas: &QuotaTable, eps: usize) -> (r: bool)
        requires
            self.ep_quota < quotas@.len(),
        ensures
            r == (quotas@[self.ep_quota as int].left >= eps),
    {
        quotas.get(self.ep_quota).left() >= eps
    }

    pub fn add_activity(&mut self, act: u64, sel: u64)
        ensures
            final(self).acts() == old(self).acts().push(ActSel { act, sel }),
            final(self).tile == old(self).tile,
            final(self).ep_quota == old(self).ep_quota,
            final(self).exregs_quota == old(self).exregs_quota,
            final(self).derived == old(self).derived,
    {
        self.acts.push(ActSel { act, sel });
    }

    /// Removes activity `act` with capability selector `sel` (it may already be gone).
    pub fn rem_activity(&mut self, act: u64, sel: u64)
        ensures
            final(self).acts() == old(self).acts().filter(other_than(act, sel)),
            final(self).tile == old(self).tile,
            final(self).ep_quota == old(self).ep_quota,
            final(self).exregs_quota == old(self).exregs_quota,
            final(self).derived == old(self).derived,
    {
        let mut kept: Vec<ActSel> = Vec::new();
        let mut i: usize = 0;
        while i < self.acts.len()
            invariant
                i <= self.acts@.len(),
                kept@ == self.acts@.subrange(0, i as int).filter(other_than(act, sel)),
            decreases self.acts@.len() - i,
        {
            let a = self.acts[i];
            proof {
                let s = self.acts@.subrange(0, i as int + 1);
                self.acts@.subrange(0, i as int).lemma_filter_push(a, other_than(act, sel));
                assert(self.acts@.subrange(0, i as int).push(a) =~= s);
            }
            if !(a.act == act && a.sel == sel) {
                kept.push(a);
            }
            i += 1;
        }
        assert(self.acts@.subrange(0, self.acts@.len() as int) =~= self.acts@);
        self.acts = kept;
    }

    /// Takes the activity that was added last, if any.
    pub fn pop_activity(&mut self) -> (r: Option<ActSel>)
        ensures
            old(self).acts().len() == 0 ==> r is None && final(self).acts() == old(self).acts(),
            old(self).acts().len() > 0 ==> r == Some(old(self).acts().last()) && final(self).acts()
                == old(self).acts().drop_last(),
            final(self).tile == old(self).tile,
            final(self).ep_quota == old(self).ep_quota,
            final(self).exregs_quota == old(self).exregs_quota,
            final(self).derived == old(self).derived,
    {
        self.acts.pop()
    }

    /// Starts deriving a tile object: takes `eps` endpoints (if given) from the endpoint quota.
    ///
    /// Fails with `NoSpace` if too few are left.
    pub fn derive_start(&self, quotas: &mut QuotaTable, eps: Option<usize>) -> (r: Result<(), Code>)
        requires
            quotas_wf(old(quotas)@),
            self.ep_quota < old(quotas)@.len(),
        ensures
            quotas_wf(final(quotas)@),
            match eps {
                None => r is Ok && final(quotas)@ == old(quotas)@,
                Some(n) => if old(quotas)@[self.ep_quota as int].left >= n {
                    r is Ok && final(quotas)@ == old(quotas)@.update(
                        self.ep_quota as int,
                        TileQuota {
                            left: (old(quotas)@[self.ep_quota as int].left - n) as usize,
                            ..old(quotas)@[self.ep_quota as int]
                        },
                    )
                } else {
                    r == Err::<(), Code>(Code::NoSpace) && final(quotas)@ == old(quotas)@
                },
            },
    {
        if let Some(num) = eps {
            if !self.has_quota(quotas, num) {
                return Err(Code::NoSpace);
            }
            quotas.allocate(self.ep_quota, num);
        }
        Ok(())
    }

    /// Finishes deriving a tile object with the time and page-table quotas that the
    /// multiplexer created: own quotas are created for the given endpoint and region counts,
    /// the others are shared with this object.
    pub fn derive_finish(
        &self,
        quotas: &mut QuotaTable,
        eps: Option<usize>,
        exregs: Option<usize>,
        time_quota: u64,
        pt_quota: u64,
    ) -> (r: TileObject)
        requires
            quotas_wf(old(quotas)@),
        ensures
            quotas_wf(final(quotas)@),
            r.tile == self.tile,
            r.acts() == Seq::<ActSel>::empty(),
            r.derived,
            r.time_quota == time_quota,
            r.pt_quota == pt_quota,
            match eps {
                Some(n) => r.ep_quota == old(quotas)@.len() && final(quotas)@[r.ep_quota as int]
                    == (TileQuota { id: r.ep_quota as u64, total: n, left: n }),
                None => r.ep_quota == self.ep_quota,
            },
            match exregs {
                Some(n) => r.exregs_quota == final(quotas)@.len() - 1 && final(
                    quotas)@[r.exregs_quota as int] == (TileQuota {
                    id: r.exregs_quota as u64,
                    total: n,
                    left: n,
                }),
                None => r.exregs_quota == self.exregs_quota,
            },
            final(quotas)@.subrange(0, old(quotas)@.len() as int) == old(quotas)@,
            final(quotas)@.len() == old(quotas)@.len() + (if eps is Some {
                1int
            } else {
                0
            }) + (if exregs is Some {
                1int
            } else {
                0
            }),
    {
        let ep_quota = match eps {
            Some(n) => quotas.create(n),
            None => self.ep_quota,
        };
        let ghost mid = quotas@;
        let exregs_quota = match exregs {
            Some(n) => quotas.create(n),
            None => self.exregs_quota,
        };
        proof {
            if eps is Some {
                assert(quotas@[ep_quota as int] == mid[ep_quota as int]);
            }
            assert(quotas@.subrange(0, old(quotas)@.len() as int) =~= old(quotas)@);
        }
        TileObject::new(self.tile, ep_quota, exregs_quota, time_quota, pt_quota, true)
    }

    /// Whether deriving a tile object asks the multiplexer for new time and page-table quotas:
    /// only on tiles that run one (`supports_mux`) and only if either is requested.
    pub fn derive_asks_mux(supports_mux: bool, time: Option<u64>, pts: Option<usize>) -> (r: bool)
        ensures
            r == (supports_mux && (time is Some || pts is Some)),
    {
        supports_mux && (time.is_some() || pts.is_some())
    }

    /// Completes deriving a tile object after `derive_start` took the `eps` endpoints: `mux` is
    /// the multiplexer's answer on new time and page-table quotas if it was asked (see
    /// `derive_asks_mux`). Without asking, the new object keeps this object's quota ids; with
    /// the multiplexer's new ids, it gets those (see `derive_finish`).
    ///
    /// Fails with the multiplexer's error if it declines; then the endpoints go back to the
    /// endpoint quota.
    pub fn derive_complete(
        &self,
        quotas: &mut QuotaTable,
        eps: Option<usize>,
        exregs: Option<usize>,
        mux: Option<Result<(u64, u64), Code>>,
    ) -> (r: Result<TileObject, Code>)
        requires
            quotas_wf(old(quotas)@),
            self.ep_quota < old(quotas)@.len(),
            mux matches Some(Err(_)) ==> match eps {
                Some(n) => old(quotas)@[self.ep_quota as int].left + n
                    <= old(quotas)@[self.ep_quota as int].total,
                None => true,
            },
        ensures
            quotas_wf(final(quotas)@),
            match mux {
                Some(Err(e)) => {
                    &&& r == Err::<TileObject, Code>(e)
                    &&& final(quotas)@ == match eps {
                        Some(n) => old(quotas)@.update(
                            self.ep_quota as int,
                            TileQuota {
                                left: (old(quotas)@[self.ep_quota as int].left + n) as usize,
                                ..old(quotas)@[self.ep_quota as int]
                            },
                        ),
                        None => old(quotas)@,
                    }
                },
                _ => r matches Ok(t) && {
                    let (time, pts) = match mux {
                        Some(Ok((a, b))) => (a, b),
                        _ => (self.time_quota, self.pt_quota),
                    };
                    &&& t.tile == self.tile
                    &&& t.acts() == Seq::<ActSel>::empty()
                    &&& t.derived
                    &&& t.time_quota == time
                    &&& t.pt_quota == pts
                    &&& match eps {
                        Some(n) => t.ep_quota == old(quotas)@.len() && final(quotas)@[t.ep_quota as int]
                            == (TileQuota { id: t.ep_quota as u64, total: n, left: n }),
                        None => t.ep_quota == self.ep_quota,
                    }
                    &&& match exregs {
                        Some(n) => t.exregs_quota == final(quotas)@.len() - 1
                            && final(quotas)@[t.exregs_quota as int] == (TileQuota {
                            id: t.exregs_quota as u64,
                            total: n,
                            left: n,
                        }),
                        None => t.exregs_quota == self.exregs_quota,
                    }
                    &&& final(quotas)@.len() == old(quotas)@.len() + (if eps is Some {
                        1int
                    } else {
                        0
                    }) + (if exregs is Some {
                        1int
                    } else {
                        0
                    })
                    &&& final(quotas)@.subrange(0, old(quotas)@.len() as int) == old(quotas)@
                },
            },
    {
        let (time, pts) = match mux {
            Some(Err(e)) => {
                if let Some(n) = eps {
                    quotas.free(self.ep_quota, n);
                }
                return Err(e);
            },
            Some(Ok((a, b))) => (a, b),
            None => (self.time_quota_id(), self.pt_quota_id()),
        };
        Ok(self.derive_finish(quotas, eps, exregs, time, pts))
    }

    /// The time and page-table quotas that have to be removed at the multiplexer when this
    /// object, derived from `parent`, is revoked: those it does not share with the parent.
    pub fn quotas_to_remove(&self, parent: &TileObject) -> (r: (Option<u64>, Option<u64>))
        ensures
            r.0 == (if self.time_quota != parent.time_quota {
                Some(self.time_quota)
            } else {
                None
            }),
            r.1 == (if self.pt_quota != parent.pt_quota {
                Some(self.pt_quota)
            } else {
                None
            }),
    {
        let time = if self.time_quota != parent.time_quota {
            Some(self.time_quota)
        } else {
            None
        };
        let pts = if self.pt_quota != parent.pt_quota {
            Some(self.pt_quota)
        } else {
            None
        };
        (time, pts)
    }

    /// Gives the endpoint and region quotas of this object, revoked and no longer in use, back
    /// to `parent`, unless they are shared with it.
    pub fn revoke_quotas(&self, parent: &TileObject, quotas: &mut QuotaTable)
        requires
            quotas_wf(old(quotas)@),
            self.ep_quota < old(quotas)@.len(),
            self.exregs_quota < old(quotas)@.len(),
            parent.ep_quota < old(quotas)@.len(),
            parent.exregs_quota < old(quotas)@.len(),
            self.ep_quota != parent.ep_quota ==> old(quotas)@[self.ep_quota as int].left == old(
                quotas)@[self.ep_quota as int].total,
            self.exregs_quota != parent.exregs_quota ==> old(quotas)@[self.exregs_quota as int].left
                == old(quotas)@[self.exregs_quota as int].total,
            self.ep_quota != parent.ep_quota ==> old(quotas)@[parent.ep_quota as int].left + old(
                quotas)@[self.ep_quota as int].left <= old(quotas)@[parent.ep_quota as int].total,
            self.exregs_quota != parent.exregs_quota ==> old(quotas)@[parent.exregs_quota as int].left
                + old(quotas)@[self.exregs_quota as int].left <= old(
                quotas)@[parent.exregs_quota as int].total,
            parent.ep_quota != parent.exregs_quota,
            self.ep_quota != parent.exregs_quota,
            self.exregs_quota != parent.ep_quota,
        ensures
            quotas_wf(final(quotas)@),
            final(quotas)@.len() == old(quotas)@.len(),
            final(quotas)@[parent.ep_quota as int].left == old(quotas)@[parent.ep_quota as int].left
                + spec_refund(self.ep_quota, parent.ep_quota, old(quotas)@),
            final(quotas)@[parent.exregs_quota as int].left == old(
                quotas,
            )@[parent.exregs_quota as int].left + spec_refund(
                self.exregs_quota,
                parent.exregs_quota,
                old(quotas)@,
            ),
            forall|i: int|
                0 <= i < old(quotas)@.len() && i != parent.ep_quota && i != parent.exregs_quota
                    ==> #[trigger] final(quotas)@[i] == old(quotas)@[i],
    {
        if self.ep_quota != parent.ep_quota {
            let left = quotas.get(self.ep_quota).left();
            quotas.free(parent.ep_quota, left);
        }
        if self.exregs_quota != parent.exregs_quota {
            let left = quotas.get(self.exregs_quota).left();
            quotas.free(parent.exregs_quota, left);
        }
    }
}

/// Law: deriving a tile object with an own endpoint quota of `n` endpoints and revoking it again
/// (its quota unused) leaves the parent's endpoint quota as it was: `derive_start` takes the
/// endpoints, `derive_finish` appends the child's quota, and `revoke_quotas` refunds what the
/// child has left.
pub proof fn lemma_derive_revoke_quota(q: Seq<TileQuota>, pe: int, n: usize)
    requires
        quotas_wf(q),
        0 <= pe < q.len(),
        q.len() < usize::MAX,
        q[pe].left >= n,
    ensures
        ({
            let q1 = q.update(pe, TileQuota { left: (q[pe].left - n) as usize, ..q[pe] });
            let child = q1.len() as usize;
            let q2 = q1.push(TileQuota { id: child as u64, total: n, left: n });
            &&& quotas_wf(q2)
            &&& q2[pe].left + spec_refund(child, pe as usize, q2) == q[pe].left
            &&& q2[pe].left + spec_refund(child, pe as usize, q2) <= q2[pe].total
        }),
{
    let q1 = q.update(pe, TileQuota { left: (q[pe].left - n) as usize, ..q[pe] });
    let child = q1.len() as usize;
    let q2 = q1.push(TileQuota { id: child as u64, total: n, left: n });
    assert forall|i: int| 0 <= i < q2.len() implies #[trigger] q2[i].id == i && q2[i].wf() by {
        if i < q.len() && i != pe {
            assert(q2[i] == q[i]);
        }
    }
    assert(q2[pe] == q1[pe]);
    assert(q2[child as int].left == n);
}

/// Law: a derivation that the multiplexer declines leaves the endpoint quota as it was:
/// `derive_start` takes the `n` endpoints and `derive_complete` gives them back.
pub proof fn lemma_derive_declined_quota(q: Seq<TileQuota>, pe: int, n: usize)
    requires
        0 <= pe < q.len(),
        q[pe].left >= n,
    ensures
        ({
            let q1 = q.update(pe, TileQuota { left: (q[pe].left - n) as usize, ..q[pe] });
            q1.update(pe, TileQuota { left: (q1[pe].left + n) as usize, ..q1[pe] }) == q
        }),
{
    let q1 = q.update(pe, TileQuota { left: (q[pe].left - n) as usize, ..q[pe] });
    assert(q1.update(pe, TileQuota { left: (q1[pe].left + n) as usize, ..q1[pe] }) =~= q);
}

/// The state of the kernel's connection to the multiplexer of a tile.
pub struct TileMux {
    pub tile: u64,
    pub acts: Vec<u64>,
    pub eps: Option<EpAllocator>,
    pub shutdown: bool,
}

impl TileMux {
    /// The activities on the tile.
    pub open spec fn acts(&self) -> Seq<u64> {
        self.acts@
    }

    /// The endpoint usage, if the tile has been initialized.
    pub open spec fn eps(&self) -> Option<Seq<bool>> {
        match self.eps {
            Some(e) => Some(e.used()),
            None => None,
        }
    }

    pub open spec fn wf(&self) -> bool {
        self.eps matches Some(e) ==> e.wf()
    }

    pub fn new(tile: u64) -> (r: Self)
        ensures
            r.wf(),
            r.tile == tile,
            r.acts() == Seq::<u64>::empty(),
            r.eps() is None,
            !r.shutdown,
    {
        TileMux { tile, acts: Vec::new(), eps: None, shutdown: false }
    }

    /// Initializes the endpoint state for a tile with `num` endpoints.
    pub fn init_state(&mut self, num: usize)
        requires
            old(self).eps() is None,
            crate::tcu::FIRST_USER_EP <= num < crate::tcu::INVALID_EP,
        ensures
            final(self).wf(),
            final(self).eps() matches Some(e) && e.len() == num && forall|j: int|
                0 <= j < num ==> #[trigger] e[j] == (j == 0 || (crate::tcu::PMEM_PROT_EPS <= j
                    < crate::tcu::FIRST_USER_EP)),
            final(self).acts() == old(self).acts(),
            final(self).tile == old(self).tile,
            final(self).shutdown == old(self).shutdown,
    {
        self.eps = Some(EpAllocator::new(num));
    }

    /// Drops the endpoint state.
    pub fn deinit_state(&mut self)
        ensures
            final(self).wf(),
            final(self).eps() is None,
            final(self).acts() == old(self).acts(),
            final(self).tile == old(self).tile,
            final(self).shutdown == old(self).shutdown,
    {
        self.eps = None;
    }

    /// Can the kernel talk to the multiplexer?
    pub fn is_initialized(&self) -> (r: bool)
        ensures
            r == (self.eps() is Some && !self.shutdown),
    {
        self.eps.is_some() && !self.shutdown
    }

    pub fn has_activities(&self) -> (r: bool)
        ensures
            r == (self.acts().len() > 0),
    {
        self.acts.len() > 0
    }

    pub fn add_activity(&mut self, act: u64)
        ensures
            final(self).acts() == old(self).acts().push(act),
            final(self).eps() == old(self).eps(),
            final(self).tile == old(self).tile,
            final(self).shutdown == old(self).shutdown,
            old(self).wf() ==> final(self).wf(),
    {
        self.acts.push(act);
    }

    /// Removes activity `act` from the tile, which has to have activities.
    pub fn rem_activity(&mut self, act: u64)
        requires
            old(self).acts().len() > 0,
        ensures
            final(self).acts() == old(self).acts().filter(other_act(act)),
            final(self).eps() == old(self).eps(),
            final(self).tile == old(self).tile,
            final(self).shutdown == old(self).shutdown,
            old(self).wf() ==> final(self).wf(),
    {
        let mut kept: Vec<u64> = Vec::new();
        let mut i: usize = 0;
        while i < self.acts.len()
            invariant
                i <= self.acts@.len(),
                kept@ == self.acts@.subrange(0, i as int).filter(other_act(act)),
            decreases self.acts@.len() - i,
        {
            let a = self.acts[i];
            proof {
                let s = self.acts@.subrange(0, i as int + 1);
                self.acts@.subrange(0, i as int).lemma_filter_push(a, other_act(act));
                assert(self.acts@.subrange(0, i as int).push(a) =~= s);
            }
            if a != act {
                kept.push(a);
            }
            i += 1;
        }
        assert(self.acts@.subrange(0, self.acts@.len() as int) =~= self.acts@);
        self.acts = kept;
    }

    /// The number of endpoints, if initialized.
    pub fn ep_count(&self) -> (r: Option<usize>)
        ensures
            match self.eps() {
                Some(e) => r == Some(e.len() as usize),
                None => r is None,
            },
    {
        match &self.eps {
            Some(e) => Some(e.size()),
            None => None,
        }
    }

    /// Searches `count` contiguous free endpoints; fails with `InvState` if the tile is not
    /// initialized.
    pub fn find_eps(&self, count: usize) -> (r: Result<u16, Code>)
        requires
            self.wf(),
        ensures
            self.eps() is None ==> r == Err::<u16, Code>(Code::InvState),
            self.eps() matches Some(e) ==> match r {
                Ok(s) => s >= search_start(e) && (count > 0 ==> free_run(e, s as int, count as int))
                    && forall|t: int| search_start(e) <= t < s ==> !free_run(e, t, count as int),
                Err(c) => c == Code::NoSpace && count > 0 && forall|t: int|
                    search_start(e) <= t ==> !free_run(e, t, count as int),
            },
    {
        match &self.eps {
            Some(e) => e.find_eps(count),
            None => Err(Code::InvState),
        }
    }

    /// Are the `count` endpoints from `start` on free? `false` if the tile is not initialized.
    pub fn eps_free(&self, start: u16, count: usize) -> (r: bool)
        requires
            self.eps() matches Some(e) ==> start + count <= e.len(),
        ensures
            r == (self.eps() matches Some(e) && free_run(e, start as int, count as int)),
    {
        match &self.eps {
            Some(e) => e.eps_free(start, count),
            None => false,
        }
    }

    /// Allocates the `count` endpoints from `start` on (nothing if not initialized).
    pub fn alloc_eps(&mut self, start: u16, count: usize)
        requires
            old(self).eps() matches Some(e) ==> free_run(e, start as int, count as int),
        ensures
            match old(self).eps() {
                Some(e) => final(self).eps() == Some(
                    crate::eps::mark(e, start as int, count as int, true),
                ),
                None => final(self).eps() is None,
            },
            final(self).acts() == old(self).acts(),
            final(self).tile == old(self).tile,
            final(self).shutdown == old(self).shutdown,
            old(self).wf() ==> final(self).wf(),
    {
        match self.eps.take() {
            Some(mut e) => {
                e.alloc_eps(start, count);
                self.eps = Some(e);
            },
            None => {},
        }
    }

    /// Frees the `count` endpoints from `start` on (nothing if not initialized).
    pub fn free_eps(&mut self, start: u16, count: usize)
        requires
            old(self).eps() matches Some(e) ==> crate::eps::used_run(e, start as int, count as int),
        ensures
            match old(self).eps() {
                Some(e) => final(self).eps() == Some(
                    crate::eps::mark(e, start as int, count as int, false),
                ),
                None => final(self).eps() is None,
            },
            final(self).acts() == old(self).acts(),
            final(self).tile == old(self).tile,
            final(self).shutdown == old(self).shutdown,
            old(self).wf() ==> final(self).wf(),
    {
        match self.eps.take() {
            Some(mut e) => {
                e.free_eps(start, count);
                self.eps = Some(e);
            },
            None => {},
        }
    }
}

/// The maximum number of activities.
pub const MAX_ACTS: usize = 64;

/// The activity ids in use.
pub struct ActivityMng {
    pub used: Vec<bool>,
    pub count: usize,
    pub next_id: usize,
}

/// The first unused id from `from` on (below `to`), if any.
pub open spec fn first_unused(used: Seq<bool>, from: int, to: int) -> Option<int>
    decreases to - from,
{
    if from >= to || from < 0 || from >= used.len() {
        None
    } else if !used[from] {
        Some(from)
    } else {
        first_unused(used, from + 1, to)
    }
}

/// The id that the next activity gets: the first unused one from `next` on, else the first
/// unused one before `next`.
pub open spec fn spec_next_id(used: Seq<bool>, next: int) -> Option<int> {
    match first_unused(used, next, used.len() as int) {
        Some(i) => Some(i),
        None => first_unused(used, 0, next),
    }
}

impl ActivityMng {
    /// Which ids are in use.
    pub open spec fn used(&self) -> Seq<bool> {
        self.used@
    }

    pub open spec fn wf(&self) -> bool {
        &&& self.used().len() == MAX_ACTS
        &&& self.next_id <= MAX_ACTS
    }

    pub fn new() -> (r: Self)
        ensures
            r.wf(),
            r.count == 0,
            r.next_id == 0,
            forall|i: int| 0 <= i < MAX_ACTS ==> !#[trigger] r.used()[i],
    {
        let mut used: Vec<bool> = Vec::new();
        let mut i: usize = 0;
        while i < MAX_ACTS
            invariant
                i <= MAX_ACTS,
                used@.len() == i,
                forall|j: int| 0 <= j < i ==> !#[trigger] used@[j],
            decreases MAX_ACTS - i,
        {
            used.push(false);
            i += 1;
        }
        ActivityMng { used, count: 0, next_id: 0 }
    }

    /// Is an activity with this id alive?
    pub fn is_used(&self, id: usize) -> (r: bool)
        requires
            id < self.used().len(),
        ensures
            r == self.used()[id as int],
    {
        self.used[id]
    }

    /// Determines the id for a new activity; fails with `NoSpace` if all ids are in use.
    pub fn get_id(&mut self) -> (r: Result<usize, Code>)
        requires
            old(self).wf(),
        ensures
            final(self).wf(),
            final(self).used() == old(self).used(),
            final(self).count == old(self).count,
            match spec_next_id(old(self).used(), old(self).next_id as int) {
                Some(i) => r == Ok::<usize, Code>(i as usize) && final(self).next_id == i + 1,
                None => r == Err::<usize, Code>(Code::NoSpace) && final(self).next_id == old(
                    self).next_id,
            },
    {
        let mut id = self.next_id;
        while id < MAX_ACTS
            invariant
                self.wf(),
                self.next_id <= id <= MAX_ACTS,
                self.next_id == old(self).next_id,
                self.used() == old(self).used(),
                self.count == old(self).count,
                first_unused(self.used(), self.next_id as int, MAX_ACTS as int) == first_unused(
                    self.used(),
                    id as int,
                    MAX_ACTS as int,
                ),
            decreases MAX_ACTS - id,
        {
            if !self.used[id] {
                self.next_id = id + 1;
                return Ok(id);
            }
            id += 1;
        }
        let mut id: usize = 0;
        while id < self.next_id
            invariant
                self.wf(),
                id <= self.next_id,
                self.next_id == old(self).next_id,
                self.used() == old(self).used(),
                self.count == old(self).count,
                first_unused(self.used(), self.next_id as int, MAX_ACTS as int) is None,
                first_unused(self.used(), 0, self.next_id as int) == first_unused(
                    self.used(),
                    id as int,
                    self.next_id as int,
                ),
            decreases self.next_id - id,
        {
            if !self.used[id] {
                self.next_id = id + 1;
                return Ok(id);
            }
            id += 1;
        }
        Err(Code::NoSpace)
    }

    /// Registers the activity with id `id`.
    pub fn add(&mut self, id: usize)
        requires
            old(self).wf(),
            id < MAX_ACTS,
            old(self).count < usize::MAX,
        ensures
            final(self).wf(),
            final(self).used() == old(self).used().update(id as int, true),
            final(self).count == old(self).count + 1,
            final(self).next_id == old(self).next_id,
    {
        self.used.set(id, true);
        self.count = self.count + 1;
    }

    /// Marks the id of a destroyed activity as unused.
    pub fn free(&mut self, id: usize)
        requires
            old(self).wf(),
            id < MAX_ACTS,
        ensures
            final(self).wf(),
            final(self).used() == old(self).used().update(id as int, false),
            final(self).count == old(self).count,
            final(self).next_id == old(self).next_id,
    {
        self.used.set(id, false);
    }

    /// Removes a destroyed activity from the count.
    pub fn remove_activity(&mut self, id: usize)
        requires
            old(self).wf(),
            id < MAX_ACTS,
            old(self).count > 0,
            id != 0 ==> !old(self).used()[id as int],
        ensures
            final(self).wf(),
            final(self).used() == old(self).used(),
            final(self).count == old(self).count - 1,
            final(self).next_id == old(self).next_id,
    {
        self.count = self.count - 1;
    }
}

/// Law: a new id is never one in use.
pub proof fn lemma_next_id_unused(used: Seq<bool>, next: int)
    requires
        0 <= next <= used.len(),
    ensures
        spec_next_id(used, next) matches Some(i) ==> 0 <= i < used.len() && !used[i],
        spec_next_id(used, next) is None ==> forall|i: int| 0 <= i < used.len() ==> #[trigger] used[i],
{
    lemma_first_unused(used, next, used.len() as int);
    lemma_first_unused(used, 0, next);
}

/// Lemma: the first unused id in a range is unused, and all before it are used.
pub proof fn lemma_first_unused(used: Seq<bool>, from: int, to: int)
    requires
        0 <= from,
        to <= used.len(),
    ensures
        first_unused(used, from, to) matches Some(i) ==> from <= i < to && !used[i] && forall|j: int|
            from <= j < i ==> #[trigger] used[j],
        first_unused(used, from, to) is None ==> forall|j: int| from <= j < to ==> #[trigger] used[j],
    decreases to - from,
{
    if from < to {
        lemma_first_unused(used, from + 1, to);
    }
}

/// The life-cycle states of an activity.
#[derive(Clone, Copy, Debug, PartialEq, Eq, Structural)]
pub enum ActState {
    Init,
    Running,
    Stopping,
    Dead,
}

/// What stopping an activity requires.
#[derive(Clone, Copy, Debug, PartialEq, Eq, Structural)]
pub enum StopAction {
    /// The activity is already dead.
    Nothing,
    /// Another thread is stopping it: wait until it is dead.
    Wait,
    /// Stop it; `was_running` tells whether exit listeners have to be notified afterwards.
    Stop { was_running: bool },
}

/// A pending service derivation of an activity.
#[derive(Clone, Copy, Debug, PartialEq, Eq, Structural)]
pub struct DeriveSrv {
    pub src_srv: u64,
    pub dst_srv: u64,
    pub dst_sgate: u64,
    pub event: u64,
}

/// The kernel's state of an activity.
#[derive(Clone, Copy, Debug, PartialEq, Eq, Structural)]
pub struct Activity {
    pub id: u64,
    pub tile: u64,
    pub eps_start: u16,
    pub is_root: bool,
    pub state: ActState,
    pub exit_code: Option<Code>,
    pub first_sel: u64,
    pub derive_srv: Option<DeriveSrv>,
}

/// The first selector that is free in a new activity's capability table.
pub const FIRST_FREE_SEL: u64 = 3;

impl Activity {
    pub fn new(id: u64, tile: u64, eps_start: u16, is_root: bool) -> (r: Self)
        ensures
            r == (Activity {
                id,
                tile,
                eps_start,
                is_root,
                state: ActState::Init,
                exit_code: None,
                first_sel: FIRST_FREE_SEL,
                derive_srv: None,
            }),
    {
        Activity {
            id,
            tile,
            eps_start,
            is_root,
            state: ActState::Init,
            exit_code: None,
            first_sel: FIRST_FREE_SEL,
            derive_srv: None,
        }
    }

    /// Is the activity stopping or stopped?
    pub fn is_dead(&self) -> (r: bool)
        ensures
            r == (self.state != ActState::Init && self.state != ActState::Running),
    {
        match self.state {
            ActState::Init | ActState::Running => false,
            _ => true,
        }
    }

    /// Starts the application; returns whether it has to be started at the tile (only the
    /// first time).
    pub fn start_app(&mut self) -> (r: bool)
        ensures
            r == (old(self).state == ActState::Init),
            r ==> *final(self) == (Activity { state: ActState::Running, ..*old(self) }),
            !r ==> *final(self) == *old(self),
    {
        match self.state {
            ActState::Init => {
                self.state = ActState::Running;
                true
            },
            _ => false,
        }
    }

    /// Begins stopping the activity.
    pub fn stop_app(&mut self) -> (r: StopAction)
        ensures
            old(self).state == ActState::Dead ==> r == StopAction::Nothing && *final(self) == *old(
                self),
            old(self).state == ActState::Stopping ==> r == StopAction::Wait && *final(self)
                == *old(self),
            (old(self).state == ActState::Init || old(self).state == ActState::Running) ==> r
                == (StopAction::Stop { was_running: old(self).state == ActState::Running }) && *final(
                self) == (Activity { state: ActState::Stopping, ..*old(self) }),
    {
        match self.state {
            ActState::Dead => StopAction::Nothing,
            ActState::Stopping => StopAction::Wait,
            ActState::Running => {
                self.state = ActState::Stopping;
                StopAction::Stop { was_running: true }
            },
            ActState::Init => {
                self.state = ActState::Stopping;
                StopAction::Stop { was_running: false }
            },
        }
    }

    /// Completes stopping the activity with the given exit code.
    pub fn finish_stop(&mut self, exit_code: Code)
        ensures
            *final(self) == (Activity { state: ActState::Dead, exit_code: Some(exit_code), ..*old(self) }),
    {
        self.exit_code = Some(exit_code);
        self.state = ActState::Dead;
    }

    /// Takes the exit code, if the activity has exited and nobody took it yet.
    pub fn fetch_exit_code(&mut self) -> (r: Option<Code>)
        ensures
            r == old(self).exit_code,
            *final(self) == (Activity { exit_code: None, ..*old(self) }),
    {
        let r = self.exit_code;
        self.exit_code = None;
        r
    }

    pub fn set_first_sel(&mut self, sel: u64)
        ensures
            *final(self) == (Activity { first_sel: sel, ..*old(self) }),
    {
        self.first_sel = sel;
    }

    /// Records a pending service derivation; fails with `Exists` if one is pending.
    pub fn start_derive(&mut self, derive: DeriveSrv) -> (r: Result<(), Code>)
        ensures
            old(self).derive_srv is Some ==> r == Err::<(), Code>(Code::Exists) && *final(self)
                == *old(self),
            old(self).derive_srv is None ==> r is Ok && *final(self) == (Activity {
                derive_srv: Some(derive),
                ..*old(self)
            }),
    {
        if self.derive_srv.is_some() {
            return Err(Code::Exists);
        }
        self.derive_srv = Some(derive);
        Ok(())
    }

    /// Takes the pending service derivation.
    pub fn finish_derive(&mut self) -> (r: Option<DeriveSrv>)
        ensures
            r == old(self).derive_srv,
            *final(self) == (Activity { derive_srv: None, ..*old(self) }),
    {
        let r = self.derive_srv;
        self.derive_srv = None;
        r
    }
}

/// The result of looking up one of the activities an activity waits for.
#[derive(Clone, Copy, Debug, PartialEq, Eq, Structural)]
pub enum WaitTarget {
    /// The selector does not refer to an activity.
    Invalid(Code),
    /// The activity with this id, and whether it has an exit code to fetch.
    Act { id: u64, exited: bool },
}

/// Which of the waited-for activities reports its exit: the first target that has exited,
/// skipping the waiting activity itself; an invalid target before that fails the wait.
pub open spec fn spec_fetch_exit(self_id: u64, targets: Seq<WaitTarget>, from: int) -> Result<
    Option<int>,
    Code,
>
    decreases targets.len() - from,
{
    if from < 0 || from >= targets.len() {
        Ok(None)
    } else {
        match targets[from] {
            WaitTarget::Invalid(c) => Err(c),
            WaitTarget::Act { id, exited } => if id == self_id {
                spec_fetch_exit(self_id, targets, from + 1)
            } else if exited {
                Ok(Some(from))
            } else {
                spec_fetch_exit(self_id, targets, from + 1)
            },
        }
    }
}

/// Determines which waited-for activity's exit to report (see `spec_fetch_exit`).
pub fn fetch_exit(self_id: u64, targets: &Vec<WaitTarget>) -> (r: Result<Option<usize>, Code>)
    ensures
        match spec_fetch_exit(self_id, targets@, 0) {
            Ok(Some(i)) => r == Ok::<Option<usize>, Code>(Some(i as usize)),
            Ok(None) => r == Ok::<Option<usize>, Code>(None),
            Err(c) => r == Err::<Option<usize>, Code>(c),
        },
{
    let mut i: usize = 0;
    while i < targets.len()
        invariant
            i <= targets@.len(),
            spec_fetch_exit(self_id, targets@, 0) == spec_fetch_exit(self_id, targets@, i as int),
        decreases targets@.len() - i,
    {
        match targets[i] {
            WaitTarget::Invalid(c) => {
                return Err(c);
            },
            WaitTarget::Act { id, exited } => {
                if id != self_id && exited {
                    return Ok(Some(i));
                }
            },
        }
        i += 1;
    }
    Ok(None)
}

/// A service's pending derivation: at most one activity can derive from a service at a time.
#[derive(Clone, Copy, Debug, PartialEq, Eq, Structural)]
pub struct Service {
    pub activity: u64,
    pub cur_derive: Option<u64>,
}

impl Service {
    /// Records `act` as deriving activity; fails with `Exists` if another derivation is
    /// pending.
    pub fn set_derive_act(&mut self, act: u64) -> (r: Result<(), Code>)
        ensures
            old(self).cur_derive is Some ==> r == Err::<(), Code>(Code::Exists) && *final(self)
                == *old(self),
            old(self).cur_derive is None ==> r is Ok && *final(self) == (Service {
                cur_derive: Some(act),
                ..*old(self)
            }),
    {
        if self.cur_derive.is_some() {
            return Err(Code::Exists);
        }
        self.cur_derive = Some(act);
        Ok(())
    }

    /// Takes the deriving activity; fails with `NotFound` if none is pending.
    pub fn fetch_derive_act(&mut self) -> (r: Result<u64, Code>)
        ensures
            match old(self).cur_derive {
                Some(a) => r == Ok::<u64, Code>(a),
                None => r == Err::<u64, Code>(Code::NotFound),
            },
            *final(self) == (Service { cur_derive: None, ..*old(self) }),
    {
        match self.cur_derive {
            Some(a) => {
                self.cur_derive = None;
                Ok(a)
            },
            None => Err(Code::NotFound),
        }
    }
}

/// Law: a derivation recorded at a service is the one fetched again.
pub proof fn lemma_derive_roundtrip(s: Service, act: u64)
    requires
        s.cur_derive is None,
    ensures
        (Service { cur_derive: Some(act), ..s }).cur_derive == Some(act),
        (Service { cur_derive: None, ..(Service { cur_derive: Some(act), ..s }) }) == s,
{
}

} // verus!
