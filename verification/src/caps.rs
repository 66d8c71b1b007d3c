//! Capabilities: the per-activity capability tables and the derivation tree that links every
//! capability to the one it was derived from, across tables.
//!
//! All capabilities live in one arena. A capability is referred to by its index in the arena,
//! which stays valid forever: revoked capabilities are marked dead instead of being removed.
//! A child always has a higher index than its parent, and among the children of a capability the
//! newest (the one with the highest index) is its first child.
use vstd::prelude::*;

use crate::errors::Code;
use crate::kobjs::{KMemObject, KObjKind, CAP_SIZE};
use crate::selrange::SelRange;

verus! {

/// A capability: a range of selectors in a capability table that refers to a kernel object.
#[derive(Clone, Copy, Debug, PartialEq, Eq, Structural)]
pub struct Capability {
    /// The table the capability belongs to.
    pub table: u64,
    /// The selectors it occupies.
    pub sels: SelRange,
    /// The kind of the kernel object.
    pub kind: KObjKind,
    /// The identity of the kernel object.
    pub obj: u64,
    /// The memory the kernel object is accounted with.
    pub obj_size: usize,
    /// Was the capability obtained from another one (and does not own the object)?
    pub derived: bool,
    /// The capability it was derived from.
    pub parent: Option<usize>,
    /// Is the capability still in its table (not revoked)?
    pub live: bool,
}

/// Does capability `c` occupy selector `sel` of `table`?
pub open spec fn covers(c: Capability, table: u64, sel: int) -> bool {
    &&& c.live
    &&& c.table == table
    &&& c.sels.start <= sel < c.sels.start + c.sels.count
}

/// Is `a` a proper descendant of `b` in the derivation tree?
pub open spec fn desc(v: Seq<Capability>, a: int, b: int) -> bool
    decreases a,
{
    if 0 <= a < v.len() {
        match v[a].parent {
            Some(p) => if 0 <= p < a {
                p == b || desc(v, p as int, b)
            } else {
                false
            },
            None => false,
        }
    } else {
        false
    }
}

/// The root of the derivation tree that capability `i` belongs to.
pub open spec fn root_of(v: Seq<Capability>, i: int) -> int
    decreases i,
{
    if 0 <= i < v.len() {
        match v[i].parent {
            Some(p) => if 0 <= p < i {
                root_of(v, p as int)
            } else {
                i
            },
            None => i,
        }
    } else {
        i
    }
}

/// The index of the first capability (in arena order, from `from` on) that occupies `sel` of
/// `table`.
pub open spec fn lookup_from(v: Seq<Capability>, table: u64, sel: int, from: int) -> Option<int>
    decreases v.len() - from,
{
    if from < 0 || from >= v.len() {
        None
    } else if covers(v[from], table, sel) {
        Some(from)
    } else {
        lookup_from(v, table, sel, from + 1)
    }
}

/// The capability that occupies `sel` of `table`, if any.
pub open spec fn lookup(v: Seq<Capability>, table: u64, sel: int) -> Option<int> {
    lookup_from(v, table, sel, 0)
}

/// Does capability `c` have `p` as parent and is it live?
pub open spec fn live_child(v: Seq<Capability>, c: int, p: int) -> bool {
    0 <= c < v.len() && v[c].live && v[c].parent is Some && v[c].parent.unwrap() == p
}

/// The newest live child of `p` among the capabilities before `k`: the one with the highest
/// index.
pub open spec fn newest_child_before(v: Seq<Capability>, p: int, k: int) -> Option<int>
    decreases k,
{
    if k <= 0 {
        None
    } else if live_child(v, k - 1, p) {
        Some(k - 1)
    } else {
        newest_child_before(v, p, k - 1)
    }
}

/// The leaf reached from `i` by following the newest live child each time (`i` itself if it has
/// no live child).
pub open spec fn newest_leaf(v: Seq<Capability>, i: int) -> int
    decreases v.len() - i,
{
    match newest_child_before(v, i, v.len() as int) {
        Some(c) => if 0 <= i < c < v.len() {
            newest_leaf(v, c)
        } else {
            i
        },
        None => i,
    }
}

/// Lemma: the newest live child before `k` is `c` if `c` is a live child and none after it
/// (before `k`) is; there is none if no capability before `k` is a live child.
pub proof fn lemma_newest_child(v: Seq<Capability>, p: int, k: int)
    requires
        k <= v.len(),
    ensures
        match newest_child_before(v, p, k) {
            Some(c) => 0 <= c < k && live_child(v, c, p) && forall|j: int|
                c < j < k ==> !#[trigger] live_child(v, j, p),
            None => forall|j: int| 0 <= j < k ==> !#[trigger] live_child(v, j, p),
        },
    decreases k,
{
    if k > 0 {
        lemma_newest_child(v, p, k - 1);
    }
}

/// `v` with capability `i` marked revoked.
pub open spec fn kill(v: Seq<Capability>, i: int) -> Seq<Capability> {
    v.update(i, Capability { live: false, ..v[i] })
}

/// `v` after revoking the subtree of `i`: all descendants of `i`, and `i` itself if `own`.
pub open spec fn revoke_subtree_spec(v: Seq<Capability>, i: int, own: bool) -> Seq<Capability> {
    Seq::new(
        v.len(),
        |k: int|
            if desc(v, k, i) || (own && k == i) {
                Capability { live: false, ..v[k] }
            } else {
                v[k]
            },
    )
}

/// The number of live capabilities.
pub open spec fn count_live(v: Seq<Capability>) -> nat
    decreases v.len(),
{
    if v.len() == 0 {
        0
    } else {
        count_live(v.drop_last()) + if v.last().live {
            1nat
        } else {
            0nat
        }
    }
}

/// Can the capability `c` not be revoked now? Kernel memory cannot while some of its quota is
/// in use (`kmems`, by object), a tile not while activities run on it (`tile_acts`, the number
/// per tile object); everything else can.
pub open spec fn not_revocable(c: Capability, kmems: Seq<KMemObject>, tile_acts: Seq<usize>) -> bool {
    match c.kind {
        KObjKind::KMem => kmems[c.obj as int].left != kmems[c.obj as int].quota,
        KObjKind::Tile => tile_acts[c.obj as int] > 0,
        _ => false,
    }
}

/// Do the kernel-memory and tile capabilities of `v` refer to entries of `kmems` and
/// `tile_acts`?
pub open spec fn objs_known(v: Seq<Capability>, kmems: Seq<KMemObject>, tile_acts: Seq<usize>) -> bool {
    forall|i: int|
        0 <= i < v.len() ==> (#[trigger] v[i].kind == KObjKind::KMem ==> v[i].obj < kmems.len())
            && (v[i].kind == KObjKind::Tile ==> v[i].obj < tile_acts.len())
}

/// What one step of revoking a range of selectors did.
#[derive(Clone, Copy, Debug, PartialEq, Eq, Structural)]
pub enum RevokeStep {
    /// The range is done.
    Done,
    /// The capability at the selector refers to an object that cannot be revoked now.
    Refused,
    /// Go on at selector `next`, after revoking capability `revoked`, if any.
    Continue { revoked: Option<usize>, next: u64 },
}

/// The index of the first live capability of `table` (in arena order, from `from` on).
pub open spec fn first_in_table(v: Seq<Capability>, table: u64, from: int) -> Option<int>
    decreases v.len() - from,
{
    if from < 0 || from >= v.len() {
        None
    } else if v[from].live && v[from].table == table {
        Some(from)
    } else {
        first_in_table(v, table, from + 1)
    }
}

/// The effect of revoking all capabilities of `table`: repeatedly the first one with its
/// subtree.
pub open spec fn revoke_all_spec(v: Seq<Capability>, table: u64) -> Seq<Capability>
    decreases count_live(v),
{
    match first_in_table(v, table, 0) {
        None => v,
        Some(i) => {
            if 0 <= i < v.len() && v[i].live && count_live(revoke_subtree_spec(v, i, true))
                < count_live(v) {
                revoke_all_spec(revoke_subtree_spec(v, i, true), table)
            } else {
                v
            }
        },
    }
}

/// The capability at `sel` of `table` if it refers to an object of `kind`: `InvCap` if the
/// selector is free, `InvArgs` if the object is of another kind.
pub open spec fn spec_get_kobj(v: Seq<Capability>, table: u64, sel: int, kind: KObjKind) -> Result<
    usize,
    Code,
> {
    match lookup(v, table, sel) {
        Some(i) => if v[i].kind == kind {
            Ok(i as usize)
        } else {
            Err(Code::InvArgs)
        },
        None => Err(Code::InvCap),
    }
}

/// `k` with `n` bytes taken.
pub open spec fn charge(k: KMemObject, n: int) -> KMemObject {
    KMemObject { left: (k.left - n) as usize, ..k }
}

/// A copy of capability `c` of `v` for selector `sel` of `table`, derived from `c`.
pub open spec fn copy_of(v: Seq<Capability>, c: int, table: u64, sel: int) -> Capability {
    Capability {
        table,
        sels: SelRange { start: sel as u64, count: 1 },
        derived: true,
        parent: Some(c as usize),
        live: true,
        ..v[c]
    }
}

/// Does a live capability of `table` start within the `count` selectors from `start` on,
/// behind the first?
pub open spec fn starts_inside(v: Seq<Capability>, table: u64, start: int, count: int) -> bool {
    exists|j: int|
        0 <= j < v.len() && #[trigger] v[j].live && v[j].table == table && start < v[j].sels.start
            < start + count
}

/// The space, the kernel memory and the result after inserting `cap` into `v`, charging `cost`
/// bytes to `k`: it fails with `InvArgs` if the first selector is taken and with `NoSpace` if
/// too little memory is left (changing nothing), and otherwise appends `cap` and returns its
/// index.
pub open spec fn insert_result(v: Seq<Capability>, k: KMemObject, cap: Capability, cost: int) -> (
    Seq<Capability>,
    KMemObject,
    Result<usize, Code>,
) {
    if lookup(v, cap.table, cap.sels.start as int) is Some || starts_inside(
        v,
        cap.table,
        cap.sels.start as int,
        cap.sels.count as int,
    ) {
        (v, k, Err(Code::InvArgs))
    } else if k.left < cost {
        (v, k, Err(Code::NoSpace))
    } else {
        (v.push(cap), charge(k, cost), Ok(v.len() as usize))
    }
}

/// The outcome of inserting `cap` as `insert_result` says.
pub open spec fn insert_outcome(
    v: Seq<Capability>,
    k: KMemObject,
    cap: Capability,
    cost: int,
    r: Result<usize, Code>,
    v2: Seq<Capability>,
    k2: KMemObject,
) -> bool {
    (v2, k2, r) == insert_result(v, k, cap, cost)
}

/// The space, the kernel memory and the result after obtaining a copy of capability `src` for
/// selector `sel` of `table`, charged to `k` (see `insert_result`).
pub open spec fn obtain_result(v: Seq<Capability>, k: KMemObject, table: u64, sel: u64, src: int) -> (
    Seq<Capability>,
    KMemObject,
    Result<usize, Code>,
) {
    insert_result(v, k, copy_of(v, src, table, sel as int), CAP_SIZE as int)
}

/// All capabilities of the kernel, with their tables and derivation tree.
pub struct CapSpace {
    caps: Vec<Capability>,
}

impl View for CapSpace {
    type V = Seq<Capability>;

    closed spec fn view(&self) -> Seq<Capability> {
        self.caps@
    }
}

/// Well-formedness of the arena: the derivation tree points backwards, live capabilities have
/// live parents, every range is non-empty and addressable, and the live capabilities of one
/// table occupy disjoint selectors.
pub open spec fn space_wf(v: Seq<Capability>) -> bool {
    &&& forall|i: int|
        0 <= i < v.len() ==> match #[trigger] v[i].parent {
            Some(p) => p < i,
            None => true,
        }
    &&& forall|i: int|
        0 <= i < v.len() && v[i].live && v[i].parent is Some ==> #[trigger] v[v[i].parent.unwrap() as int].live
    &&& forall|i: int|
        0 <= i < v.len() ==> #[trigger] v[i].sels.count >= 1 && v[i].sels.start + v[i].sels.count
            <= u64::MAX + 1
    &&& forall|i: int, j: int|
        0 <= i < v.len() && 0 <= j < v.len() && i != j && #[trigger] v[i].live && #[trigger] v[j].live
            && v[i].table == v[j].table ==> !(v[j].sels.start <= v[i].sels.start < v[j].sels.start
            + v[j].sels.count)
}

/// Lemma: a lookup from `from` finds a capability at or after `from` that occupies the
/// selector, and nothing before it (from `from` on) occupies it.
pub proof fn lemma_lookup_from(v: Seq<Capability>, table: u64, sel: int, from: int)
    requires
        0 <= from,
    ensures
        match lookup_from(v, table, sel, from) {
            Some(i) => from <= i < v.len() && covers(v[i], table, sel) && forall|k: int|
                from <= k < i ==> !covers(#[trigger] v[k], table, sel),
            None => forall|k: int| from <= k < v.len() ==> !covers(#[trigger] v[k], table, sel),
        },
    decreases v.len() - from,
{
    if from < v.len() {
        lemma_lookup_from(v, table, sel, from + 1);
    }
}

/// Lemma: in a well-formed arena, the capability occupying a selector is unique.
pub proof fn lemma_lookup(v: Seq<Capability>, table: u64, sel: int)
    requires
        space_wf(v),
    ensures
        match lookup(v, table, sel) {
            Some(i) => 0 <= i < v.len() && covers(v[i], table, sel) && forall|k: int|
                0 <= k < v.len() && k != i ==> !covers(#[trigger] v[k], table, sel),
            None => forall|k: int| 0 <= k < v.len() ==> !covers(#[trigger] v[k], table, sel),
        },
{
    lemma_lookup_from(v, table, sel, 0);
    match lookup(v, table, sel) {
        Some(i) => {
            assert forall|k: int| 0 <= k < v.len() && k != i implies !covers(
                #[trigger] v[k],
                table,
                sel,
            ) by {
                if covers(v[k], table, sel) {
                    assert(v[k].live && v[i].live);
                }
            }
        },
        None => {},
    }
}

/// Lemma: a live descendant of `b` implies that `b` has a live child.
pub proof fn lemma_live_desc_has_live_child(v: Seq<Capability>, d: int, b: int)
    requires
        space_wf(v),
        0 <= d < v.len(),
        v[d].live,
        desc(v, d, b),
    ensures
        exists|c: int| #[trigger] live_child(v, c, b),
    decreases d,
{
    let p = v[d].parent.unwrap() as int;
    if p == b {
        assert(live_child(v, d, b));
    } else {
        assert(v[p].live);
        lemma_live_desc_has_live_child(v, p, b);
    }
}

/// Lemma: descendants have higher indices.
pub proof fn lemma_desc_greater(v: Seq<Capability>, a: int, b: int)
    requires
        desc(v, a, b),
    ensures
        b < a,
        0 <= a < v.len(),
    decreases a,
{
    let p = v[a].parent.unwrap() as int;
    if p != b {
        lemma_desc_greater(v, p, b);
    }
}

/// Lemma: the descendant relation only depends on the parent links.
pub proof fn lemma_desc_same_links(v: Seq<Capability>, w: Seq<Capability>, a: int, b: int)
    requires
        v.len() == w.len(),
        forall|k: int| 0 <= k < v.len() ==> #[trigger] v[k].parent == w[k].parent,
    ensures
        desc(v, a, b) == desc(w, a, b),
    decreases a,
{
    if 0 <= a < v.len() {
        match v[a].parent {
            Some(p) => {
                if 0 <= p < a {
                    lemma_desc_same_links(v, w, p as int, b);
                }
            },
            None => {},
        }
    }
}

/// Lemma: a child of a descendant (or of `b` itself) is a descendant.
pub proof fn lemma_desc_step(v: Seq<Capability>, c: int, p: int, b: int)
    requires
        0 <= p < c < v.len(),
        v[c].parent is Some,
        v[c].parent.unwrap() == p,
        p == b || desc(v, p, b),
    ensures
        desc(v, c, b),
{
}

/// Lemma: the live count is at most the length and counts the live entries monotonically.
pub proof fn lemma_count_live_mono(a: Seq<Capability>, b: Seq<Capability>)
    requires
        a.len() == b.len(),
        forall|k: int| 0 <= k < a.len() && #[trigger] a[k].live ==> b[k].live,
    ensures
        count_live(a) <= count_live(b),
        (exists|k: int| 0 <= k < a.len() && !#[trigger] a[k].live && b[k].live) ==> count_live(
            a,
        ) < count_live(b),
    decreases a.len(),
{
    if a.len() > 0 {
        let a2 = a.drop_last();
        let b2 = b.drop_last();
        assert forall|k: int| 0 <= k < a2.len() && #[trigger] a2[k].live implies b2[k].live by {
            assert(a2[k] == a[k]);
            assert(b2[k] == b[k]);
        }
        lemma_count_live_mono(a2, b2);
        if exists|k: int| 0 <= k < a.len() && !#[trigger] a[k].live && b[k].live {
            let k = choose|k: int| 0 <= k < a.len() && !#[trigger] a[k].live && b[k].live;
            if k < a.len() - 1 {
                assert(a2[k] == a[k] && b2[k] == b[k]);
                assert(!a2[k].live && b2[k].live);
            }
        }
    }
}

/// Lemma: revoking a subtree keeps the arena well-formed.
pub proof fn lemma_revoke_subtree_wf(v: Seq<Capability>, i: int, own: bool)
    requires
        space_wf(v),
        0 <= i < v.len(),
        own || true,
    ensures
        space_wf(revoke_subtree_spec(v, i, own)),
        revoke_subtree_spec(v, i, own).len() == v.len(),
        forall|k: int|
            0 <= k < v.len() ==> (#[trigger] revoke_subtree_spec(v, i, own)[k]).parent == v[k].parent,
{
    let w = revoke_subtree_spec(v, i, own);
    assert forall|k: int|
        0 <= k < w.len() && w[k].live && w[k].parent is Some implies #[trigger] w[w[k].parent.unwrap() as int].live by {
        let p = w[k].parent.unwrap() as int;
        assert(v[k].live);
        assert(!desc(v, k, i));
        assert(!(own && k == i));
        if desc(v, p, i) || (own && p == i) {
            assert(desc(v, k, i));
        }
    }
}

impl CapSpace {
    /// An empty capability space.
    pub fn new() -> (r: Self)
        ensures
            r@ == Seq::<Capability>::empty(),
            space_wf(r@),
    {
        CapSpace { caps: Vec::new() }
    }

    /// The number of capabilities ever created.
    pub fn len(&self) -> (r: usize)
        ensures
            r == self@.len(),
    {
        self.caps.len()
    }

    /// The capability with index `i`.
    pub fn cap(&self, i: usize) -> (r: Capability)
        requires
            i < self@.len(),
        ensures
            r == self@[i as int],
    {
        self.caps[i]
    }

    /// The capability that occupies `sel` of `table`.
    pub fn lookup(&self, table: u64, sel: u64) -> (r: Option<usize>)
        ensures
            match r {
                Some(i) => lookup(self@, table, sel as int) == Some(i as int),
                None => lookup(self@, table, sel as int) is None,
            },
    {
        let mut i: usize = 0;
        proof {
            lemma_lookup_from(self@, table, sel as int, 0);
        }
        while i < self.caps.len()
            invariant
                i <= self.caps@.len(),
                lookup(self@, table, sel as int) == lookup_from(self@, table, sel as int, i as int),
            decreases self.caps@.len() - i,
        {
            let c = self.caps[i];
            if c.live && c.table == table && c.sels.start <= sel && (sel as u128) < (
            c.sels.start as u128) + (c.sels.count as u128) {
                return Some(i);
            }
            i += 1;
        }
        None
    }

    /// Is selector `sel` of `table` free?
    pub fn unused(&self, table: u64, sel: u64) -> (r: bool)
        ensures
            r == lookup(self@, table, sel as int) is None,
    {
        self.lookup(table, sel).is_none()
    }

    /// Are the `count` selectors from `start` on all free in `table`?
    pub fn range_unused(&self, table: u64, start: u64, count: u64) -> (r: bool)
        requires
            start + count <= u64::MAX,
        ensures
            r == forall|s: int| start <= s < start + count ==> lookup(self@, table, s) is None,
    {
        let mut s = start;
        while s < start + count
            invariant
                start <= s <= start + count,
                start + count <= u64::MAX,
                forall|t: int| start <= t < s ==> lookup(self@, table, t) is None,
            decreases start + count - s,
        {
            if !self.unused(table, s) {
                return false;
            }
            s += 1;
        }
        true
    }

    /// The capability that occupies `sel` of `table`; fails with `InvCap` if there is none.
    pub fn get(&self, table: u64, sel: u64) -> (r: Result<usize, Code>)
        ensures
            match lookup(self@, table, sel as int) {
                Some(i) => r == Ok::<usize, Code>(i as usize) && i < self@.len(),
                None => r == Err::<usize, Code>(Code::InvCap),
            },
            r matches Ok(i) ==> lookup(self@, table, sel as int) == Some(i as int),
    {
        proof {
            lemma_lookup_from(self@, table, sel as int, 0);
        }
        match self.lookup(table, sel) {
            Some(i) => Ok(i),
            None => Err(Code::InvCap),
        }
    }

    /// The capability at `sel` of `table`, which has to refer to an object of `kind`.
    ///
    /// Fails with `InvCap` if there is none, and with `InvArgs` if its object is of another
    /// kind.
    pub fn get_kobj(&self, table: u64, sel: u64, kind: KObjKind) -> (r: Result<usize, Code>)
        ensures
            r == spec_get_kobj(self@, table, sel as int, kind),
            r matches Ok(i) ==> i < self@.len() && covers(self@[i as int], table, sel as int)
                && lookup(self@, table, sel as int) == Some(i as int) && self@[i as int].kind == kind,
    {
        proof {
            lemma_lookup_from(self@, table, sel as int, 0);
        }
        match self.lookup(table, sel) {
            Some(i) => {
                if self.caps[i].kind == kind {
                    Ok(i)
                } else {
                    Err(Code::InvArgs)
                }
            },
            None => Err(Code::InvCap),
        }
    }

    /// Does no live capability of `table` start within the `count` selectors from `start` on,
    /// behind the first (see `starts_inside`)?
    pub fn none_starts_inside(&self, table: u64, start: u64, count: u64) -> (r: bool)
        ensures
            r == !starts_inside(self@, table, start as int, count as int),
    {
        let mut i: usize = 0;
        while i < self.caps.len()
            invariant
                i <= self@.len(),
                forall|j: int|
                    0 <= j < i && #[trigger] self@[j].live && self@[j].table == table ==> !(start
                        < self@[j].sels.start < start + count),
            decreases self@.len() - i,
        {
            let c = self.caps[i];
            if c.live && c.table == table && start < c.sels.start && (c.sels.start as u128) < (
            start as u128) + (count as u128) {
                return false;
            }
            i += 1;
        }
        true
    }

    /// Inserts a capability for `sels` of `table` referring to object `obj` of `kind` (of
    /// `obj_size` bytes), as child of `parent` if given, and charges the capability and the
    /// object to `kmem`.
    ///
    /// Fails with `InvArgs` if the first selector is in use, and with `NoSpace` if `kmem` has
    /// too little left.
    pub fn insert(
        &mut self,
        table: u64,
        sels: SelRange,
        kind: KObjKind,
        obj: u64,
        obj_size: usize,
        parent: Option<usize>,
        kmem: &mut KMemObject,
    ) -> (r: Result<usize, Code>)
        requires
            space_wf(old(self)@),
            sels.count >= 1,
            sels.start + sels.count <= u64::MAX + 1,
            obj_size + CAP_SIZE <= usize::MAX,
            parent matches Some(p) ==> p < old(self)@.len() && old(self)@[p as int].live,
        ensures
            space_wf(final(self)@),
            final(self)@.len() <= usize::MAX,
            lookup(old(self)@, table, sels.start as int) is Some || starts_inside(
                old(self)@,
                table,
                sels.start as int,
                sels.count as int,
            ) ==> r == Err::<usize, Code>(Code::InvArgs),
            lookup(old(self)@, table, sels.start as int) is None && !starts_inside(
                old(self)@,
                table,
                sels.start as int,
                sels.count as int,
            ) && old(kmem).left < obj_size + CAP_SIZE ==> r == Err::<usize, Code>(Code::NoSpace),
            lookup(old(self)@, table, sels.start as int) is None && !starts_inside(
                old(self)@,
                table,
                sels.start as int,
                sels.count as int,
            ) && old(kmem).left >= obj_size + CAP_SIZE ==> r is Ok,
            r is Err ==> final(self)@ == old(self)@ && *final(kmem) == *old(kmem),
            (final(self)@, *final(kmem), r) == insert_result(
                old(self)@,
                *old(kmem),
                Capability { table, sels, kind, obj, obj_size, derived: false, parent, live: true },
                obj_size + CAP_SIZE,
            ),
            r matches Ok(i) ==> {
                &&& i == old(self)@.len()
                &&& final(self)@ == old(self)@.push(
                    Capability {
                        table,
                        sels,
                        kind,
                        obj,
                        obj_size,
                        derived: false,
                        parent,
                        live: true,
                    },
                )
                &&& *final(kmem) == (KMemObject {
                    left: (old(kmem).left - (obj_size + CAP_SIZE)) as usize,
                    ..*old(kmem)
                })
            },
    {
        let _n = self.caps.len();
        if self.lookup(table, sels.start).is_some() {
            return Err(Code::InvArgs);
        }
        if !self.none_starts_inside(table, sels.start, sels.count) {
            return Err(Code::InvArgs);
        }
        if !kmem.allocate(obj_size + CAP_SIZE) {
            return Err(Code::NoSpace);
        }
        let cap = Capability { table, sels, kind, obj, obj_size, derived: false, parent, live: true };
        self.push_cap(cap);
        Ok(self.caps.len() - 1)
    }

    /// Inserts a capability like `insert`, as child of the capability at `parent_sel` of
    /// `parent_table` if there is one there.
    pub fn insert_as_child(
        &mut self,
        table: u64,
        sels: SelRange,
        kind: KObjKind,
        obj: u64,
        obj_size: usize,
        parent_table: u64,
        parent_sel: u64,
        kmem: &mut KMemObject,
    ) -> (r: Result<usize, Code>)
        requires
            space_wf(old(self)@),
            sels.count >= 1,
            sels.start + sels.count <= u64::MAX + 1,
            obj_size + CAP_SIZE <= usize::MAX,
        ensures
            space_wf(final(self)@),
            final(self)@.len() <= usize::MAX,
            lookup(old(self)@, table, sels.start as int) is Some || starts_inside(
                old(self)@,
                table,
                sels.start as int,
                sels.count as int,
            ) ==> r == Err::<usize, Code>(Code::InvArgs),
            lookup(old(self)@, table, sels.start as int) is None && !starts_inside(
                old(self)@,
                table,
                sels.start as int,
                sels.count as int,
            ) && old(kmem).left < obj_size + CAP_SIZE ==> r == Err::<usize, Code>(Code::NoSpace),
            lookup(old(self)@, table, sels.start as int) is None && !starts_inside(
                old(self)@,
                table,
                sels.start as int,
                sels.count as int,
            ) && old(kmem).left >= obj_size + CAP_SIZE ==> r is Ok,
            r is Err ==> final(self)@ == old(self)@ && *final(kmem) == *old(kmem),
            r matches Ok(i) ==> {
                &&& i == old(self)@.len()
                &&& final(self)@ == old(self)@.push(
                    Capability {
                        table,
                        sels,
                        kind,
                        obj,
                        obj_size,
                        derived: false,
                        parent: match lookup(old(self)@, parent_table, parent_sel as int) {
                            Some(p) => Some(p as usize),
                            None => None,
                        },
                        live: true,
                    },
                )
                &&& *final(kmem) == (KMemObject {
                    left: (old(kmem).left - (obj_size + CAP_SIZE)) as usize,
                    ..*old(kmem)
                })
            },
    {
        let parent = self.lookup(parent_table, parent_sel);
        proof {
            lemma_lookup(self@, parent_table, parent_sel as int);
        }
        self.insert(table, sels, kind, obj, obj_size, parent, kmem)
    }

    /// Obtains a copy of capability `src` for selector `sel` of `table`, as child of `src`,
    /// and charges the copy to `kmem`.
    ///
    /// Fails with `InvArgs` if `sel` is in use, and with `NoSpace` if `kmem` has too little
    /// left.
    pub fn obtain(&mut self, table: u64, sel: u64, src: usize, kmem: &mut KMemObject) -> (r:
        Result<usize, Code>)
        requires
            space_wf(old(self)@),
            src < old(self)@.len(),
            old(self)@[src as int].live,
        ensures
            space_wf(final(self)@),
            lookup(old(self)@, table, sel as int) is Some ==> r == Err::<usize, Code>(
                Code::InvArgs,
            ),
            lookup(old(self)@, table, sel as int) is None && old(kmem).left < CAP_SIZE ==> r
                == Err::<usize, Code>(Code::NoSpace),
            lookup(old(self)@, table, sel as int) is None && old(kmem).left >= CAP_SIZE ==> r
                is Ok,
            r is Err ==> final(self)@ == old(self)@ && *final(kmem) == *old(kmem),
            (final(self)@, *final(kmem), r) == obtain_result(
                old(self)@,
                *old(kmem),
                table,
                sel,
                src as int,
            ),
            r matches Ok(i) ==> {
                &&& i == old(self)@.len()
                &&& final(self)@ == old(self)@.push(
                    Capability {
                        table,
                        sels: SelRange { start: sel, count: 1 },
                        derived: true,
                        parent: Some(src),
                        live: true,
                        ..old(self)@[src as int]
                    },
                )
                &&& *final(kmem) == (KMemObject {
                    left: (old(kmem).left - CAP_SIZE) as usize,
                    ..*old(kmem)
                })
            },
    {
        if self.lookup(table, sel).is_some() {
            return Err(Code::InvArgs);
        }
        if !kmem.allocate(CAP_SIZE) {
            return Err(Code::NoSpace);
        }
        let s = self.caps[src];
        let cap = Capability {
            table,
            sels: SelRange::new(sel),
            kind: s.kind,
            obj: s.obj,
            obj_size: s.obj_size,
            derived: true,
            parent: Some(src),
            live: true,
        };
        self.push_cap(cap);
        Ok(self.caps.len() - 1)
    }

    /// Appends a capability whose selectors are free, keeping the arena well-formed.
    fn push_cap(&mut self, cap: Capability)
        requires
            space_wf(old(self)@),
            cap.live,
            cap.sels.count >= 1,
            cap.sels.start + cap.sels.count <= u64::MAX + 1,
            cap.parent matches Some(p) ==> p < old(self)@.len() && old(self)@[p as int].live,
            lookup(old(self)@, cap.table, cap.sels.start as int) is None,
            forall|j: int|
                0 <= j < old(self)@.len() && #[trigger] old(self)@[j].live && old(self)@[j].table
                    == cap.table ==> !(cap.sels.start < old(self)@[j].sels.start < cap.sels.start
                    + cap.sels.count),
        ensures
            final(self)@ == old(self)@.push(cap),
            space_wf(final(self)@),
    {
        proof {
            lemma_lookup(self@, cap.table, cap.sels.start as int);
        }
        let ghost v = self@;
        self.caps.push(cap);
        proof {
            let w = self@;
            let n = v.len() as int;
            assert forall|i: int| 0 <= i < w.len() implies match #[trigger] w[i].parent {
                Some(p) => p < i,
                None => true,
            } by {
                if i < n {
                    assert(w[i] == v[i]);
                }
            }
            assert forall|i: int|
                0 <= i < w.len() && w[i].live && w[i].parent is Some implies #[trigger] w[w[i].parent.unwrap() as int].live by {
                if i < n {
                    assert(w[i] == v[i]);
                    assert(w[v[i].parent.unwrap() as int] == v[v[i].parent.unwrap() as int]);
                }
            }
            assert forall|i: int| 0 <= i < w.len() implies #[trigger] w[i].sels.count >= 1
                && w[i].sels.start + w[i].sels.count <= u64::MAX + 1 by {
                if i < n {
                    assert(w[i] == v[i]);
                }
            }
            assert forall|i: int, j: int|
                0 <= i < w.len() && 0 <= j < w.len() && i != j && #[trigger] w[i].live
                    && #[trigger] w[j].live && w[i].table == w[j].table implies !(w[j].sels.start
                <= w[i].sels.start < w[j].sels.start + w[j].sels.count) by {
                if i < n && j < n {
                    assert(w[i] == v[i] && w[j] == v[j]);
                } else if i == n {
                    assert(w[j] == v[j]);
                    assert(!covers(v[j], cap.table, cap.sels.start as int));
                } else {
                    assert(w[i] == v[i]);
                }
            }
        }
    }

    /// The root of the derivation tree that capability `i` belongs to.
    pub fn get_root(&self, i: usize) -> (r: usize)
        requires
            space_wf(self@),
            i < self@.len(),
        ensures
            r < self@.len(),
            self@[r as int].parent is None,
            r == i || desc(self@, i as int, r as int),
            r == root_of(self@, i as int),
    {
        let mut cur = i;
        while self.caps[cur].parent.is_some()
            invariant
                space_wf(self@),
                cur < self@.len(),
                cur == i || desc(self@, i as int, cur as int),
                root_of(self@, cur as int) == root_of(self@, i as int),
            decreases cur,
        {
            let p = self.caps[cur].parent.unwrap();
            proof {
                assert(match self@[cur as int].parent {
                    Some(p) => p < cur,
                    None => true,
                });
                if cur != i {
                    lemma_desc_trans_parent(self@, i as int, cur as int);
                }
            }
            cur = p;
        }
        cur
    }

    /// The first live child of `p`: the newest capability derived from it.
    pub fn first_child(&self, p: usize) -> (r: Option<usize>)
        requires
            space_wf(self@),
            p < self@.len(),
        ensures
            match r {
                Some(c) => live_child(self@, c as int, p as int) && forall|k: int|
                    c < k < self@.len() ==> !#[trigger] live_child(self@, k, p as int),
                None => forall|k: int| 0 <= k < self@.len() ==> !#[trigger] live_child(self@, k, p as int),
            },
    {
        let mut k = self.caps.len();
        while k > p + 1
            invariant
                p < self@.len(),
                p + 1 <= k <= self@.len(),
                forall|j: int| k <= j < self@.len() ==> !#[trigger] live_child(self@, j, p as int),
            decreases k,
        {
            let c = self.caps[k - 1];
            if c.live && c.parent == Some(p) {
                return Some(k - 1);
            }
            k -= 1;
        }
        assert forall|j: int| 0 <= j < self@.len() implies !#[trigger] live_child(
            self@,
            j,
            p as int,
        ) by {
            if j < k {
                assert(match self@[j].parent {
                    Some(q) => q < j,
                    None => true,
                });
            }
        }
        None
    }

    /// Finds the first child of `p` (newest first) that refers to object `obj` of `kind`.
    pub fn find_child(&self, p: usize, kind: KObjKind, obj: u64) -> (r: Option<usize>)
        requires
            space_wf(self@),
            p < self@.len(),
        ensures
            match r {
                Some(c) => live_child(self@, c as int, p as int) && self@[c as int].kind == kind
                    && self@[c as int].obj == obj && forall|k: int|
                    c < k < self@.len() && #[trigger] live_child(self@, k, p as int) ==> !(
                    self@[k].kind == kind && self@[k].obj == obj),
                None => forall|k: int|
                    0 <= k < self@.len() && #[trigger] live_child(self@, k, p as int) ==> !(
                    self@[k].kind == kind && self@[k].obj == obj),
            },
    {
        let mut k = self.caps.len();
        while k > 0
            invariant
                k <= self@.len(),
                forall|j: int|
                    k <= j < self@.len() && #[trigger] live_child(self@, j, p as int) ==> !(
                    self@[j].kind == kind && self@[j].obj == obj),
            decreases k,
        {
            let c = self.caps[k - 1];
            if c.live && c.parent == Some(p) && c.kind == kind && c.obj == obj {
                return Some(k - 1);
            }
            k -= 1;
        }
        None
    }

    /// Revokes a single leaf of the subtree of `start`: walks down to the newest child until a
    /// capability without children is reached and revokes that one, unless it is `start` itself
    /// and `self_included` is false.
    ///
    /// Returns whether the subtree is done (`start` itself was reached) and the revoked
    /// capability.
    pub fn revoke_single(&mut self, start: usize, self_included: bool) -> (r: (bool, Option<usize>))
        requires
            space_wf(old(self)@),
            start < old(self)@.len(),
            old(self)@[start as int].live,
        ensures
            space_wf(final(self)@),
            match r.1 {
                Some(c) => {
                    &&& final(self)@ == kill(old(self)@, c as int)
                    &&& c < old(self)@.len()
                    &&& old(self)@[c as int].live
                    &&& forall|k: int| 0 <= k < old(self)@.len() ==> !#[trigger] live_child(old(self)@, k, c as int)
                    &&& (c == start || desc(old(self)@, c as int, start as int))
                    &&& c == newest_leaf(old(self)@, start as int)
                    &&& r.0 == (c == start)
                    &&& (c == start ==> self_included)
                },
                None => {
                    &&& final(self)@ == old(self)@
                    &&& r.0
                    &&& !self_included
                    &&& newest_leaf(old(self)@, start as int) == start
                    &&& forall|k: int| 0 <= k < old(self)@.len() ==> !#[trigger] live_child(old(self)@, k, start as int)
                },
            },
    {
        let mut cur = start;
        let mut is_child = false;
        loop
            invariant
                space_wf(self@),
                self@ == old(self)@,
                cur < self@.len(),
                self@[cur as int].live,
                is_child == (cur != start),
                cur == start || desc(self@, cur as int, start as int),
                start < self@.len(),
                newest_leaf(self@, cur as int) == newest_leaf(self@, start as int),
            ensures
                space_wf(self@),
                self@ == old(self)@,
                cur < self@.len(),
                self@[cur as int].live,
                is_child == (cur != start),
                cur == start || desc(self@, cur as int, start as int),
                forall|k: int| 0 <= k < self@.len() ==> !#[trigger] live_child(self@, k, cur as int),
                newest_leaf(self@, cur as int) == newest_leaf(self@, start as int),
                newest_leaf(self@, cur as int) == cur,
            decreases self@.len() - cur,
        {
            proof {
                lemma_newest_child(self@, cur as int, self@.len() as int);
            }
            match self.first_child(cur) {
                Some(c) => {
                    proof {
                        if cur != start {
                            lemma_desc_greater(self@, cur as int, start as int);
                        }
                        lemma_desc_step(self@, c as int, cur as int, start as int);
                        assert(match self@[c as int].parent {
                            Some(p) => p < c,
                            None => true,
                        });
                    }
                    cur = c;
                    is_child = true;
                },
                None => {
                    break ;
                },
            }
        }
        if !self_included && !is_child {
            return (true, None);
        }
        let ghost v = self@;
        let mut c = self.caps[cur];
        c.live = false;
        self.caps.set(cur, c);
        proof {
            assert(self@ =~= kill(v, cur as int));
            lemma_kill_leaf_wf(v, cur as int);
        }
        (!is_child, Some(cur))
    }

    /// Revokes the subtree of `start` (and `start` itself if `own`), leaf by leaf, and returns
    /// the revoked capabilities in the order of revocation.
    pub fn revoke_subtree(&mut self, start: usize, own: bool) -> (r: Vec<usize>)
        requires
            space_wf(old(self)@),
            start < old(self)@.len(),
            old(self)@[start as int].live,
        ensures
            space_wf(final(self)@),
            final(self)@ == revoke_subtree_spec(old(self)@, start as int, own),
            forall|k: usize|
                #[trigger] r@.contains(k) <==> (k < old(self)@.len() && old(self)@[k as int].live
                    && !final(self)@[k as int].live),
            r@.no_duplicates(),
    {
        let mut released: Vec<usize> = Vec::new();
        let ghost v0 = self@;
        assert(v0.len() <= usize::MAX) by {
            assert(self.caps@.len() == self.caps.len());
        }
        loop
            invariant
                space_wf(self@),
                start < self@.len(),
                self@.len() == v0.len(),
                v0 == old(self)@,
                space_wf(v0),
                forall|k: int|
                    0 <= k < v0.len() ==> #[trigger] self@[k] == (Capability {
                        live: self@[k].live,
                        ..v0[k]
                    }),
                forall|k: usize|
                    k < v0.len() ==> (#[trigger] self@[k as int].live == (v0[k as int].live
                        && !released@.contains(k))),
                forall|k: usize|
                    #[trigger] released@.contains(k) ==> k < v0.len() && v0[k as int].live && (
                    desc(v0, k as int, start as int) || (own && k == start)),
                released@.no_duplicates(),
                self@[start as int].live,
                v0.len() <= usize::MAX,
            decreases count_live(self@),
        {
            let ghost before = self@;
            let ghost rel_before = released@;
            let (done, rel) = self.revoke_single(start, own);
            match rel {
                Some(c) => {
                    released.push(c);
                },
                None => {},
            }
            proof {
                assert forall|k: int| 0 <= k < v0.len() implies #[trigger] self@[k] == (Capability {
                    live: self@[k].live,
                    ..v0[k]
                }) by {
                    match rel {
                        Some(c) => {
                            if k != c as int {
                                assert(self@[k] == before[k]);
                            }
                        },
                        None => {},
                    }
                }
                assert forall|k: int| 0 <= k < v0.len() implies #[trigger] self@[k].parent
                    == v0[k].parent by {
                    assert(self@[k] == (Capability { live: self@[k].live, ..v0[k] }));
                }
                assert forall|k: int| 0 <= k < v0.len() implies #[trigger] before[k].parent
                    == v0[k].parent by {
                    assert(before[k] == (Capability { live: before[k].live, ..v0[k] }));
                }
                match rel {
                    Some(c) => {
                        lemma_desc_links_eq(before, v0, c as int, start as int);
                        assert(!rel_before.contains(c));
                        assert(released@ == rel_before.push(c));
                        assert forall|k: usize| k < v0.len() implies (#[trigger] self@[k as int].live
                            == (v0[k as int].live && !released@.contains(k))) by {
                            if k != c {
                                assert(self@[k as int] == before[k as int]);
                                assert(released@.contains(k) == rel_before.contains(k)) by {
                                    if released@.contains(k) {
                                        let j = choose|j: int|
                                            0 <= j < released@.len() && released@[j] == k;
                                        if j < rel_before.len() {
                                            assert(rel_before[j] == k);
                                        }
                                    }
                                    if rel_before.contains(k) {
                                        let j = choose|j: int|
                                            0 <= j < rel_before.len() && rel_before[j] == k;
                                        assert(released@[j] == k);
                                    }
                                }
                            } else {
                                assert(released@[released@.len() - 1] == c);
                            }
                        }
                        assert forall|k: usize| #[trigger] released@.contains(k) implies k < v0.len()
                            && v0[k as int].live && (desc(v0, k as int, start as int) || (own && k
                            == start)) by {
                            if k == c {
                                assert(before[c as int].live);
                                assert(before[c as int].live == (v0[c as int].live
                                    && !rel_before.contains(c)));
                            }
                            if k != c {
                                let j = choose|j: int|
                                    0 <= j < released@.len() && released@[j] == k;
                                if j < rel_before.len() {
                                    assert(rel_before[j] == k);
                                    assert(rel_before.contains(k));
                                } else {
                                    assert(released@[j] == c);
                                }
                            }
                        }
                        assert(released@.no_duplicates()) by {
                            assert forall|i: int, j: int|
                                0 <= i < released@.len() && 0 <= j < released@.len() && i != j implies released@[i]
                                != released@[j] by {
                                if i < rel_before.len() && j < rel_before.len() {
                                    assert(released@[i] == rel_before[i]);
                                    assert(released@[j] == rel_before[j]);
                                } else if i < rel_before.len() {
                                    assert(released@[i] == rel_before[i]);
                                    assert(rel_before.contains(rel_before[i]));
                                } else if j < rel_before.len() {
                                    assert(released@[j] == rel_before[j]);
                                    assert(rel_before.contains(rel_before[j]));
                                }
                            }
                        }
                        lemma_count_live_mono(self@, before);
                        assert(!self@[c as int].live && before[c as int].live);
                    },
                    None => {},
                }
            }
            if done {
                proof {
                    let w = revoke_subtree_spec(v0, start as int, own);
                    assert forall|k: int| 0 <= k < v0.len() implies self@[k] == w[k] by {
                        lemma_desc_links_eq(self@, v0, k, start as int);
                        if v0[k].live && desc(v0, k, start as int) && self@[k].live {
                            lemma_live_desc_has_live_child(self@, k, start as int);
                            let ch = choose|ch: int| #[trigger] live_child(self@, ch, start as int);
                            match rel {
                                Some(c) => {
                                    if ch != c as int {
                                        assert(self@[ch] == before[ch]);
                                    }
                                    assert(live_child(before, ch, start as int));
                                },
                                None => {
                                    assert(live_child(before, ch, start as int));
                                },
                            }
                        }
                        if !(desc(v0, k, start as int) || (own && k == start as int)) {
                            let ku = k as usize;
                            assert(ku as int == k);
                            if released@.contains(ku) {
                                assert(false);
                            }
                            assert(self@[k].live == v0[k].live);
                        }
                    }
                    assert(self@ =~= w);
                    assert forall|k: usize| #[trigger] released@.contains(k) <==> (k < v0.len()
                        && v0[k as int].live && !self@[k as int].live) by {
                        if k < v0.len() && v0[k as int].live && !self@[k as int].live {
                            assert(released@.contains(k as usize));
                        }
                    }
                }
                return released;
            }
        }
    }

    /// One step of revoking the selectors `[sel, end)` of `table`: looks at the capability at
    /// `sel`, refuses if its object cannot be revoked in its current state (`kmems` and
    /// `tile_acts`, see `not_revocable`), and otherwise revokes one leaf of its subtree (see
    /// `revoke_single`; the capability itself only with `own`). Once the capability is done,
    /// the next step goes on behind it; before, at the same selector. The caller releases what
    /// was revoked before the next step, which then sees the objects' new state.
    pub fn revoke_step(
        &mut self,
        table: u64,
        sel: u64,
        end: u64,
        own: bool,
        kmems: &Vec<KMemObject>,
        tile_acts: &Vec<usize>,
    ) -> (r: RevokeStep)
        requires
            space_wf(old(self)@),
            objs_known(old(self)@, kmems@, tile_acts@),
            sel < end ==> match lookup(old(self)@, table, sel as int) {
                Some(i) => !not_revocable(old(self)@[i], kmems@, tile_acts@) ==> sel
                    + old(self)@[i].sels.count <= u64::MAX,
                None => true,
            },
        ensures
            space_wf(final(self)@),
            sel >= end ==> r == RevokeStep::Done && final(self)@ == old(self)@,
            sel < end ==> match lookup(old(self)@, table, sel as int) {
                None => r == (RevokeStep::Continue { revoked: None, next: (sel + 1) as u64 })
                    && final(self)@ == old(self)@,
                Some(i) => if not_revocable(old(self)@[i], kmems@, tile_acts@) {
                    r == RevokeStep::Refused && final(self)@ == old(self)@
                } else {
                    let next = (sel + old(self)@[i].sels.count) as u64;
                    match r {
                        RevokeStep::Continue { revoked: Some(c), next: n } => {
                            &&& final(self)@ == kill(old(self)@, c as int)
                            &&& c < old(self)@.len()
                            &&& old(self)@[c as int].live
                            &&& forall|k: int|
                                0 <= k < old(self)@.len() ==> !#[trigger] live_child(
                                    old(self)@,
                                    k,
                                    c as int,
                                )
                            &&& (c == i || desc(old(self)@, c as int, i))
                            &&& c == newest_leaf(old(self)@, i)
                            &&& (c == i ==> own)
                            &&& n == if c == i {
                                next
                            } else {
                                sel
                            }
                        },
                        RevokeStep::Continue { revoked: None, next: n } => {
                            &&& final(self)@ == old(self)@
                            &&& !own
                            &&& n == next
                            &&& forall|k: int|
                                0 <= k < old(self)@.len() ==> !#[trigger] live_child(
                                    old(self)@,
                                    k,
                                    i,
                                )
                        },
                        _ => false,
                    }
                },
            },
    {
        if sel >= end {
            return RevokeStep::Done;
        }
        proof {
            lemma_lookup(self@, table, sel as int);
        }
        match self.lookup(table, sel) {
            None => RevokeStep::Continue { revoked: None, next: sel + 1 },
            Some(i) => {
                let c = self.caps[i];
                proof {
                    assert(c == self@[i as int]);
                    assert(c.kind == KObjKind::KMem ==> c.obj < kmems@.len());
                    assert(c.kind == KObjKind::Tile ==> c.obj < tile_acts@.len());
                }
                let ok = match c.kind {
                    KObjKind::KMem => {
                        let n = kmems.len();
                        assert(c.obj < n);
                        let o = c.obj as usize;
                        assert(o as int == c.obj as int);
                        let k = kmems[o];
                        k.left == k.quota
                    },
                    KObjKind::Tile => {
                        let n = tile_acts.len();
                        assert(c.obj < n);
                        let o = c.obj as usize;
                        assert(o as int == c.obj as int);
                        tile_acts[o] == 0
                    },
                    _ => true,
                };
                assert(ok == !not_revocable(self@[i as int], kmems@, tile_acts@));
                if !ok {
                    return RevokeStep::Refused;
                }
                let len = c.sels.count;
                let (done, leaf) = self.revoke_single(i, own);
                let next = if done {
                    sel + len
                } else {
                    sel
                };
                RevokeStep::Continue { revoked: leaf, next }
            },
        }
    }

    /// The first live capability of `table` in arena order.
    pub fn first_in_table(&self, table: u64) -> (r: Option<usize>)
        ensures
            match r {
                Some(i) => first_in_table(self@, table, 0) == Some(i as int),
                None => first_in_table(self@, table, 0) is None,
            },
    {
        let mut i: usize = 0;
        while i < self.caps.len()
            invariant
                i <= self.caps@.len(),
                first_in_table(self@, table, 0) == first_in_table(self@, table, i as int),
            decreases self.caps@.len() - i,
        {
            if self.caps[i].live && self.caps[i].table == table {
                return Some(i);
            }
            i += 1;
        }
        None
    }

    /// Revokes all capabilities of `table` with their subtrees, always the first remaining one
    /// next, and returns the revoked capabilities.
    pub fn revoke_all(&mut self, table: u64) -> (r: Vec<usize>)
        requires
            space_wf(old(self)@),
        ensures
            space_wf(final(self)@),
            final(self)@ == revoke_all_spec(old(self)@, table),
            final(self)@.len() == old(self)@.len(),
            forall|k: int| 0 <= k < final(self)@.len() && #[trigger] final(self)@[k].live ==> old(
                self)@[k].live,
            forall|k: int| 0 <= k < final(self)@.len() ==> #[trigger] final(self)@[k].table == old(
                self)@[k].table,
            forall|k: int| 0 <= k < final(self)@.len() && #[trigger] final(self)@[k].live ==> final(
                self)@[k].table != table,
            forall|k: usize|
                #[trigger] r@.contains(k) <==> (k < old(self)@.len() && old(self)@[k as int].live
                    && !final(self)@[k as int].live),
    {
        let mut released: Vec<usize> = Vec::new();
        let ghost v0 = self@;
        loop
            invariant
                space_wf(self@),
                v0 == old(self)@,
                self@.len() == v0.len(),
                revoke_all_spec(v0, table) == revoke_all_spec(self@, table),
                forall|k: usize|
                    #[trigger] released@.contains(k) <==> (k < v0.len() && v0[k as int].live
                        && !self@[k as int].live),
                forall|k: int| 0 <= k < v0.len() && #[trigger] self@[k].live ==> v0[k].live,
                forall|k: int| 0 <= k < v0.len() ==> #[trigger] self@[k].table == v0[k].table,
            decreases count_live(self@),
        {
            proof {
                lemma_first_in_table(self@, table, 0);
            }
            match self.first_in_table(table) {
                None => {
                    return released;
                },
                Some(i) => {
                    let ghost before = self@;
                    proof {
                        lemma_revoke_subtree_count(before, i as int);
                    }
                    let mut rel = self.revoke_subtree(i, true);
                    let ghost r0 = released@;
                    let ghost r1 = rel@;
                    released.append(&mut rel);
                    proof {
                        lemma_seq_add_contains(r0, r1);
                        assert forall|k: usize| #[trigger] released@.contains(k) <==> (k < v0.len()
                            && v0[k as int].live && !self@[k as int].live) by {
                            if k < v0.len() && v0[k as int].live && !self@[k as int].live
                                && before[k as int].live {
                                assert(r1.contains(k));
                            }
                        }
                        assert forall|k: int| 0 <= k < v0.len() && #[trigger] self@[k].live implies v0[k].live by {
                            assert(before[k].live);
                        }
                        assert forall|k: int| 0 <= k < v0.len() implies #[trigger] self@[k].table == v0[k].table by {
                            assert(self@[k].table == before[k].table);
                        }
                    }
                },
            }
        }
    }
}

/// What releasing a revoked capability implies beyond giving back its kernel memory.
#[derive(Clone, Copy, Debug, PartialEq, Eq, Structural)]
pub enum ReleaseAction {
    /// Nothing further.
    Nothing,
    /// The activity created with this capability is gone: revoke all its capabilities.
    RevokeActivityCaps(u64),
    /// Detach the endpoint from its activity.
    RevokeEP(u64),
    /// Give the endpoint and region quotas of the tile object back to the parent tile object.
    RevokeTile { tile: u64, parent: u64 },
    /// Give the remaining quota of the kernel-memory object back to the parent object.
    RevokeKMem { kmem: u64, parent: u64 },
    /// Invalidate the reply endpoints and the endpoint of the send gate, notifying the
    /// multiplexer.
    InvalidateSendGate(u64),
    /// Invalidate the endpoint of the receive gate and wake up activations waiting for it.
    InvalidateRecvGate(u64),
    /// Invalidate the endpoint of the memory gate.
    InvalidateMemGate(u64),
    /// Abort the service (only for the owner).
    AbortService(u64),
    /// Ask the server to close the (derived) session.
    CloseSession(u64),
    /// Unmap the `pages` pages at the selector (page number) `sel` of the activity.
    Unmap { sel: u64, pages: u64 },
    /// Wake up the waiters of the semaphore.
    RevokeSem(u64),
}

/// The kernel memory that releasing capability `c` gives back: the capability, and the object
/// too if the capability owns it.
pub open spec fn spec_release_refund(c: Capability) -> int {
    if c.derived {
        CAP_SIZE as int
    } else {
        CAP_SIZE + c.obj_size
    }
}

/// What releasing capability `c` implies, given its parent `parent` and whether its mapping
/// is established for a still living activity.
pub open spec fn spec_release_action(c: Capability, parent: Option<Capability>, map_active: bool)
    -> ReleaseAction {
    match c.kind {
        KObjKind::Activity => if !c.derived {
            ReleaseAction::RevokeActivityCaps(c.obj)
        } else {
            ReleaseAction::Nothing
        },
        KObjKind::EP => ReleaseAction::RevokeEP(c.obj),
        KObjKind::Tile => match parent {
            Some(p) => if !c.derived && p.kind == KObjKind::Tile {
                ReleaseAction::RevokeTile { tile: c.obj, parent: p.obj }
            } else {
                ReleaseAction::Nothing
            },
            None => ReleaseAction::Nothing,
        },
        KObjKind::KMem => match parent {
            Some(p) => if !c.derived && p.kind == KObjKind::KMem {
                ReleaseAction::RevokeKMem { kmem: c.obj, parent: p.obj }
            } else {
                ReleaseAction::Nothing
            },
            None => ReleaseAction::Nothing,
        },
        KObjKind::SGate => ReleaseAction::InvalidateSendGate(c.obj),
        KObjKind::RGate => ReleaseAction::InvalidateRecvGate(c.obj),
        KObjKind::MGate => ReleaseAction::InvalidateMemGate(c.obj),
        KObjKind::Serv => ReleaseAction::AbortService(c.obj),
        KObjKind::Sess => if c.derived {
            ReleaseAction::CloseSession(c.obj)
        } else {
            ReleaseAction::Nothing
        },
        KObjKind::Mapping => if map_active {
            ReleaseAction::Unmap { sel: c.sels.start, pages: c.sels.count }
        } else {
            ReleaseAction::Nothing
        },
        KObjKind::Sem => ReleaseAction::RevokeSem(c.obj),
    }
}

/// Releasing a session capability asks the server to close the session exactly when the
/// capability is derived (a client's copy of it); releasing the server's own, non-derived
/// session capability implies nothing.
pub proof fn lemma_release_session(c: Capability, parent: Option<Capability>, map_active: bool)
    requires
        c.kind == KObjKind::Sess,
    ensures
        c.derived ==> spec_release_action(c, parent, map_active) == ReleaseAction::CloseSession(c.obj),
        !c.derived ==> spec_release_action(c, parent, map_active) == ReleaseAction::Nothing,
        (spec_release_action(c, parent, map_active) is CloseSession) == c.derived,
{
}

/// Can a capability to an object of `kind` be revoked? Kernel memory only if none of its quota
/// is in use, and tiles only if no activity runs on them.
pub fn can_revoke(kind: KObjKind, kmem: &KMemObject, tile_activities: usize) -> (r: bool)
    ensures
        r == match kind {
            KObjKind::KMem => kmem.left == kmem.quota,
            KObjKind::Tile => tile_activities == 0,
            _ => true,
        },
{
    match kind {
        KObjKind::KMem => kmem.left == kmem.quota,
        KObjKind::Tile => tile_activities == 0,
        _ => true,
    }
}

impl CapSpace {
    /// What releasing the revoked capability `i` implies: the kernel memory to give back to the
    /// quota of its table's activity, and the further action.
    pub fn release_plan(&self, i: usize, map_active: bool) -> (r: (usize, ReleaseAction))
        requires
            space_wf(self@),
            i < self@.len(),
            self@[i as int].obj_size + CAP_SIZE <= usize::MAX,
        ensures
            r.0 == spec_release_refund(self@[i as int]),
            r.1 == spec_release_action(
                self@[i as int],
                match self@[i as int].parent {
                    Some(p) => Some(self@[p as int]),
                    None => None,
                },
                map_active,
            ),
    {
        let c = self.caps[i];
        let refund = if c.derived {
            CAP_SIZE
        } else {
            CAP_SIZE + c.obj_size
        };
        let parent: Option<Capability> = match c.parent {
            Some(p) => {
                proof {
                    assert(match self@[i as int].parent {
                        Some(q) => q < i,
                        None => true,
                    });
                }
                Some(self.caps[p])
            },
            None => None,
        };
        let action = match c.kind {
            KObjKind::Activity => if !c.derived {
                ReleaseAction::RevokeActivityCaps(c.obj)
            } else {
                ReleaseAction::Nothing
            },
            KObjKind::EP => ReleaseAction::RevokeEP(c.obj),
            KObjKind::Tile => match parent {
                Some(p) => if !c.derived && p.kind == KObjKind::Tile {
                    ReleaseAction::RevokeTile { tile: c.obj, parent: p.obj }
                } else {
                    ReleaseAction::Nothing
                },
                None => ReleaseAction::Nothing,
            },
            KObjKind::KMem => match parent {
                Some(p) => if !c.derived && p.kind == KObjKind::KMem {
                    ReleaseAction::RevokeKMem { kmem: c.obj, parent: p.obj }
                } else {
                    ReleaseAction::Nothing
                },
                None => ReleaseAction::Nothing,
            },
            KObjKind::SGate => ReleaseAction::InvalidateSendGate(c.obj),
            KObjKind::RGate => ReleaseAction::InvalidateRecvGate(c.obj),
            KObjKind::MGate => ReleaseAction::InvalidateMemGate(c.obj),
            KObjKind::Serv => ReleaseAction::AbortService(c.obj),
            KObjKind::Sess => if c.derived {
                ReleaseAction::CloseSession(c.obj)
            } else {
                ReleaseAction::Nothing
            },
            KObjKind::Mapping => if map_active {
                ReleaseAction::Unmap { sel: c.sels.start, pages: c.sels.count }
            } else {
                ReleaseAction::Nothing
            },
            KObjKind::Sem => ReleaseAction::RevokeSem(c.obj),
        };
        (refund, action)
    }
}

/// Is capability `i` the only reference to its object: does no other live capability refer to
/// the same object?
pub open spec fn only_reference(v: Seq<Capability>, i: int) -> bool {
    forall|j: int|
        0 <= j < v.len() && j != i && #[trigger] v[j].live ==> !(v[j].kind == v[i].kind && v[j].obj
            == v[i].obj)
}

impl CapSpace {
    /// Releases the revoked capability `i`, charged to `kmem` (the kernel memory of its
    /// table's activity): gives back what its insertion took (see `spec_release_refund`) and
    /// returns the further action (see `release_plan`). An owning capability is the last
    /// reference to its object when it is released.
    pub fn release(&self, i: usize, kmem: &mut KMemObject, map_active: bool) -> (r: ReleaseAction)
        requires
            space_wf(self@),
            i < self@.len(),
            !self@[i as int].live,
            !self@[i as int].derived ==> only_reference(self@, i as int),
            self@[i as int].obj_size + CAP_SIZE <= usize::MAX,
            old(kmem).left + spec_release_refund(self@[i as int]) <= old(kmem).quota,
        ensures
            final(kmem).left == old(kmem).left + spec_release_refund(self@[i as int]),
            final(kmem).quota == old(kmem).quota,
            final(kmem).id == old(kmem).id,
            r == spec_release_action(
                self@[i as int],
                match self@[i as int].parent {
                    Some(p) => Some(self@[p as int]),
                    None => None,
                },
                map_active,
            ),
    {
        let (refund, action) = self.release_plan(i, map_active);
        kmem.free(refund);
        action
    }
}

/// Law: revoking a subtree revokes exactly the descendants (and the capability itself if
/// `own`); every other capability stays as it was.
pub proof fn lemma_revoke_subtree_effect(v: Seq<Capability>, i: int, own: bool, k: int)
    requires
        space_wf(v),
        0 <= i < v.len(),
        0 <= k < v.len(),
    ensures
        desc(v, k, i) ==> !revoke_subtree_spec(v, i, own)[k].live,
        own ==> !revoke_subtree_spec(v, i, own)[i].live,
        !own ==> revoke_subtree_spec(v, i, own)[i] == v[i],
        !desc(v, k, i) && k != i ==> revoke_subtree_spec(v, i, own)[k] == v[k],
{
    if desc(v, i, i) {
        lemma_desc_greater(v, i, i);
    }
}

/// Law: a capability inserted into a free selector range is what a lookup of any of its
/// selectors finds afterwards.
pub proof fn lemma_insert_lookup(v: Seq<Capability>, c: Capability, sel: int)
    requires
        space_wf(v),
        c.live,
        lookup(v, c.table, c.sels.start as int) is None,
        forall|j: int|
            0 <= j < v.len() && #[trigger] v[j].live && v[j].table == c.table ==> !(c.sels.start
                < v[j].sels.start < c.sels.start + c.sels.count),
        c.sels.start <= sel < c.sels.start + c.sels.count,
    ensures
        lookup(v.push(c), c.table, sel) == Some(v.len() as int),
{
    lemma_lookup(v, c.table, c.sels.start as int);
    let w = v.push(c);
    lemma_lookup_from(w, c.table, sel, 0);
    assert forall|k: int| 0 <= k < v.len() implies !covers(#[trigger] w[k], c.table, sel) by {
        assert(w[k] == v[k]);
        if covers(v[k], c.table, sel) {
            if v[k].sels.start <= c.sels.start {
                assert(covers(v[k], c.table, c.sels.start as int));
            }
        }
    }
    assert(covers(w[v.len() as int], c.table, sel));
}

/// Law: revoking a capability right after inserting it gives back what the insertion took:
/// releasing it refunds exactly the kernel memory that was charged for it (the capability and,
/// for an owning capability, its object; a copy only the capability), and its selectors are
/// found as they were before the insertion.
pub proof fn lemma_insert_revoke_refund(v: Seq<Capability>, k: KMemObject, cap: Capability, sel: int)
    requires
        cap.live,
        insert_result(v, k, cap, if cap.derived {
            CAP_SIZE as int
        } else {
            cap.obj_size + CAP_SIZE
        }).2 is Ok,
    ensures
        ({
            let cost = if cap.derived {
                CAP_SIZE as int
            } else {
                cap.obj_size + CAP_SIZE
            };
            let (w, k2, r) = insert_result(v, k, cap, cost);
            let i = v.len() as int;
            &&& w[i] == cap
            &&& k2.left + spec_release_refund(w[i]) == k.left
            &&& lookup(kill(w, i), cap.table, sel) == lookup(v, cap.table, sel)
        }),
{
    let cost = if cap.derived {
        CAP_SIZE as int
    } else {
        cap.obj_size + CAP_SIZE
    };
    let (w, k2, r) = insert_result(v, k, cap, cost);
    let i = v.len() as int;
    let dead = Capability { live: false, ..cap };
    assert(kill(w, i) =~= v.push(dead));
    crate::sysc::lemma_lookup_push(v, dead, cap.table, sel, 0);
    assert(w[i] == cap);
    assert(k2.left + spec_release_refund(w[i]) == k.left);
    assert(lookup(kill(w, i), cap.table, sel) == lookup(v, cap.table, sel));
}

/// Law: after revoking all capabilities of a table, a lookup in that table finds nothing.
pub proof fn lemma_revoke_all_empties(v: Seq<Capability>, table: u64, sel: int)
    requires
        forall|k: int| 0 <= k < v.len() && #[trigger] v[k].live ==> v[k].table != table,
    ensures
        lookup(v, table, sel) is None,
{
    lemma_lookup_from(v, table, sel, 0);
}

/// Lemma: the first live capability of a table is live, in that table, and no earlier one is.
pub proof fn lemma_first_in_table(v: Seq<Capability>, table: u64, from: int)
    requires
        0 <= from,
    ensures
        match first_in_table(v, table, from) {
            Some(i) => from <= i < v.len() && v[i].live && v[i].table == table,
            None => forall|k: int| from <= k < v.len() ==> !(#[trigger] v[k].live && v[k].table
                == table),
        },
    decreases v.len() - from,
{
    if from < v.len() {
        lemma_first_in_table(v, table, from + 1);
    }
}

/// Lemma: revoking the subtree of a live capability including itself revokes at least it.
pub proof fn lemma_revoke_subtree_count(v: Seq<Capability>, i: int)
    requires
        0 <= i < v.len(),
        v[i].live,
    ensures
        count_live(revoke_subtree_spec(v, i, true)) < count_live(v),
{
    let w = revoke_subtree_spec(v, i, true);
    assert forall|k: int| 0 <= k < w.len() && #[trigger] w[k].live implies v[k].live by {}
    assert(!w[i].live && v[i].live);
    lemma_count_live_mono(w, v);
}

/// Is `x` in `v`?
pub fn vec_contains(v: &Vec<u64>, x: u64) -> (r: bool)
    ensures
        r == v@.contains(x),
{
    let mut i: usize = 0;
    while i < v.len()
        invariant
            i <= v@.len(),
            forall|j: int| 0 <= j < i ==> v@[j] != x,
        decreases v@.len() - i,
    {
        if v[i] == x {
            return true;
        }
        i += 1;
    }
    false
}

/// Lemma: an element of a concatenation is an element of one of its parts.
pub proof fn lemma_seq_add_contains<T>(a: Seq<T>, b: Seq<T>)
    ensures
        forall|x: T| #[trigger] (a + b).contains(x) <==> a.contains(x) || b.contains(x),
{
    assert forall|x: T| #[trigger] (a + b).contains(x) <==> a.contains(x) || b.contains(x) by {
        if (a + b).contains(x) {
            let i = choose|i: int| 0 <= i < (a + b).len() && (a + b)[i] == x;
            if i < a.len() {
                assert(a[i] == x);
            } else {
                assert(b[i - a.len()] == x);
            }
        }
        if a.contains(x) {
            let i = choose|i: int| 0 <= i < a.len() && a[i] == x;
            assert((a + b)[i] == x);
        }
        if b.contains(x) {
            let i = choose|i: int| 0 <= i < b.len() && b[i] == x;
            assert((a + b)[a.len() + i] == x);
        }
    }
}

/// Lemma: along the parent link, descendants of the parent are descendants of the child's
/// ancestors too (the descendant relation is transitive through the parent).
pub proof fn lemma_desc_trans_parent(v: Seq<Capability>, a: int, b: int)
    requires
        space_wf(v),
        desc(v, a, b),
        0 <= b < v.len(),
        v[b].parent is Some,
    ensures
        desc(v, a, v[b].parent.unwrap() as int),
    decreases a,
{
    let p = v[a].parent.unwrap() as int;
    let pb = v[b].parent.unwrap() as int;
    assert(match v[b].parent {
        Some(q) => q < b,
        None => true,
    });
    assert(desc(v, b, pb));
    if p != b {
        lemma_desc_trans_parent(v, p, b);
    }
}

/// Lemma: the descendant relation agrees on arenas with the same links.
pub proof fn lemma_desc_links_eq(v: Seq<Capability>, w: Seq<Capability>, a: int, b: int)
    requires
        v.len() == w.len(),
        forall|k: int| 0 <= k < v.len() ==> #[trigger] v[k].parent == w[k].parent,
    ensures
        desc(v, a, b) == desc(w, a, b),
{
    lemma_desc_same_links(v, w, a, b);
}

/// Lemma: revoking a capability without live children keeps the arena well-formed.
pub proof fn lemma_kill_leaf_wf(v: Seq<Capability>, c: int)
    requires
        space_wf(v),
        0 <= c < v.len(),
        forall|k: int| 0 <= k < v.len() ==> !#[trigger] live_child(v, k, c),
    ensures
        space_wf(kill(v, c)),
{
    let w = kill(v, c);
    assert forall|i: int|
        0 <= i < w.len() && w[i].live && w[i].parent is Some implies #[trigger] w[w[i].parent.unwrap() as int].live by {
        assert(w[i] == v[i]);
        let p = v[i].parent.unwrap() as int;
        if p == c {
            assert(live_child(v, i, c));
        }
    }
}

} // verus!
