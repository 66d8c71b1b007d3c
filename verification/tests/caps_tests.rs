use m3kern::caps::{can_revoke, vec_contains, CapSpace, ReleaseAction, RevokeStep};
use m3kern::errors::Code;
use m3kern::kobjs::{KMemObject, KObjKind, CAP_SIZE};
use m3kern::selrange::SelRange;

// table 1 is activity 1's, table 2 activity 2's
fn space_with_gate() -> (CapSpace, KMemObject) {
    let mut s = CapSpace::new();
    let mut k = KMemObject::new(0, 10_000);
    assert_eq!(s.insert(1, SelRange::new(5), KObjKind::RGate, 100, 64, None, &mut k), Ok(0));
    (s, k)
}

#[test]
fn insert_then_lookup() {
    let (mut s, mut k) = space_with_gate();
    assert_eq!(k.left(), 10_000 - 64 - CAP_SIZE);
    assert_eq!(s.lookup(1, 5), Some(0));
    assert_eq!(s.lookup(2, 5), None);
    assert!(s.unused(1, 6));
    assert_eq!(s.get(1, 5), Ok(0));
    assert_eq!(s.get(1, 6), Err(Code::InvCap));
    // a taken selector
    assert_eq!(s.insert(1, SelRange::new(5), KObjKind::Sem, 101, 64, None, &mut k), Err(Code::InvArgs));
    // a range covers all its selectors
    assert_eq!(s.insert(1, SelRange::new_range(10, 4), KObjKind::Mapping, 102, 64, None, &mut k), Ok(1));
    assert_eq!(s.lookup(1, 13), Some(1));
    assert_eq!(s.lookup(1, 14), None);
    assert!(!s.range_unused(1, 8, 3));
    assert!(s.range_unused(1, 14, 100));
    assert_eq!(s.len(), 2);
}

#[test]
fn insert_without_kernel_memory() {
    let mut s = CapSpace::new();
    let mut k = KMemObject::new(0, 100);
    assert_eq!(s.insert(1, SelRange::new(5), KObjKind::Sem, 1, 64, None, &mut k), Err(Code::NoSpace));
    assert_eq!(k.left(), 100);
    assert_eq!(s.len(), 0);
}

#[test]
fn get_kobj_checks_kind() {
    let (s, _) = space_with_gate();
    assert_eq!(s.get_kobj(1, 5, KObjKind::RGate), Ok(0));
    assert_eq!(s.get_kobj(1, 5, KObjKind::SGate), Err(Code::InvArgs));
    assert_eq!(s.get_kobj(1, 4, KObjKind::RGate), Err(Code::InvCap));
}

#[test]
fn obtain_copies_as_child() {
    let (mut s, _) = space_with_gate();
    let mut k2 = KMemObject::new(1, 1000);
    assert_eq!(s.obtain(2, 7, 0, &mut k2), Ok(1));
    assert_eq!(k2.left(), 1000 - CAP_SIZE);
    let c = s.cap(1);
    assert_eq!(c.table, 2);
    assert_eq!(c.sels, SelRange::new(7));
    assert_eq!(c.kind, KObjKind::RGate);
    assert_eq!(c.obj, 100);
    assert!(c.derived);
    assert_eq!(c.parent, Some(0));
    assert_eq!(s.obtain(2, 7, 0, &mut k2), Err(Code::InvArgs));
    let mut poor = KMemObject::new(2, 10);
    assert_eq!(s.obtain(2, 8, 0, &mut poor), Err(Code::NoSpace));
    assert_eq!(s.get_root(1), 0);
    assert_eq!(s.first_child(0), Some(1));
    assert_eq!(s.find_child(0, KObjKind::RGate, 100), Some(1));
    assert_eq!(s.find_child(0, KObjKind::RGate, 101), None);
}

#[test]
fn revoke_subtree_revokes_descendants() {
    let (mut s, _) = space_with_gate();
    let mut k = KMemObject::new(1, 10_000);
    assert_eq!(s.obtain(2, 7, 0, &mut k), Ok(1));
    assert_eq!(s.obtain(3, 1, 1, &mut k), Ok(2));
    assert_eq!(s.obtain(3, 2, 0, &mut k), Ok(3));
    // revoking the children of 0 revokes 1, 2 and 3 but keeps 0
    let rel = s.revoke_subtree(0, false);
    assert_eq!(rel.len(), 3);
    assert!(rel.contains(&1) && rel.contains(&2) && rel.contains(&3));
    assert!(s.cap(0).live);
    assert!(!s.cap(1).live && !s.cap(2).live && !s.cap(3).live);
    assert_eq!(s.lookup(2, 7), None);
    assert_eq!(s.lookup(1, 5), Some(0));
}

#[test]
fn revoke_single_walks_to_leaf() {
    let (mut s, _) = space_with_gate();
    let mut k = KMemObject::new(1, 10_000);
    assert_eq!(s.obtain(2, 7, 0, &mut k), Ok(1));
    assert_eq!(s.obtain(3, 1, 1, &mut k), Ok(2));
    assert_eq!(s.revoke_single(0, true), (false, Some(2)));
    assert_eq!(s.revoke_single(0, true), (false, Some(1)));
    assert_eq!(s.revoke_single(0, false), (true, None));
    assert_eq!(s.revoke_single(0, true), (true, Some(0)));
}

/// Runs the steps of revoking `[start, end)` of `table`, with the objects' state unchanged
/// between steps; returns the revoked capabilities and whether it was refused.
fn revoke_range(s: &mut CapSpace, table: u64, start: u64, end: u64, kmems: &Vec<KMemObject>, tiles: &Vec<usize>) -> (Vec<usize>, bool) {
    let mut sel = start;
    let mut revoked = vec![];
    loop {
        match s.revoke_step(table, sel, end, true, kmems, tiles) {
            RevokeStep::Done => return (revoked, false),
            RevokeStep::Refused => return (revoked, true),
            RevokeStep::Continue { revoked: r, next } => {
                revoked.extend(r);
                sel = next;
            },
        }
    }
}

#[test]
fn revoke_range_leaf_by_leaf() {
    let (mut s, _) = space_with_gate();
    let mut k = KMemObject::new(1, 10_000);
    assert_eq!(s.insert(1, SelRange::new_range(6, 2), KObjKind::Sem, 200, 64, None, &mut k), Ok(1));
    assert_eq!(s.obtain(2, 9, 1, &mut k), Ok(2));
    // the first step at selector 6 revokes the copy in table 2 and stays at 6
    assert_eq!(s.revoke_step(1, 6, 8, true, &vec![], &vec![]), RevokeStep::Continue { revoked: Some(2), next: 6 });
    // the next revokes the capability itself and goes on behind it
    assert_eq!(s.revoke_step(1, 6, 8, true, &vec![], &vec![]), RevokeStep::Continue { revoked: Some(1), next: 8 });
    assert_eq!(s.revoke_step(1, 8, 8, true, &vec![], &vec![]), RevokeStep::Done);
    let (rel, refused) = revoke_range(&mut s, 1, 0, 10, &vec![], &vec![]);
    assert!(!refused);
    assert_eq!(rel, vec![0]);
    assert_eq!(s.lookup(1, 5), None);
    assert_eq!(s.lookup(2, 9), None);
    // without `own`, only what was derived goes
    let mut s3 = CapSpace::new();
    assert_eq!(s3.insert(1, SelRange::new(3), KObjKind::Sem, 8, 64, None, &mut k), Ok(0));
    assert_eq!(s3.revoke_step(1, 3, 4, false, &vec![], &vec![]), RevokeStep::Continue { revoked: None, next: 4 });
    assert_eq!(s3.lookup(1, 3), Some(0));
}

#[test]
fn revocation_follows_the_objects_state() {
    let mut k = KMemObject::new(1, 10_000);
    let mut s = CapSpace::new();
    // kernel memory 0 at 3, a tile (object 0) at 4
    assert_eq!(s.insert(1, SelRange::new(3), KObjKind::KMem, 0, 64, None, &mut k), Ok(0));
    assert_eq!(s.insert(1, SelRange::new(4), KObjKind::Tile, 0, 64, None, &mut k), Ok(1));
    let mut in_use = KMemObject::new(0, 1000);
    in_use.allocate(10);
    // kernel memory in use cannot be revoked
    assert_eq!(s.revoke_step(1, 3, 5, true, &vec![in_use], &vec![0]), RevokeStep::Refused);
    assert_eq!(s.lookup(1, 3), Some(0));
    // once its quota is back, it can
    let free = KMemObject::new(0, 1000);
    assert_eq!(s.revoke_step(1, 3, 5, true, &vec![free], &vec![0]), RevokeStep::Continue { revoked: Some(0), next: 4 });
    // a tile with activities cannot; once they are gone, it can
    assert_eq!(s.revoke_step(1, 4, 5, true, &vec![free], &vec![1]), RevokeStep::Refused);
    assert_eq!(s.revoke_step(1, 4, 5, true, &vec![free], &vec![0]), RevokeStep::Continue { revoked: Some(1), next: 5 });
    assert!(!can_revoke(KObjKind::KMem, &in_use, 0));
}

#[test]
fn revoking_right_after_inserting_refunds_the_charge() {
    let mut s = CapSpace::new();
    let mut k = KMemObject::new(0, 10_000);
    assert_eq!(s.insert(1, SelRange::new(7), KObjKind::Sem, 3, 64, None, &mut k), Ok(0));
    let (refund, _) = s.release_plan(0, false);
    let (rel, _) = revoke_range(&mut s, 1, 7, 8, &vec![], &vec![]);
    assert_eq!(rel, vec![0]);
    k.free(refund);
    assert_eq!(k.left(), 10_000);
    assert!(s.unused(1, 7));
}

#[test]
fn revoke_all_empties_table() {
    let (mut s, _) = space_with_gate();
    let mut k = KMemObject::new(1, 10_000);
    assert_eq!(s.insert(1, SelRange::new(6), KObjKind::Sem, 200, 64, None, &mut k), Ok(1));
    assert_eq!(s.obtain(2, 9, 1, &mut k), Ok(2));
    assert_eq!(s.insert(2, SelRange::new(1), KObjKind::Sem, 201, 64, None, &mut k), Ok(3));
    assert_eq!(s.first_in_table(1), Some(0));
    let rel = s.revoke_all(1);
    assert_eq!(rel.len(), 3);
    assert_eq!(s.first_in_table(1), None);
    // the copy in table 2 went with its parent, the other capability of table 2 stays
    assert_eq!(s.lookup(2, 9), None);
    assert_eq!(s.lookup(2, 1), Some(3));
}

#[test]
fn release_plan_refunds_and_actions() {
    let mut s = CapSpace::new();
    let mut k = KMemObject::new(0, 10_000);
    assert_eq!(s.insert(1, SelRange::new(1), KObjKind::KMem, 0, 64, None, &mut k), Ok(0));
    assert_eq!(s.insert(1, SelRange::new(2), KObjKind::KMem, 1, 64, Some(0), &mut k), Ok(1));
    assert_eq!(s.obtain(2, 1, 1, &mut k), Ok(2));
    assert_eq!(s.release_plan(1, false), (CAP_SIZE + 64, ReleaseAction::RevokeKMem { kmem: 1, parent: 0 }));
    assert_eq!(s.release_plan(2, false), (CAP_SIZE, ReleaseAction::Nothing));
    assert_eq!(s.insert(1, SelRange::new_range(16, 4), KObjKind::Mapping, 9, 32, None, &mut k), Ok(3));
    assert_eq!(s.release_plan(3, true), (CAP_SIZE + 32, ReleaseAction::Unmap { sel: 16, pages: 4 }));
    assert_eq!(s.release_plan(3, false), (CAP_SIZE + 32, ReleaseAction::Nothing));
}

#[test]
fn revocability() {
    let full = KMemObject::new(0, 100);
    let mut used = KMemObject::new(0, 100);
    assert!(used.allocate(1));
    assert!(can_revoke(KObjKind::KMem, &full, 3));
    assert!(!can_revoke(KObjKind::KMem, &used, 0));
    assert!(!can_revoke(KObjKind::Tile, &full, 1));
    assert!(can_revoke(KObjKind::Tile, &full, 0));
    assert!(can_revoke(KObjKind::Sem, &used, 1));
    assert!(vec_contains(&vec![1, 2, 3], 2));
    assert!(!vec_contains(&vec![1, 2, 3], 4));
}

#[test]
fn insert_refuses_ranges_over_existing_capabilities() {
    let mut s = CapSpace::new();
    let mut k = KMemObject::new(0, 10_000);
    assert_eq!(s.insert(1, SelRange::new(12), KObjKind::Sem, 1, 64, None, &mut k), Ok(0));
    let left = k.left();
    // a range that would cover selector 12
    assert_eq!(s.insert(1, SelRange::new_range(10, 4), KObjKind::Mapping, 2, 64, None, &mut k), Err(Code::InvArgs));
    assert_eq!(k.left(), left);
    assert_eq!(s.insert(1, SelRange::new_range(13, 4), KObjKind::Mapping, 2, 64, None, &mut k), Ok(1));
}

#[test]
fn single_revocation_follows_the_newest_child() {
    let mut s = CapSpace::new();
    let mut k = KMemObject::new(0, 10_000);
    assert_eq!(s.insert(1, SelRange::new(3), KObjKind::Sem, 1, 64, None, &mut k), Ok(0));
    assert_eq!(s.obtain(2, 4, 0, &mut k), Ok(1));
    assert_eq!(s.obtain(3, 5, 0, &mut k), Ok(2));
    assert_eq!(s.obtain(4, 6, 2, &mut k), Ok(3));
    // the newest child of 0 is 2, whose newest child is 3
    assert_eq!(s.revoke_single(0, true), (false, Some(3)));
    assert_eq!(s.revoke_single(0, true), (false, Some(2)));
    assert_eq!(s.revoke_single(0, true), (false, Some(1)));
    assert_eq!(s.revoke_single(0, false), (true, None));
    assert_eq!(s.revoke_single(0, true), (true, Some(0)));
}

#[test]
fn releasing_gives_back_the_kernel_memory() {
    let mut s = CapSpace::new();
    let mut k = KMemObject::new(0, 10_000);
    assert_eq!(s.insert(1, SelRange::new(7), KObjKind::Sem, 3, 64, None, &mut k), Ok(0));
    assert_eq!(s.obtain(2, 8, 0, &mut k), Ok(1));
    assert_eq!(k.left(), 10_000 - 64 - 2 * CAP_SIZE);
    s.revoke_subtree(0, true);
    assert_eq!(s.release(1, &mut k, false), ReleaseAction::RevokeSem(3));
    assert_eq!(k.left(), 10_000 - 64 - CAP_SIZE);
    assert_eq!(s.release(0, &mut k, false), ReleaseAction::RevokeSem(3));
    assert_eq!(k.left(), 10_000);
}
