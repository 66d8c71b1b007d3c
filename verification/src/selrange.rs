//! Capability selectors: ranges of them and their ordering.
use vstd::prelude::*;

use crate::errors::Code;

verus! {

/// Largest capability selector.
pub const MAX_SEL: u64 = 0xFFFF_FFFF_FFFF_FFFF;

/// Largest number of selectors a range may hold.
pub const MAX_COUNT: u64 = 0x7FFF_FFFF_FFFF_FFFF;

/// A contiguous range of capability selectors, starting at `start` and spanning `count` selectors.
#[derive(Clone, Copy, Debug, PartialEq, Eq, Structural)]
pub struct SelRange {
    pub start: u64,
    pub count: u64,
}

impl SelRange {
    /// The range holding the single selector `sel`.
    pub fn new(sel: u64) -> (r: Self)
        ensures
            r.start == sel,
            r.count == 1,
    {
        Self::new_range(sel, 1)
    }

    /// The range of `count` selectors starting at `sel`.
    pub fn new_range(sel: u64, count: u64) -> (r: Self)
        ensures
            r.start == sel,
            r.count == count,
    {
        SelRange { start: sel, count }
    }

    /// The order by which capability tables sort their ranges: a range whose start lies within
    /// `other` is equal to it, otherwise ranges are ordered by their start.
    pub fn cmp(&self, other: &SelRange) -> (r: std::cmp::Ordering)
        ensures
            (other.start <= self.start < other.start + other.count) ==> r
                == std::cmp::Ordering::Equal,
            !(other.start <= self.start < other.start + other.count) && self.start < other.start
                ==> r == std::cmp::Ordering::Less,
            !(other.start <= self.start < other.start + other.count) && self.start >= other.start
                ==> r == std::cmp::Ordering::Greater,
    {
        if self.start >= other.start && self.start - other.start < other.count {
            std::cmp::Ordering::Equal
        } else if self.start < other.start {
            std::cmp::Ordering::Less
        } else {
            std::cmp::Ordering::Greater
        }
    }
}

/// The type of capabilities a range refers to.
#[derive(Clone, Copy, Debug, PartialEq, Eq, Structural)]
pub enum CapType {
    Object,
    Mapping,
}

/// A range of capability selectors of one type, as passed in system calls.
#[derive(Clone, Copy, Debug, PartialEq, Eq, Structural)]
pub struct CapRngDesc {
    pub ty: CapType,
    pub start: u64,
    pub count: u64,
}

impl CapRngDesc {
    /// The range of `count` selectors of type `ty` from `start` on.
    ///
    /// Fails with `CapCountTooLarge` if `count` exceeds `MAX_COUNT`, and with
    /// `LastCapOverflow` if the last selector would lie beyond `MAX_SEL`.
    pub fn new(ty: CapType, start: u64, count: u64) -> (r: Result<CapRngDesc, Code>)
        ensures
            count > MAX_COUNT ==> r == Err::<CapRngDesc, Code>(Code::CapCountTooLarge),
            count <= MAX_COUNT && start + count > MAX_SEL + 1 ==> r == Err::<CapRngDesc, Code>(
                Code::LastCapOverflow,
            ),
            count <= MAX_COUNT && start + count <= MAX_SEL + 1 ==> r == Ok::<CapRngDesc, Code>(
                CapRngDesc { ty, start, count },
            ),
    {
        if count > MAX_COUNT {
            return Err(Code::CapCountTooLarge);
        }
        if count > 0 && start > MAX_SEL - (count - 1) {
            return Err(Code::LastCapOverflow);
        }
        Ok(CapRngDesc { ty, start, count })
    }

    /// The range holding the single selector `sel` of type `ty`.
    pub fn new_single(ty: CapType, sel: u64) -> (r: CapRngDesc)
        ensures
            r == (CapRngDesc { ty, start: sel, count: 1 }),
    {
        CapRngDesc { ty, start: sel, count: 1 }
    }

    pub fn start(&self) -> (r: u64)
        ensures
            r == self.start,
    {
        self.start
    }

    pub fn count(&self) -> (r: u64)
        ensures
            r == self.count,
    {
        self.count
    }

    pub fn cap_type(&self) -> (r: CapType)
        ensures
            r == self.ty,
    {
        self.ty
    }
}

} // verus!
