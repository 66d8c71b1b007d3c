//! Allocation of the endpoints of a tile.
use vstd::prelude::*;
use vstd::arithmetic::power2::pow2;

use crate::errors::Code;
use crate::tcu::{EP_REGS, FIRST_USER_EP, INVALID_EP, PMEM_PROT_EPS, REG_SIZE};

verus! {

/// Are the `count` endpoints from `start` on all within `eps` and unused?
pub open spec fn free_run(eps: Seq<bool>, start: int, count: int) -> bool {
    &&& 0 <= start
    &&& start + count <= eps.len()
    &&& forall|j: int| start <= j < start + count ==> !#[trigger] eps[j]
}

/// Are the `count` endpoints from `start` on all within `eps` and used?
pub open spec fn used_run(eps: Seq<bool>, start: int, count: int) -> bool {
    &&& 0 <= start
    &&& start + count <= eps.len()
    &&& forall|j: int| start <= j < start + count ==> #[trigger] eps[j]
}

/// The index of the first unused endpoint, or the number of endpoints if all are used.
pub open spec fn first_clear(eps: Seq<bool>) -> int
    decreases eps.len(),
{
    if eps.len() == 0 {
        0
    } else if !eps[0] {
        0
    } else {
        1 + first_clear(eps.skip(1))
    }
}

/// Where the search for free endpoints begins: the first unused endpoint, but never before the
/// first user endpoint.
pub open spec fn search_start(eps: Seq<bool>) -> int {
    let fc = first_clear(eps);
    if fc < FIRST_USER_EP as int {
        FIRST_USER_EP as int
    } else {
        fc
    }
}

/// Marks the endpoints `[start, start + count)` with `v`.
pub open spec fn mark(eps: Seq<bool>, start: int, count: int, v: bool) -> Seq<bool> {
    Seq::new(eps.len(), |j: int| if start <= j < start + count { v } else { eps[j] })
}

/// The index of the first clear bit of `bits`, or their number if all are set.
pub fn first_clear_bit(bits: &Vec<bool>) -> (r: usize)
    ensures
        r == first_clear(bits@),
        r <= bits@.len(),
        forall|j: int| 0 <= j < r ==> #[trigger] bits@[j],
        r < bits@.len() ==> !bits@[r as int],
{
    let mut i: usize = 0;
    assert(bits@.skip(0) =~= bits@);
    while i < bits.len()
        invariant
            i <= bits@.len(),
            forall|j: int| 0 <= j < i ==> #[trigger] bits@[j],
            first_clear(bits@) == i + first_clear(bits@.skip(i as int)),
        decreases bits@.len() - i,
    {
        if !bits[i] {
            proof {
                assert(bits@.skip(i as int)[0] == bits@[i as int]);
            }
            return i;
        }
        proof {
            let s = bits@.skip(i as int);
            assert(s[0] == bits@[i as int]);
            assert(s.skip(1) =~= bits@.skip(i + 1));
        }
        i += 1;
    }
    proof {
        assert(bits@.skip(i as int).len() == 0);
    }
    i
}

/// The endpoint usage of a tile: which of its endpoints are allocated.
pub struct EpAllocator {
    eps: Vec<bool>,
}

impl EpAllocator {
    /// The usage of each endpoint.
    pub closed spec fn used(&self) -> Seq<bool> {
        self.eps@
    }

    pub open spec fn wf(&self) -> bool {
        self.used().len() < INVALID_EP
    }

    /// The endpoints of a tile with `num` endpoints. Endpoint 0 is reserved for the
    /// multiplexer's memory and the endpoints between the protection endpoints and the first
    /// user endpoint for the multiplexer's communication.
    pub fn new(num: usize) -> (r: Self)
        requires
            FIRST_USER_EP <= num < INVALID_EP,
        ensures
            r.wf(),
            r.used().len() == num,
            forall|j: int|
                0 <= j < num ==> #[trigger] r.used()[j] == (j == 0 || (PMEM_PROT_EPS <= j
                    < FIRST_USER_EP)),
    {
        let mut eps: Vec<bool> = Vec::new();
        let mut i: usize = 0;
        while i < num
            invariant
                i <= num,
                eps@.len() == i,
                forall|j: int| 0 <= j < i ==> !#[trigger] eps@[j],
            decreases num - i,
        {
            eps.push(false);
            i += 1;
        }
        eps.set(0, true);
        let mut ep: usize = PMEM_PROT_EPS as usize;
        while ep < FIRST_USER_EP as usize
            invariant
                PMEM_PROT_EPS <= ep <= FIRST_USER_EP,
                FIRST_USER_EP <= num,
                eps@.len() == num,
                forall|j: int|
                    0 <= j < num ==> #[trigger] eps@[j] == (j == 0 || (PMEM_PROT_EPS <= j < ep)),
            decreases FIRST_USER_EP - ep,
        {
            eps.set(ep, true);
            ep += 1;
        }
        EpAllocator { eps }
    }

    /// The number of endpoints.
    pub fn size(&self) -> (r: usize)
        ensures
            r == self.used().len(),
    {
        self.eps.len()
    }

    /// Is endpoint `ep` allocated?
    pub fn is_set(&self, ep: usize) -> (r: bool)
        requires
            ep < self.used().len(),
        ensures
            r == self.used()[ep as int],
    {
        self.eps[ep]
    }

    /// The first unused endpoint, or the number of endpoints if all are used.
    pub fn first_clear(&self) -> (r: usize)
        ensures
            r == first_clear(self.used()),
            r <= self.used().len(),
            forall|j: int| 0 <= j < r ==> #[trigger] self.used()[j],
            r < self.used().len() ==> !self.used()[r as int],
    {
        first_clear_bit(&self.eps)
    }

    /// Searches `count` contiguous unused endpoints, beginning at the first unused endpoint but
    /// never before the first user endpoint, and returns the first one.
    ///
    /// Fails with `NoSpace` if there is no such range.
    pub fn find_eps(&self, count: usize) -> (r: Result<u16, Code>)
        requires
            self.wf(),
        ensures
            match r {
                Ok(s) => {
                    &&& s >= search_start(self.used())
                    &&& (count > 0 ==> free_run(self.used(), s as int, count as int))
                    &&& (count == 0 ==> s == search_start(self.used()))
                    &&& forall|t: int|
                        search_start(self.used()) <= t < s ==> !free_run(
                            self.used(),
                            t,
                            count as int,
                        )
                },
                Err(e) => {
                    &&& e == Code::NoSpace
                    &&& count > 0
                    &&& forall|t: int|
                        search_start(self.used()) <= t ==> !free_run(self.used(), t, count as int)
                },
            },
    {
        let fc = self.first_clear();
        let mut start: usize = if (FIRST_USER_EP as usize) < fc {
            fc
        } else {
            FIRST_USER_EP as usize
        };
        let ghost start0 = start as int;
        assert(start0 == search_start(self.used()));
        let size = self.eps.len();
        if count > size {
            assert forall|t: int| start0 <= t implies !free_run(self.eps@, t, count as int) by {
                assert(t + count > size);
            }
            return Err(Code::NoSpace);
        }
        assert(start < INVALID_EP);
        let mut bit = start;
        while bit < start + count && bit < size
            invariant
                size == self.eps@.len(),
                size < INVALID_EP,
                count < INVALID_EP,
                start0 <= start <= bit <= start + count,
                start < INVALID_EP,
                start0 == search_start(self.eps@),
                bit <= size || bit == start,
                count == 0 ==> start == start0,
                forall|j: int| start <= j < bit ==> !#[trigger] self.eps@[j],
                forall|t: int| start0 <= t < start ==> !free_run(self.eps@, t, count as int),
            decreases size - bit,
        {
            if self.eps[bit] {
                assert forall|t: int| start0 <= t < bit + 1 implies !free_run(
                    self.eps@,
                    t,
                    count as int,
                ) by {
                    if t >= start {
                        assert(t <= bit < t + count);
                    }
                }
                start = bit + 1;
            }
            bit += 1;
        }
        if bit != start + count {
            assert forall|t: int| start0 <= t implies !free_run(self.eps@, t, count as int) by {
                if t >= start {
                    assert(t + count > size);
                }
            }
            Err(Code::NoSpace)
        } else {
            proof {
                if count > 0 {
                    assert(bit <= size);
                    assert(free_run(self.eps@, start as int, count as int));
                }
            }
            Ok(start as u16)
        }
    }

    /// Are the `count` endpoints from `start` on all unused?
    pub fn eps_free(&self, start: u16, count: usize) -> (r: bool)
        requires
            start + count <= self.used().len(),
        ensures
            r == free_run(self.used(), start as int, count as int),
    {
        let n = self.eps.len();
        let mut ep: usize = start as usize;
        let end = start as usize + count;
        while ep < end
            invariant
                start <= ep <= end,
                end == start + count,
                end <= self.eps@.len(),
                forall|j: int| start <= j < ep ==> !#[trigger] self.eps@[j],
            decreases end - ep,
        {
            if self.eps[ep] {
                return false;
            }
            ep += 1;
        }
        true
    }

    /// Allocates the `count` endpoints from `start` on, which have to be unused.
    pub fn alloc_eps(&mut self, start: u16, count: usize)
        requires
            free_run(old(self).used(), start as int, count as int),
        ensures
            final(self).used() == mark(old(self).used(), start as int, count as int, true),
    {
        let n = self.eps.len();
        let mut ep: usize = start as usize;
        let end = start as usize + count;
        while ep < end
            invariant
                start <= ep <= end,
                end == start + count,
                self.eps@.len() == old(self).eps@.len(),
                end <= self.eps@.len(),
                forall|j: int|
                    0 <= j < self.eps@.len() ==> #[trigger] self.eps@[j] == if start <= j < ep {
                        true
                    } else {
                        old(self).eps@[j]
                    },
            decreases end - ep,
        {
            self.eps.set(ep, true);
            ep += 1;
        }
        assert(self.eps@ =~= mark(old(self).used(), start as int, count as int, true));
    }

    /// Frees the `count` endpoints from `start` on, which have to be allocated.
    pub fn free_eps(&mut self, start: u16, count: usize)
        requires
            used_run(old(self).used(), start as int, count as int),
        ensures
            final(self).used() == mark(old(self).used(), start as int, count as int, false),
    {
        let n = self.eps.len();
        let mut ep: usize = start as usize;
        let end = start as usize + count;
        while ep < end
            invariant
                start <= ep <= end,
                end == start + count,
                self.eps@.len() == old(self).eps@.len(),
                end <= self.eps@.len(),
                forall|j: int|
                    0 <= j < self.eps@.len() ==> #[trigger] self.eps@[j] == if start <= j < ep {
                        false
                    } else {
                        old(self).eps@[j]
                    },
            decreases end - ep,
        {
            self.eps.set(ep, false);
            ep += 1;
        }
        assert(self.eps@ =~= mark(old(self).used(), start as int, count as int, false));
    }
}

/// Law: freeing endpoints right after allocating them restores the endpoint usage.
pub proof fn lemma_alloc_free_eps(eps: Seq<bool>, start: int, count: int)
    requires
        free_run(eps, start, count),
    ensures
        used_run(mark(eps, start, count, true), start, count),
        mark(mark(eps, start, count, true), start, count, false) == eps,
{
    assert(mark(mark(eps, start, count, true), start, count, false) =~= eps);
}

/// Law: allocated endpoints are no longer free, and the others keep their usage.
pub proof fn lemma_alloc_eps_used(eps: Seq<bool>, start: int, count: int, other: int)
    requires
        free_run(eps, start, count),
        count > 0,
        0 <= other < eps.len(),
        !(start <= other < start + count),
    ensures
        !free_run(mark(eps, start, count, true), start, count),
        mark(eps, start, count, true)[other] == eps[other],
{
    assert(mark(eps, start, count, true)[start]);
}

/// The smallest `k` with `2^k >= x`.
pub open spec fn next_log2(x: nat) -> nat
    decreases x,
{
    if x <= 1 {
        0
    } else {
        1 + next_log2(((x + 1) / 2) as nat)
    }
}

/// The size of the endpoint registers of `count` endpoints, and the size of the memory
/// allocated for them: the register size rounded up to a power of two, so that the region can
/// be made exclusive.
///
/// Fails with `InvArgs` for fewer endpoints than the first user endpoint or more than endpoint
/// ids can address.
pub fn eps_region_size(count: usize) -> (r: Result<(usize, usize), Code>)
    ensures
        (count < FIRST_USER_EP || count >= INVALID_EP) <==> r == Err::<(usize, usize), Code>(
            Code::InvArgs,
        ),
        r matches Ok((reg, alloc)) ==> {
            &&& reg == count * (EP_REGS * REG_SIZE)
            &&& alloc >= reg
            &&& exists|k: nat| alloc == pow2(k)
            &&& alloc < 2 * reg
        },
{
    if count < FIRST_USER_EP as usize || count >= INVALID_EP as usize {
        return Err(Code::InvArgs);
    }
    let reg = count * (EP_REGS * REG_SIZE);
    let mut alloc: usize = 1;
    let ghost mut k: nat = 0;
    proof {
        vstd::arithmetic::power2::lemma2_to64();
    }
    while alloc < reg
        invariant
            alloc == pow2(k),
            1 <= alloc,
            reg < 0x20_0000,
            alloc < 2 * reg,
        decreases 2 * reg - alloc,
    {
        proof {
            vstd::arithmetic::power2::lemma_pow2_unfold(k + 1);
        }
        alloc = alloc * 2;
        proof {
            k = k + 1;
        }
    }
    Ok((reg, alloc))
}

} // verus!
