//! The committees of the remote chain, each authoritative from its height on.
use vstd::prelude::*;
use crate::error::BridgeError;

verus! {

/// Every height is below each later one.
pub open spec fn strictly_increasing(hs: Seq<u128>) -> bool {
    forall|i: int, j: int| 0 <= i < j < hs.len() ==> hs[i] < hs[j]
}

/// The last position whose height is at most `h`, or -1 where there is none.
/// On strictly increasing heights this is the greatest height not above `h`.
pub open spec fn floor_pos(hs: Seq<u128>, h: u128) -> int
    decreases hs.len(),
{
    if hs.len() == 0 {
        -1
    } else if hs.last() <= h {
        hs.len() - 1
    } else {
        floor_pos(hs.drop_last(), h)
    }
}

/// Committees keyed by the height from which each is authoritative.
pub struct CommitteeRegistry {
    heights: Vec<u128>,
    committees: Vec<Vec<String>>,
}

impl CommitteeRegistry {
    /// The heights at which committees took over, oldest first.
    pub closed spec fn heights(&self) -> Seq<u128> {
        self.heights@
    }

    /// The members of each committee, in the order of `heights`.
    pub closed spec fn committees(&self) -> Seq<Seq<String>> {
        self.committees@.map_values(|c: Vec<String>| c@)
    }

    /// At least one committee; strictly increasing heights; no empty committee.
    pub open spec fn wf(&self) -> bool {
        &&& self.heights().len() > 0
        &&& self.heights().len() == self.committees().len()
        &&& strictly_increasing(self.heights())
        &&& forall|i: int| 0 <= i < self.committees().len() ==> #[trigger] self.committees()[i].len() > 0
    }

    /// The committee authoritative at height `h`: the one with the greatest
    /// height not above `h`.
    pub open spec fn active(&self, h: u128) -> Option<Seq<String>> {
        let p = floor_pos(self.heights(), h);
        if p < 0 {
            None
        } else {
            Some(self.committees()[p])
        }
    }

    /// A registry whose only committee is `members`, from `height` on.
    pub fn new(height: u128, members: Vec<String>) -> (r: Result<CommitteeRegistry, BridgeError>)
        ensures
            members@.len() == 0 ==> r == Err::<CommitteeRegistry, BridgeError>(BridgeError::InvalidCommittee),
            members@.len() > 0 ==> (r matches Ok(reg) && reg.wf() && reg.heights() == seq![height]
                && reg.committees() == seq![members@]),
    {
        if members.len() == 0 {
            return Err(BridgeError::InvalidCommittee);
        }
        let ghost m = members@;
        let mut heights: Vec<u128> = Vec::new();
        heights.push(height);
        let mut committees: Vec<Vec<String>> = Vec::new();
        committees.push(members);
        let reg = CommitteeRegistry { heights, committees };
        assert(reg.committees() =~= seq![m]);
        Ok(reg)
    }

    /// Makes `members` authoritative from `height` on. Committees only move
    /// forward: an empty committee, or a height not above the newest one, is
    /// refused and the registry is left as it was.
    pub fn insert(&mut self, height: u128, members: Vec<String>) -> (r: Result<(), BridgeError>)
        requires
            old(self).wf(),
        ensures
            final(self).wf(),
            (members@.len() == 0 || height <= old(self).heights().last()) ==> (r == Err::<(), BridgeError>(
                BridgeError::InvalidCommittee) && *final(self) == *old(self)),
            (members@.len() > 0 && height > old(self).heights().last()) ==> (r == Ok::<(), BridgeError>(())
                && final(self).heights() == old(self).heights().push(height)
                && final(self).committees() == old(self).committees().push(members@)),
    {
        let last = self.heights[self.heights.len() - 1];
        if members.len() == 0 || height <= last {
            return Err(BridgeError::InvalidCommittee);
        }
        let ghost m = members@;
        let ghost old_c = self.committees();
        self.heights.push(height);
        self.committees.push(members);
        assert(self.committees() =~= old_c.push(m));
        Ok(())
    }

    /// The members of the committee authoritative at `height`.
    pub fn active_at(&self, height: u128) -> (r: Result<Vec<String>, BridgeError>)
        requires
            self.wf(),
        ensures
            match self.active(height) {
                None => r == Err::<Vec<String>, BridgeError>(BridgeError::NoCommitteeFound),
                Some(c) => r matches Ok(v) && v@ == c,
            },
    {
        let mut k: usize = self.heights.len();
        assert(self.heights().subrange(0, k as int) == self.heights());
        while k > 0
            invariant
                k <= self.heights@.len(),
                self.wf(),
                floor_pos(self.heights(), height) == floor_pos(self.heights().subrange(0, k as int), height),
            decreases k,
        {
            let ghost s = self.heights().subrange(0, k as int);
            if self.heights[k - 1] <= height {
                return Ok(clone_members(&self.committees[k - 1]));
            }
            assert(s.drop_last() == self.heights().subrange(0, k - 1));
            k = k - 1;
        }
        Err(BridgeError::NoCommitteeFound)
    }

    /// Every committee is authoritative from its own height up to, not
    /// including, the next committee's height; below the first height none is.
    pub proof fn lemma_active_window(&self, i: int, h: u128)
        requires
            self.wf(),
            0 <= i < self.heights().len(),
            self.heights()[i] <= h,
            i + 1 < self.heights().len() ==> h < self.heights()[i + 1],
        ensures
            self.active(h) == Some(self.committees()[i]),
    {
        lemma_floor_at(self.heights(), i, h);
    }

    /// Below the first committee's height no committee is authoritative.
    pub proof fn lemma_below_first(&self, h: u128)
        requires
            self.wf(),
            h < self.heights()[0],
        ensures
            self.active(h) is None,
    {
        lemma_floor_below(self.heights(), h);
    }
}

proof fn lemma_floor_at(hs: Seq<u128>, i: int, h: u128)
    requires
        strictly_increasing(hs),
        0 <= i < hs.len(),
        hs[i] <= h,
        i + 1 < hs.len() ==> h < hs[i + 1],
    ensures
        floor_pos(hs, h) == i,
    decreases hs.len(),
{
    if i < hs.len() - 1 {
        assert(hs.last() > h);
        lemma_floor_at(hs.drop_last(), i, h);
    }
}

proof fn lemma_floor_below(hs: Seq<u128>, h: u128)
    requires
        strictly_increasing(hs),
        hs.len() > 0,
        h < hs[0],
    ensures
        floor_pos(hs, h) == -1,
    decreases hs.len(),
{
    assert(hs.last() > h);
    if hs.len() > 1 {
        lemma_floor_below(hs.drop_last(), h);
    } else {
        assert(hs.drop_last().len() == 0);
        assert(floor_pos(hs.drop_last(), h) == -1);
    }
    assert(floor_pos(hs, h) == floor_pos(hs.drop_last(), h));
}

/// A copy of a list of members.
fn clone_members(v: &Vec<String>) -> (r: Vec<String>)
    ensures
        r@ == v@,
{
    let mut r: Vec<String> = Vec::new();
    let mut i: usize = 0;
    while i < v.len()
        invariant
            i <= v@.len(),
            r@ == v@.subrange(0, i as int),
        decreases v@.len() - i,
    {
        r.push(v[i].clone());
        i = i + 1;
    }
    assert(v@.subrange(0, v@.len() as int) == v@);
    r
}

} // verus!
