//! A fixed set of work lanes. Work is put on the lane that its key hashes
//! to, and each lane hands its work out in the order it came.

use std::collections::hash_map::DefaultHasher;
use std::collections::VecDeque;
use std::hash::Hasher;
use vstd::prelude::*;
use vstd::std_specs::hash::DefaultHasherAdditionalSpecFns;

verus! {

/// The lane, of `lanes` many, that `key` hashes to.
pub open spec fn lane_of(key: Seq<u8>, lanes: nat) -> nat {
    ((DefaultHasher::spec_finish(seq![key]) as usize) as nat) % lanes
}

/// The lane, of `lanes` many, that `key` hashes to.
pub fn lane_index(key: &[u8], lanes: usize) -> (idx: usize)
    requires
        lanes > 0,
    ensures
        idx == lane_of(key@, lanes as nat),
        idx < lanes,
{
    let mut h = DefaultHasher::new();
    h.write(key);
    assert(h@ =~= seq![key@]);
    let full: u64 = h.finish();
    (full as usize) % lanes
}

/// Lanes of pending work, each first in, first out.
pub struct StripedExecutor<W> {
    lanes: Vec<VecDeque<W>>,
}

impl<W> StripedExecutor<W> {
    /// The pending work of each lane, oldest first.
    pub closed spec fn pending(&self) -> Seq<Seq<W>> {
        self.lanes@.map_values(|q: VecDeque<W>| q@)
    }

    /// `stripes` lanes, all empty.
    pub fn new(stripes: usize) -> (e: Self)
        ensures
            e.pending().len() == stripes,
            forall|i: int| 0 <= i < stripes ==> (#[trigger] e.pending()[i]).len() == 0,
    {
        let mut lanes: Vec<VecDeque<W>> = Vec::new();
        let mut i: usize = 0;
        while i < stripes
            invariant
                i <= stripes,
                lanes@.len() == i,
                forall|k: int| 0 <= k < i ==> (#[trigger] lanes@[k])@.len() == 0,
            decreases stripes - i,
        {
            lanes.push(VecDeque::new());
            i += 1;
        }
        Self { lanes }
    }

    /// How many lanes there are.
    pub fn lane_count(&self) -> (n: usize)
        ensures
            n == self.pending().len(),
    {
        self.lanes.len()
    }

    /// Puts `work` at the end of the lane that `key` hashes to, and says
    /// which lane that is. The other lanes do not change.
    pub fn submit(&mut self, key: &[u8], work: W) -> (lane: usize)
        requires
            old(self).pending().len() > 0,
        ensures
            lane == lane_of(key@, old(self).pending().len()),
            final(self).pending() == old(self).pending().update(
                lane as int,
                old(self).pending()[lane as int].push(work),
            ),
    {
        let lane = lane_index(key, self.lanes.len());
        let ghost before = self.pending();
        let mut q: VecDeque<W> = VecDeque::new();
        std::mem::swap(&mut self.lanes[lane], &mut q);
        q.push_back(work);
        std::mem::swap(&mut self.lanes[lane], &mut q);
        assert(self.pending() =~= before.update(lane as int, before[lane as int].push(work)));
        lane
    }

    /// Takes the oldest pending work of `lane`, if the lane exists and has
    /// any. The other lanes do not change.
    pub fn take_next(&mut self, lane: usize) -> (w: Option<W>)
        ensures
            match w {
                Some(x) => {
                    &&& lane < old(self).pending().len()
                    &&& old(self).pending()[lane as int].len() > 0
                    &&& x == old(self).pending()[lane as int][0]
                    &&& final(self).pending() == old(self).pending().update(
                        lane as int,
                        old(self).pending()[lane as int].drop_first(),
                    )
                },
                None => {
                    &&& lane >= old(self).pending().len() || old(self).pending()[lane as int].len()
                        == 0
                    &&& final(self).pending() == old(self).pending()
                },
            },
    {
        if lane >= self.lanes.len() {
            return None;
        }
        let ghost before = self.pending();
        let mut q: VecDeque<W> = VecDeque::new();
        std::mem::swap(&mut self.lanes[lane], &mut q);
        let w = q.pop_front();
        std::mem::swap(&mut self.lanes[lane], &mut q);
        match w {
            Some(_) => {
                assert(self.pending() =~= before.update(
                    lane as int,
                    before[lane as int].drop_first(),
                ));
            },
            None => {
                assert(self.pending() =~= before);
            },
        }
        w
    }
}

/// Equal keys go to the same lane, whatever else was submitted.
pub proof fn lemma_same_key_same_lane(key1: Seq<u8>, key2: Seq<u8>, lanes: nat)
    requires
        key1 == key2,
        lanes > 0,
    ensures
        lane_of(key1, lanes) == lane_of(key2, lanes),
        lane_of(key1, lanes) < lanes,
{
    let h = (DefaultHasher::spec_finish(seq![key1]) as usize) as nat;
    assert(h % lanes < lanes) by (nonlinear_arith)
        requires
            lanes > 0,
    ;
}

/// A lane is first in, first out: of two works put on it one after the
/// other, the first stands before the second, and stays before it however
/// many works are taken from the front.
pub proof fn lemma_lane_is_fifo<W>(lane: Seq<W>, first: W, second: W, taken: int)
    requires
        0 <= taken <= lane.len(),
    ensures
        lane.push(first).push(second).skip(taken)[lane.len() - taken] == first,
        lane.push(first).push(second).skip(taken)[lane.len() - taken + 1] == second,
{
}

} // verus!
