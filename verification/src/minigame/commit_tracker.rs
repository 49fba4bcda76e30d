use std::collections::VecDeque;

use vstd::prelude::*;

use crate::scalar::is_default;

verus! {

/// Shared commit-rate-limit + quality-history shape used by minigames whose
/// player input is structured as discrete commits with a per-commit quality.
///
/// Capacity is a caller concern: each minigame sizes the history to its own
/// activation cap.
#[derive(Clone, Debug, PartialEq)]
pub struct CommitTracker<F> {
    /// True between a commit and the next legal commit window.
    pub in_lockout: bool,
    /// Quality of the most recent commit.
    pub last_quality: F,
    /// Ring buffer of recent commit qualities, newest at the front.
    pub history: VecDeque<F>,
}

/// History after recording `quality`: prepended, then truncated to its
/// newest `capacity` entries.
pub open spec fn pushed_history<F>(history: Seq<F>, quality: F, capacity: nat) -> Seq<F> {
    let h = seq![quality] + history;
    if h.len() > capacity {
        h.take(capacity as int)
    } else {
        h
    }
}

impl<F: Copy + Default> CommitTracker<F> {
    /// An empty tracker with a reserved history capacity.
    pub fn with_capacity(cap: usize) -> (t: Self)
        ensures
            !t.in_lockout,
            is_default(t.last_quality),
            t.history@ == Seq::<F>::empty(),
    {
        CommitTracker { in_lockout: false, last_quality: F::default(), history: VecDeque::with_capacity(cap) }
    }

    /// Record a commit: stores `quality` as the latest, prepends it to the
    /// history, and truncates the history to `capacity` entries.
    pub fn push(&mut self, quality: F, capacity: usize)
        ensures
            final(self).in_lockout == old(self).in_lockout,
            final(self).last_quality == quality,
            final(self).history@ == pushed_history(old(self).history@, quality, capacity as nat),
    {
        self.last_quality = quality;
        self.history.push_front(quality);
        let ghost h = self.history@;
        while self.history.len() > capacity
            invariant
                capacity < self.history@.len() ==> self.history@ == h.take(self.history@.len() as int),
                capacity >= self.history@.len() ==> self.history@ == (if h.len() > capacity { h.take(capacity as int) } else { h }),
                self.history@.len() <= h.len(),
                self.in_lockout == old(self).in_lockout,
                self.last_quality == quality,
                h == seq![quality] + old(self).history@,
            decreases self.history.len(),
        {
            self.history.pop_back();
        }
    }
}

impl<F: Copy + Default> Default for CommitTracker<F> {
    fn default() -> (t: Self)
        ensures
            !t.in_lockout,
            is_default(t.last_quality),
            t.history@ == Seq::<F>::empty(),
    {
        Self::with_capacity(0)
    }
}

/// Law: after a commit the history never holds more than its capacity,
/// whatever it held before; the committed quality is the newest entry
/// whenever the capacity is not 0, and the earlier entries follow it in
/// their order, the oldest dropped to make room.
pub proof fn lemma_push_keeps_capacity<F>(history: Seq<F>, quality: F, capacity: nat)
    ensures
        pushed_history(history, quality, capacity).len() <= capacity,
        capacity > 0 ==> pushed_history(history, quality, capacity)[0] == quality,
        capacity > 0 ==> pushed_history(history, quality, capacity).len()
            == if history.len() + 1 <= capacity { history.len() + 1 } else { capacity },
        forall|i: int| 0 <= i < history.len() && i + 1 < capacity
            ==> pushed_history(history, quality, capacity)[i + 1] == #[trigger] history[i],
{
}

} // verus!
