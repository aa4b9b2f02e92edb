//! The deadline scheduler: a bag of absolute expiry instants together with
//! at most one armed timer.
//!
//! The scheduler never holds more than one outstanding timer. Whenever the
//! bag of pending deadlines is non-empty, the single timer is armed for its
//! minimum; when the bag is empty, no timer is armed. Operations report the
//! instant a fresh timer must be armed for, so a host can drive the
//! scheduler with a real one-shot timer primitive.
//!
//! Instants are absolute times in milliseconds. Duplicates are allowed: the
//! bag carries one instant per expiring entry and does not deduplicate.

use vstd::multiset::Multiset;
use vstd::prelude::*;

verus! {

/// `t` is a least element of the bag `m` of pending deadlines.
pub open spec fn is_min_deadline(t: u64, m: Multiset<u64>) -> bool {
    &&& m.count(t) > 0
    &&& forall|x: u64| #[trigger] m.count(x) > 0 ==> t <= x
}

/// After a tick at `now`, exactly the deadlines still in the future remain:
/// every instant `<= now` is gone, every instant `> now` keeps its
/// multiplicity.
pub open spec fn due_drained(before: Multiset<u64>, after: Multiset<u64>, now: u64) -> bool {
    forall|x: u64|
        #[trigger] after.count(x) == if x > now {
            before.count(x)
        } else {
            0
        }
}

/// Owns the pending deadlines and the single optional timer slot.
pub struct Scheduler {
    /// Pending absolute expiry instants, in no particular order.
    pending: Vec<u64>,
    /// The instant the one outstanding timer is armed for, if any.
    armed: Option<u64>,
}

impl Scheduler {
    /// The bag of pending deadlines.
    pub closed spec fn pending_ms(self) -> Multiset<u64> {
        self.pending@.to_multiset()
    }

    /// The instant the single timer is armed for, or `None` when idle.
    pub closed spec fn armed_instant(self) -> Option<u64> {
        self.armed
    }

    /// How many timers are armed: the timer slot is optional, so this is
    /// zero or one by construction.
    pub open spec fn timer_count(self) -> nat {
        match self.armed_instant() {
            Some(_) => 1,
            None => 0,
        }
    }

    /// The scheduler's invariant between operations: a timer is armed
    /// exactly when deadlines are pending, and it is armed for their
    /// minimum.
    pub open spec fn wf(self) -> bool {
        &&& (self.pending_ms().len() == 0 <==> self.armed_instant() is None)
        &&& match self.armed_instant() {
            Some(a) => is_min_deadline(a, self.pending_ms()),
            None => true,
        }
    }

    /// A fresh scheduler: nothing pending, no timer armed.
    pub fn new() -> (s: Scheduler)
        ensures
            s.wf(),
            s.pending_ms() == Multiset::<u64>::empty(),
            s.armed_instant() is None,
    {
        let s = Scheduler { pending: Vec::new(), armed: None };
        proof {
            broadcast use vstd::seq_lib::group_to_multiset_ensures;
            broadcast use vstd::multiset::lemma_multiset_empty_len;

        }
        s
    }

    /// Register one more deadline. If no timer is armed, or the new
    /// deadline precedes the armed one, the timer is (re)armed for the new
    /// minimum; a timer armed for an earlier-or-equal instant is left
    /// untouched. Returns the instant a fresh timer must be armed for, or
    /// `None` when the outstanding timer stays as it is.
    pub fn schedule(&mut self, t: u64) -> (rearm: Option<u64>)
        requires
            old(self).wf(),
        ensures
            final(self).wf(),
            final(self).pending_ms() == old(self).pending_ms().insert(t),
            final(self).armed_instant() == (match old(self).armed_instant() {
                None => Some(t),
                Some(a) => if t < a {
                    Some(t)
                } else {
                    Some(a)
                },
            }),
            rearm == (match old(self).armed_instant() {
                None => Some(t),
                Some(a) => if t < a {
                    Some(t)
                } else {
                    None::<u64>
                },
            }),
    {
        self.pending.push(t);
        proof {
            broadcast use vstd::seq_lib::group_to_multiset_ensures;

        }
        match self.armed {
            None => {
                self.armed = Some(t);
                Some(t)
            },
            Some(a) => {
                if t < a {
                    self.armed = Some(t);
                    Some(t)
                } else {
                    None
                }
            },
        }
    }

    /// The timer fired (or the host polls) at `now`: clear the timer slot,
    /// drop every deadline that is now or past, and re-arm for the new
    /// minimum if any deadline remains. Returns the instant a fresh timer
    /// must be armed for, or `None` when the scheduler is idle again.
    pub fn on_tick(&mut self, now: u64) -> (rearm: Option<u64>)
        requires
            old(self).wf(),
        ensures
            final(self).wf(),
            due_drained(old(self).pending_ms(), final(self).pending_ms(), now),
            rearm == final(self).armed_instant(),
    {
        self.armed = None;
        let ghost before = self.pending_ms();
        loop
            invariant
                self.armed is None,
                forall|x: u64|
                    x > now ==> #[trigger] self.pending@.to_multiset().count(x) == before.count(
                        x,
                    ),
            ensures
                self.armed is None,
                forall|x: u64|
                    x > now ==> #[trigger] self.pending@.to_multiset().count(x) == before.count(
                        x,
                    ),
                forall|k: int| 0 <= k < self.pending@.len() ==> self.pending@[k] > now,
            decreases self.pending@.len(),
        {
            if self.pending.len() == 0 {
                break ;
            }
            let i = min_index(&self.pending);
            if self.pending[i] > now {
                break ;
            }
            let ghost prev = self.pending@;
            let ghost removed = self.pending@[i as int];
            self.pending.remove(i);
            proof {
                broadcast use vstd::seq_lib::group_to_multiset_ensures;

                assert(removed <= now);
                assert(self.pending@ == prev.remove(i as int));
                assert(prev.remove(i as int).to_multiset() == prev.to_multiset().remove(removed));
            }
        }
        let ghost drained = self.pending@;
        proof {
            broadcast use vstd::seq_lib::group_to_multiset_ensures;

            assert forall|x: u64| x <= now implies drained.to_multiset().count(x) == 0 by {
                if drained.to_multiset().count(x) > 0 {
                    assert(drained.contains(x));
                }
            }
        }
        let rearm: Option<u64>;
        if self.pending.len() > 0 {
            let i = min_index(&self.pending);
            let m = self.pending[i];
            self.armed = Some(m);
            rearm = Some(m);
            proof {
                broadcast use vstd::seq_lib::group_to_multiset_ensures;

                assert(drained.contains(m));
                assert forall|x: u64| drained.to_multiset().count(x) > 0 implies m <= x by {
                    assert(drained.contains(x));
                }
            }
        } else {
            rearm = None;
        }
        proof {
            broadcast use vstd::seq_lib::group_to_multiset_ensures;

            assert(self.pending@ == drained);
            assert(due_drained(before, self.pending_ms(), now));
        }
        rearm
    }

    /// Drop every pending deadline and disarm the timer: used on
    /// subscriber teardown so no stale callback can fire afterwards.
    pub fn cancel_all(&mut self)
        ensures
            final(self).wf(),
            final(self).pending_ms() == Multiset::<u64>::empty(),
            final(self).armed_instant() is None,
    {
        self.pending.clear();
        self.armed = None;
        proof {
            broadcast use vstd::seq_lib::group_to_multiset_ensures;
            broadcast use vstd::multiset::lemma_multiset_empty_len;

        }
    }

    /// The instant the single timer is armed for, or `None` when idle.
    pub fn armed_at(&self) -> (a: Option<u64>)
        ensures
            a == self.armed_instant(),
    {
        self.armed
    }

    /// How many deadlines are pending.
    pub fn pending_count(&self) -> (n: usize)
        ensures
            n == self.pending_ms().len(),
    {
        proof {
            broadcast use vstd::seq_lib::group_to_multiset_ensures;

        }
        self.pending.len()
    }
}

/// Law: at most one timer is armed at any observable point, in every
/// scheduler state whatsoever — the timer slot is a single `Option`, so no
/// sequence of `schedule`, `on_tick` or `cancel_all` calls can ever hold
/// two timers at once.
pub proof fn lemma_single_timer(s: Scheduler)
    ensures
        s.timer_count() <= 1,
{
}

/// Index of a least element of a non-empty vector of instants.
fn min_index(v: &Vec<u64>) -> (i: usize)
    requires
        v@.len() > 0,
    ensures
        i < v@.len(),
        forall|k: int| 0 <= k < v@.len() ==> v@[i as int] <= v@[k],
{
    let mut i: usize = 0;
    let mut j: usize = 1;
    while j < v.len()
        invariant
            j <= v@.len(),
            i < j,
            forall|k: int| 0 <= k < j ==> v@[i as int] <= v@[k],
        decreases v@.len() - j,
    {
        if v[j] < v[i] {
            i = j;
        }
        j += 1;
    }
    i
}

} // verus!
