//! The notification store: the subscriber-side state.
//!
//! The store owns the ordered collection of live entries. On a display
//! event it assigns the next identity, derives an absolute expiry from the
//! toast's lifetime, and registers that deadline with the scheduler. On a
//! tick it reaps every entry whose expiry is now or past; entries without
//! an expiry persist until an explicit close by identity. Closing an
//! unknown or already-reaped identity is a harmless no-op.

use crate::channel::Delivery;
use crate::channel::ToastAction;
use crate::channel::Toaster;
use crate::scheduler::due_drained;
use crate::scheduler::Scheduler;
use crate::seq_facts::lemma_filter_idempotent;
use crate::seq_facts::lemma_filter_push;
use crate::seq_facts::lemma_filter_subset;
use crate::toast::Toast;
use vstd::prelude::*;

verus! {

/// One live notification: its identity, the toast it displays, and the
/// absolute instant it expires at, if any.
#[derive(Clone, Debug, PartialEq)]
pub struct ToastEntry {
    pub id: usize,
    pub toast: Toast,
    pub timeout: Option<u64>,
}

/// The events the store responds to: a channel action to perform, a tick
/// from the scheduler, or an explicit close by identity.
#[derive(Clone, Debug, PartialEq)]
pub enum ToastViewerMsg {
    Perform(ToastAction),
    Cleanup,
    Close(usize),
}

/// Keeps entries whose identity differs from `id`.
pub open spec fn not_id(id: usize) -> spec_fn(ToastEntry) -> bool {
    |e: ToastEntry| e.id != id
}

/// Keeps entries that carry no expiry or whose expiry is still in the
/// future at `now`.
pub open spec fn unexpired(now: u64) -> spec_fn(ToastEntry) -> bool {
    |e: ToastEntry|
        match e.timeout {
            None => true,
            Some(t) => t > now,
        }
}

/// The store after closing `id`: every entry with that identity is gone.
pub open spec fn spec_close(s: Seq<ToastEntry>, id: usize) -> Seq<ToastEntry> {
    s.filter(not_id(id))
}

/// The store after reaping at `now`: exactly the entries with no expiry
/// or an expiry still in the future remain, in their original order.
pub open spec fn spec_reap(s: Seq<ToastEntry>, now: u64) -> Seq<ToastEntry> {
    s.filter(unexpired(now))
}

/// The absolute expiry derived once at insertion: `now` plus the lifetime,
/// or nothing for a toast that persists until closed.
pub open spec fn spec_expiry(timeout: Option<u64>, now: u64) -> Option<u64> {
    match timeout {
        Some(d) => Some((now + d) as u64),
        None => None,
    }
}

/// The lifetime fits: the derived expiry does not overflow the instant
/// type.
pub open spec fn expiry_fits(timeout: Option<u64>, now: u64) -> bool {
    match timeout {
        Some(d) => now + d <= u64::MAX,
        None => true,
    }
}

/// The entry a display event at `now` appends for `toast` under identity
/// `id`.
pub open spec fn display_entry(toast: Toast, id: usize, now: u64) -> ToastEntry {
    ToastEntry { id: id, toast: toast, timeout: spec_expiry(toast.timeout, now) }
}

/// How a display event changes the scheduler: a lifetime registers one
/// more deadline at its expiry, no lifetime leaves the scheduler alone.
pub open spec fn display_schedules(
    before: Scheduler,
    after: Scheduler,
    timeout: Option<u64>,
    now: u64,
) -> bool {
    match timeout {
        Some(d) => after.pending_ms() == before.pending_ms().insert((now + d) as u64),
        None => after == before,
    }
}

/// Identities strictly increase along the collection, so no two live
/// entries ever share one.
pub open spec fn ids_increasing(s: Seq<ToastEntry>) -> bool {
    forall|i: int, j: int|
        #![trigger s[i].id, s[j].id]
        0 <= i < j < s.len() ==> s[i].id < s[j].id
}

/// A component to view toast alerts: the live entries, the identity
/// counter, and the deadline scheduler that drives reaping.
pub struct ToastViewer {
    alerts: Vec<ToastEntry>,
    counter: usize,
    scheduler: Scheduler,
}

impl ToastViewer {
    /// The ordered collection of live entries.
    pub closed spec fn entries(self) -> Seq<ToastEntry> {
        self.alerts@
    }

    /// The next identity to assign.
    pub closed spec fn counter_val(self) -> usize {
        self.counter
    }

    /// The deadline scheduler the store drives.
    pub closed spec fn sched(self) -> Scheduler {
        self.scheduler
    }

    /// The store's invariant between operations: identities strictly
    /// increase and stay below the counter, the scheduler is well formed,
    /// and every live expiry is represented among the pending deadlines.
    pub open spec fn wf(self) -> bool {
        &&& ids_increasing(self.entries())
        &&& forall|i: int|
            0 <= i < self.entries().len() ==> #[trigger] self.entries()[i].id
                < self.counter_val()
        &&& self.sched().wf()
        &&& forall|i: int|
            0 <= i < self.entries().len() ==> match #[trigger] self.entries()[i].timeout {
                Some(t) => self.sched().pending_ms().count(t) > 0,
                None => true,
            }
    }

    /// A fresh store: no entries, identities start at zero, scheduler
    /// idle.
    pub fn new() -> (v: ToastViewer)
        ensures
            v.wf(),
            v.entries() == Seq::<ToastEntry>::empty(),
            v.counter_val() == 0,
            v.sched().pending_ms().len() == 0,
            v.sched().armed_instant() is None,
    {
        ToastViewer { alerts: Vec::new(), counter: 0, scheduler: Scheduler::new() }
    }

    /// Display a toast: assign the next identity, derive the expiry, store
    /// the entry, and register the deadline with the scheduler when there
    /// is one. Returns the identity so the rendering layer can later
    /// request an explicit close.
    pub fn add_toast(&mut self, toast: Toast, now: u64) -> (id: usize)
        requires
            old(self).wf(),
            old(self).counter_val() < usize::MAX,
            expiry_fits(toast.timeout, now),
        ensures
            final(self).wf(),
            id == old(self).counter_val(),
            final(self).counter_val() == old(self).counter_val() + 1,
            final(self).entries() == old(self).entries().push(display_entry(toast, id, now)),
            display_schedules(old(self).sched(), final(self).sched(), toast.timeout, now),
    {
        let id = self.counter;
        self.counter = self.counter + 1;
        let timeout_at: Option<u64> = match toast.timeout {
            Some(d) => Some(now + d),
            None => None,
        };
        self.alerts.push(ToastEntry { id, toast, timeout: timeout_at });
        if let Some(t) = timeout_at {
            self.scheduler.schedule(t);
        }
        id
    }

    /// Close by identity: remove the entry with identity `id` if present,
    /// and do nothing otherwise — a close racing an earlier reap of the
    /// same identity is expected and harmless. Reports whether anything
    /// changed.
    pub fn remove_toast(&mut self, id: usize) -> (changed: bool)
        requires
            old(self).wf(),
        ensures
            final(self).wf(),
            final(self).entries() == spec_close(old(self).entries(), id),
            final(self).counter_val() == old(self).counter_val(),
            final(self).sched() == old(self).sched(),
            changed == (final(self).entries().len() != old(self).entries().len()),
    {
        let ghost orig = self.alerts@;
        let ghost p = not_id(id);
        let ghost c0 = self.counter;
        let ghost s0 = self.scheduler;
        let before = self.alerts.len();
        let mut kept: Vec<ToastEntry> = Vec::new();
        proof {
            reveal(Seq::filter);
            assert(orig.skip(0) =~= orig);
            assert(kept@ =~= orig.take(0).filter(p));
        }
        while self.alerts.len() > 0
            invariant
                forall|v: ToastEntry| #[trigger] p(v) == (v.id != id),
                self.counter == c0,
                self.scheduler == s0,
                self.alerts@.len() <= orig.len(),
                self.alerts@ == orig.skip(orig.len() - self.alerts@.len()),
                kept@ == orig.take(orig.len() - self.alerts@.len()).filter(p),
            decreases self.alerts@.len(),
        {
            let ghost k: int = orig.len() - self.alerts@.len();
            let e = self.alerts.remove(0);
            proof {
                assert(e == orig[k]);
                assert(self.alerts@ =~= orig.skip(k + 1));
                lemma_filter_push(orig.take(k), orig[k], p);
                assert(orig.take(k + 1) =~= orig.take(k).push(orig[k]));
            }
            if e.id != id {
                kept.push(e);
            }
        }
        proof {
            assert(orig.take(orig.len() as int) =~= orig);
        }
        self.alerts = kept;
        proof {
            self.lemma_retain_wf(orig, p, *old(self));
        }
        before != self.alerts.len()
    }

    /// Reap at `now`: deliver the tick to the scheduler, then remove every
    /// entry whose expiry is now or past; entries without an expiry are
    /// never removed here. Reports whether anything changed.
    pub fn cleanup(&mut self, now: u64) -> (changed: bool)
        requires
            old(self).wf(),
        ensures
            final(self).wf(),
            final(self).entries() == spec_reap(old(self).entries(), now),
            final(self).counter_val() == old(self).counter_val(),
            due_drained(old(self).sched().pending_ms(), final(self).sched().pending_ms(), now),
            changed == (final(self).entries().len() != old(self).entries().len()),
    {
        self.scheduler.on_tick(now);
        let ghost orig = self.alerts@;
        let ghost p = unexpired(now);
        let ghost c0 = self.counter;
        let ghost s0 = self.scheduler;
        let before = self.alerts.len();
        let mut kept: Vec<ToastEntry> = Vec::new();
        proof {
            reveal(Seq::filter);
            assert(orig.skip(0) =~= orig);
            assert(kept@ =~= orig.take(0).filter(p));
        }
        while self.alerts.len() > 0
            invariant
                forall|v: ToastEntry| #[trigger] p(v) == (match v.timeout {
                    None => true,
                    Some(t) => t > now,
                }),
                self.counter == c0,
                self.scheduler == s0,
                self.alerts@.len() <= orig.len(),
                self.alerts@ == orig.skip(orig.len() - self.alerts@.len()),
                kept@ == orig.take(orig.len() - self.alerts@.len()).filter(p),
            decreases self.alerts@.len(),
        {
            let ghost k: int = orig.len() - self.alerts@.len();
            let e = self.alerts.remove(0);
            proof {
                assert(e == orig[k]);
                assert(self.alerts@ =~= orig.skip(k + 1));
                lemma_filter_push(orig.take(k), orig[k], p);
                assert(orig.take(k + 1) =~= orig.take(k).push(orig[k]));
            }
            let keep = match e.timeout {
                None => true,
                Some(t) => t > now,
            };
            if keep {
                kept.push(e);
            }
        }
        proof {
            assert(orig.take(orig.len() as int) =~= orig);
        }
        self.alerts = kept;
        proof {
            lemma_filter_keeps_increasing(orig, p);
            lemma_filter_subset(orig, p);
            lemma_filter_ids_bounded(orig, p, self.counter);
            assert forall|i: int| 0 <= i < self.entries().len() implies (match #[trigger] self.entries()[i].timeout {
                Some(t) => self.sched().pending_ms().count(t) > 0,
                None => true,
            }) by {
                let x = self.entries()[i];
                assert(self.entries().contains(x));
                assert(orig.contains(x));
                let j = choose|j: int| 0 <= j < orig.len() && orig[j] == x;
                assert(old(self).entries()[j] == x);
                match x.timeout {
                    Some(t) => {
                        assert(old(self).sched().pending_ms().count(t) > 0);
                        assert(p(x));
                        assert(t > now);
                    },
                    None => {},
                }
            }
        }
        before != self.alerts.len()
    }

    /// Perform a channel action: displaying the toast it carries. Always
    /// asks for a re-render.
    pub fn perform(&mut self, action: ToastAction, now: u64) -> (render: bool)
        requires
            old(self).wf(),
            old(self).counter_val() < usize::MAX,
            (match action {
                ToastAction::ShowToast(t) => expiry_fits(t.timeout, now),
            }),
        ensures
            final(self).wf(),
            render,
            match action {
                ToastAction::ShowToast(t) => {
                    &&& final(self).entries() == old(self).entries().push(
                        display_entry(t, old(self).counter_val(), now),
                    )
                    &&& final(self).counter_val() == old(self).counter_val() + 1
                    &&& display_schedules(old(self).sched(), final(self).sched(), t.timeout, now)
                },
            },
    {
        match action {
            ToastAction::ShowToast(toast) => {
                self.add_toast(toast, now);
            },
        }
        true
    }

    /// Process one event at `now`: the store's step function from state
    /// and event to next state and a re-render flag.
    pub fn update(&mut self, msg: ToastViewerMsg, now: u64) -> (render: bool)
        requires
            old(self).wf(),
            (match msg {
                ToastViewerMsg::Perform(ToastAction::ShowToast(t)) => old(self).counter_val()
                    < usize::MAX && expiry_fits(t.timeout, now),
                _ => true,
            }),
        ensures
            final(self).wf(),
            match msg {
                ToastViewerMsg::Perform(ToastAction::ShowToast(t)) => {
                    &&& final(self).entries() == old(self).entries().push(
                        display_entry(t, old(self).counter_val(), now),
                    )
                    &&& final(self).counter_val() == old(self).counter_val() + 1
                    &&& display_schedules(old(self).sched(), final(self).sched(), t.timeout, now)
                    &&& render
                },
                ToastViewerMsg::Cleanup => {
                    &&& final(self).entries() == spec_reap(old(self).entries(), now)
                    &&& final(self).counter_val() == old(self).counter_val()
                    &&& due_drained(
                        old(self).sched().pending_ms(),
                        final(self).sched().pending_ms(),
                        now,
                    )
                    &&& render == (final(self).entries().len() != old(self).entries().len())
                },
                ToastViewerMsg::Close(id) => {
                    &&& final(self).entries() == spec_close(old(self).entries(), id)
                    &&& final(self).counter_val() == old(self).counter_val()
                    &&& final(self).sched() == old(self).sched()
                    &&& render == (final(self).entries().len() != old(self).entries().len())
                },
            },
    {
        match msg {
            ToastViewerMsg::Perform(action) => self.perform(action, now),
            ToastViewerMsg::Cleanup => self.cleanup(now),
            ToastViewerMsg::Close(id) => self.remove_toast(id),
        }
    }

    /// How many entries are live.
    pub fn entry_count(&self) -> (n: usize)
        ensures
            n == self.entries().len(),
    {
        self.alerts.len()
    }

    /// The live entry at position `i`.
    pub fn get_entry(&self, i: usize) -> (e: &ToastEntry)
        requires
            i < self.entries().len(),
        ensures
            *e == self.entries()[i as int],
    {
        &self.alerts[i]
    }

    /// The identity the next displayed toast will receive.
    pub fn next_id(&self) -> (n: usize)
        ensures
            n == self.counter_val(),
    {
        self.counter
    }

    /// The instant the scheduler's single timer is armed for, or `None`
    /// when idle: the host re-arms its real one-shot timer from this.
    pub fn armed_at(&self) -> (a: Option<u64>)
        ensures
            a == self.sched().armed_instant(),
    {
        self.scheduler.armed_at()
    }

    /// How many deadlines the scheduler still holds.
    pub fn pending_deadlines(&self) -> (n: usize)
        ensures
            n == self.sched().pending_ms().len(),
    {
        self.scheduler.pending_count()
    }

    /// Restores the invariant after a retain pass that touched only the
    /// entry collection.
    proof fn lemma_retain_wf(self, orig: Seq<ToastEntry>, p: spec_fn(ToastEntry) -> bool, prev: Self)
        requires
            prev.wf(),
            orig == prev.entries(),
            self.entries() == orig.filter(p),
            self.counter_val() == prev.counter_val(),
            self.sched() == prev.sched(),
        ensures
            self.wf(),
    {
        lemma_filter_keeps_increasing(orig, p);
        lemma_filter_subset(orig, p);
        lemma_filter_ids_bounded(orig, p, prev.counter_val());
        assert forall|i: int| 0 <= i < self.entries().len() implies (match #[trigger] self.entries()[i].timeout {
            Some(t) => self.sched().pending_ms().count(t) > 0,
            None => true,
        }) by {
            let x = self.entries()[i];
            assert(self.entries().contains(x));
            assert(orig.contains(x));
            let j = choose|j: int| 0 <= j < orig.len() && orig[j] == x;
            assert(prev.entries()[j] == x);
        }
    }
}

/// A publication's outcome: displayed under a fresh identity, or dropped
/// with the lost title.
#[derive(Clone, Debug, PartialEq)]
pub enum PublishOutcome {
    Displayed { id: usize },
    Dropped { title: String },
}

/// Publish a toast through the channel into the store: with a registered
/// viewer the store displays it and the fresh identity is returned; with
/// none the toast is dropped with a delivery-failure signal and the store
/// is left exactly as it was — a dropped toast is never queued for a
/// viewer registered later.
pub fn publish(toaster: &Toaster, viewer: &mut ToastViewer, toast: Toast, now: u64) -> (out:
    PublishOutcome)
    requires
        old(viewer).wf(),
        toaster.subscriber_count() > 0 ==> old(viewer).counter_val() < usize::MAX,
        toaster.subscriber_count() > 0 ==> expiry_fits(toast.timeout, now),
    ensures
        final(viewer).wf(),
        toaster.subscriber_count() == 0 ==> *final(viewer) == *old(viewer) && out == (
        PublishOutcome::Dropped { title: toast.title }),
        toaster.subscriber_count() > 0 ==> {
            &&& final(viewer).entries() == old(viewer).entries().push(
                display_entry(toast, old(viewer).counter_val(), now),
            )
            &&& final(viewer).counter_val() == old(viewer).counter_val() + 1
            &&& display_schedules(old(viewer).sched(), final(viewer).sched(), toast.timeout, now)
            &&& out == (PublishOutcome::Displayed { id: old(viewer).counter_val() })
        },
{
    let d = toaster.show_toast(toast);
    match d {
        Delivery::Dropped { title } => PublishOutcome::Dropped { title },
        Delivery::Delivered { viewer: _handle, action } => {
            match action {
                ToastAction::ShowToast(t) => {
                    let id = viewer.add_toast(t, now);
                    PublishOutcome::Displayed { id }
                },
            }
        },
    }
}

/// Law: closing an identity twice in a row leaves the store exactly as
/// closing it once does.
pub proof fn lemma_close_idempotent(s: Seq<ToastEntry>, id: usize)
    ensures
        spec_close(spec_close(s, id), id) == spec_close(s, id),
{
    lemma_filter_idempotent(s, not_id(id));
}

/// Law: no premature reap. An entry whose expiry lies strictly in the
/// future survives a reap.
pub proof fn lemma_no_premature_reap(s: Seq<ToastEntry>, e: ToastEntry, deadline: u64, now: u64)
    requires
        s.contains(e),
        e.timeout == Some(deadline),
        now < deadline,
    ensures
        spec_reap(s, now).contains(e),
{
    let j = choose|j: int| 0 <= j < s.len() && s[j] == e;
    assert(unexpired(now)(s[j]));
    assert(s.filter(unexpired(now)).contains(s[j]));
}

/// Law: eventual reap. A reap at or after an entry's expiry leaves that
/// entry absent from the store.
pub proof fn lemma_eventual_reap(s: Seq<ToastEntry>, e: ToastEntry, deadline: u64, now: u64)
    requires
        e.timeout == Some(deadline),
        now >= deadline,
    ensures
        !spec_reap(s, now).contains(e),
{
    if spec_reap(s, now).contains(e) {
        let j = choose|j: int| 0 <= j < spec_reap(s, now).len() && spec_reap(s, now)[j] == e;
        assert(unexpired(now)(spec_reap(s, now)[j]));
    }
}

/// Law: a live deadline keeps the timer armed. Whenever any entry in a
/// well-formed store carries an expiry, the scheduler holds an armed
/// timer, so the tick that lets the store reap the entry is on its way.
pub proof fn lemma_deadline_implies_timer(v: ToastViewer, i: int)
    requires
        v.wf(),
        0 <= i < v.entries().len(),
        v.entries()[i].timeout is Some,
    ensures
        v.sched().armed_instant() is Some,
{
    match v.entries()[i].timeout {
        Some(t) => {
            assert(v.sched().pending_ms().count(t) > 0);
            assert(v.sched().pending_ms().count(t) <= v.sched().pending_ms().len());
        },
        None => {},
    }
}

/// Survivors of a filter keep their identities below any bound the
/// original collection respected.
proof fn lemma_filter_ids_bounded(
    orig: Seq<ToastEntry>,
    p: spec_fn(ToastEntry) -> bool,
    bound: usize,
)
    requires
        forall|i: int| 0 <= i < orig.len() ==> #[trigger] orig[i].id < bound,
    ensures
        forall|i: int|
            0 <= i < orig.filter(p).len() ==> #[trigger] orig.filter(p)[i].id < bound,
{
    lemma_filter_subset(orig, p);
    assert forall|i: int|
        0 <= i < orig.filter(p).len() implies #[trigger] orig.filter(p)[i].id < bound by {
        let x = orig.filter(p)[i];
        assert(orig.filter(p).contains(x));
        assert(orig.contains(x));
        let j = choose|j: int| 0 <= j < orig.len() && orig[j] == x;
        assert(orig[j].id < bound);
    }
}

/// Filtering keeps the strict increase of identities: the survivors stand
/// in their original order.
proof fn lemma_filter_keeps_increasing(s: Seq<ToastEntry>, p: spec_fn(ToastEntry) -> bool)
    requires
        ids_increasing(s),
    ensures
        ids_increasing(s.filter(p)),
    decreases s.len(),
{
    reveal(Seq::filter);
    if s.len() == 0 {
    } else {
        let d = s.drop_last();
        assert(ids_increasing(d));
        lemma_filter_keeps_increasing(d, p);
        lemma_filter_subset(d, p);
        lemma_filter_push(d, s.last(), p);
        assert(d.push(s.last()) =~= s);
        if p(s.last()) {
            let f = d.filter(p).push(s.last());
            assert forall|i: int, j: int|
                #![trigger f[i].id, f[j].id]
                0 <= i < j < f.len() implies f[i].id < f[j].id by {
                if j < f.len() - 1 {
                    assert(d.filter(p)[i].id < d.filter(p)[j].id);
                } else {
                    let x = d.filter(p)[i];
                    assert(d.filter(p).contains(x));
                    assert(d.contains(x));
                    let k = choose|k: int| 0 <= k < d.len() && d[k] == x;
                    assert(s[k] == x);
                    assert(s[k].id < s[s.len() - 1].id);
                }
            }
        }
    }
}

} // verus!
