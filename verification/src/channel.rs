//! The broadcast channel: a process-wide publish/subscribe registry.
//!
//! Producers hand a toast to the channel without knowing who listens. The
//! channel forwards it to the most recently registered viewer, or reports
//! a delivery failure when nobody is registered. Publishing never blocks
//! and never fails loudly: with no viewer the toast is dropped with a
//! signal, never queued for a later registrant.

use crate::seq_facts::lemma_filter_keeps_distinct;
use crate::seq_facts::lemma_filter_push;
use crate::toast::Toast;
use vstd::prelude::*;

verus! {

/// A request a producer submits to the channel.
#[derive(Clone, Debug, PartialEq)]
pub enum Request {
    Toast(Toast),
}

/// What the channel asks the registered viewer to do.
#[derive(Clone, Debug, PartialEq)]
pub enum ToastAction {
    ShowToast(Toast),
}

/// The outcome of one publication: handed to a viewer, or dropped with a
/// delivery-failure signal carrying the lost title.
#[derive(Clone, Debug, PartialEq)]
pub enum Delivery {
    Delivered { viewer: u64, action: ToastAction },
    Dropped { title: String },
}

/// The registry of viewer handles. Registering the same handle twice is a
/// no-op, as is deregistering an unknown handle; display duty goes to the
/// most recent registrant.
pub struct Toaster {
    viewers: Vec<u64>,
}

/// No handle is listed twice: the registry behaves as a set.
pub open spec fn distinct_handles(s: Seq<u64>) -> bool {
    forall|i: int, j: int| #![trigger s[i], s[j]] 0 <= i < j < s.len() ==> s[i] != s[j]
}

impl Toaster {
    /// The registered handles, oldest first.
    pub closed spec fn viewers_seq(self) -> Seq<u64> {
        self.viewers@
    }

    /// How many viewers are registered.
    pub open spec fn subscriber_count(self) -> nat {
        self.viewers_seq().len()
    }

    /// The registry's invariant between operations: each handle is listed
    /// at most once.
    pub open spec fn wf(self) -> bool {
        distinct_handles(self.viewers_seq())
    }

    /// A fresh channel with no registered viewer.
    pub fn new() -> (t: Toaster)
        ensures
            t.wf(),
            t.viewers_seq() == Seq::<u64>::empty(),
    {
        Toaster { viewers: Vec::new() }
    }

    /// Register a viewer handle; a handle already registered is left where
    /// it stands.
    pub fn connected(&mut self, id: u64)
        requires
            old(self).wf(),
        ensures
            final(self).wf(),
            final(self).viewers_seq() == if old(self).viewers_seq().contains(id) {
                old(self).viewers_seq()
            } else {
                old(self).viewers_seq().push(id)
            },
    {
        let mut i: usize = 0;
        while i < self.viewers.len()
            invariant
                *self == *old(self),
                old(self).wf(),
                i <= self.viewers@.len(),
                forall|k: int| 0 <= k < i ==> self.viewers@[k] != id,
            decreases self.viewers@.len() - i,
        {
            if self.viewers[i] == id {
                return ;
            }
            i += 1;
        }
        self.viewers.push(id);
    }

    /// Deregister a handle: every occurrence leaves the registry. Unknown
    /// or already-removed handles are a no-op, not an error.
    pub fn disconnected(&mut self, id: u64)
        requires
            old(self).wf(),
        ensures
            final(self).wf(),
            final(self).viewers_seq() == old(self).viewers_seq().filter(|v: u64| v != id),
    {
        let ghost orig = self.viewers@;
        let ghost p: spec_fn(u64) -> bool = |v: u64| v != id;
        let mut kept: Vec<u64> = Vec::new();
        let mut i: usize = 0;
        while i < self.viewers.len()
            invariant
                i <= self.viewers@.len(),
                self.viewers@ == orig,
                forall|v: u64| #[trigger] p(v) == (v != id),
                kept@ == orig.take(i as int).filter(p),
            decreases orig.len() - i,
        {
            let h = self.viewers[i];
            proof {
                lemma_filter_push(orig.take(i as int), orig[i as int], p);
                assert(orig.take(i as int + 1) =~= orig.take(i as int).push(orig[i as int]));
            }
            if h != id {
                kept.push(h);
            }
            i += 1;
        }
        proof {
            assert(orig.take(orig.len() as int) =~= orig);
        }
        self.viewers = kept;
        proof {
            lemma_filter_keeps_distinct(orig, p);
        }
    }

    /// Hand a toast to the most recently registered viewer, or report a
    /// delivery failure carrying the dropped title when nobody listens.
    pub fn show_toast(&self, toast: Toast) -> (d: Delivery)
        ensures
            self.viewers_seq().len() == 0 ==> d == (Delivery::Dropped { title: toast.title }),
            self.viewers_seq().len() > 0 ==> d == (Delivery::Delivered {
                viewer: self.viewers_seq().last(),
                action: ToastAction::ShowToast(toast),
            }),
    {
        if self.viewers.len() == 0 {
            Delivery::Dropped { title: toast.title }
        } else {
            let v = self.viewers[self.viewers.len() - 1];
            Delivery::Delivered { viewer: v, action: ToastAction::ShowToast(toast) }
        }
    }

    /// Process one producer request.
    pub fn handle_input(&self, msg: Request) -> (d: Delivery)
        ensures
            match msg {
                Request::Toast(t) => {
                    &&& self.viewers_seq().len() == 0 ==> d == (Delivery::Dropped {
                        title: t.title,
                    })
                    &&& self.viewers_seq().len() > 0 ==> d == (Delivery::Delivered {
                        viewer: self.viewers_seq().last(),
                        action: ToastAction::ShowToast(t),
                    })
                },
            },
    {
        match msg {
            Request::Toast(t) => self.show_toast(t),
        }
    }

    /// How many viewers are registered, as a run-time count.
    pub fn viewer_count(&self) -> (n: usize)
        ensures
            n == self.subscriber_count(),
    {
        self.viewers.len()
    }
}

} // verus!
