//! The toast value type: an immutable request to display a transient
//! message, optionally self-expiring.

use vstd::prelude::*;

verus! {

/// Severity / category of a toast. Opaque to the core: nothing here reads
/// it, it is carried through to the rendering collaborator.
#[derive(Clone, Copy, Debug, PartialEq, Eq, Structural)]
pub enum ToastKind {
    Default,
    Info,
    Success,
    Warning,
    Danger,
}

impl Default for ToastKind {
    fn default() -> (r: Self)
        ensures
            r == ToastKind::Default,
    {
        ToastKind::Default
    }
}

/// Definition of a toast.
///
/// `timeout` is an optional lifetime in milliseconds; `None` means the
/// toast persists until explicitly closed. `body` and `actions` are opaque
/// payloads passed through untouched.
#[derive(Clone, Debug, PartialEq)]
pub struct Toast {
    pub title: String,
    pub kind: ToastKind,
    pub timeout: Option<u64>,
    pub body: String,
    pub actions: Vec<String>,
}

impl Toast {
    /// A title-only toast: no lifetime, no body, no actions.
    pub fn new(title: String) -> (t: Toast)
        ensures
            t.title == title,
            t.kind == ToastKind::Default,
            t.timeout is None,
            t.body@ == Seq::<char>::empty(),
            t.actions@ == Seq::<String>::empty(),
    {
        Toast {
            title,
            kind: ToastKind::Default,
            timeout: None,
            body: String::new(),
            actions: Vec::new(),
        }
    }
}

} // verus!
