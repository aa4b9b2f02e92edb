//! Responsive modifiers: a value paired with the breakpoint it applies
//! from, and lists of such pairs.

use std::fmt::Debug;
use vstd::prelude::*;
use vstd::string::StringExecFns;

verus! {

/// A responsive breakpoint: the page width class a modifier starts to
/// apply at.
#[derive(Copy, Clone, Debug, PartialEq, Eq, Structural)]
pub enum Breakpoint {
    All,
    Small,
    Medium,
    Large,
    XLarge,
    XXLarge,
}

impl Breakpoint {
    /// The class-name suffix this breakpoint contributes.
    pub open spec fn spec_suffix(self) -> Seq<char> {
        match self {
            Breakpoint::All => ""@,
            Breakpoint::Small => "-on-sm"@,
            Breakpoint::Medium => "-on-md"@,
            Breakpoint::Large => "-on-lg"@,
            Breakpoint::XLarge => "-on-xl"@,
            Breakpoint::XXLarge => "-on-2xl"@,
        }
    }

    /// The class-name suffix, as an owned string.
    pub fn to_string(&self) -> (s: String)
        ensures
            s@ == self.spec_suffix(),
    {
        match self {
            Breakpoint::All => String::from_str(""),
            Breakpoint::Small => String::from_str("-on-sm"),
            Breakpoint::Medium => String::from_str("-on-md"),
            Breakpoint::Large => String::from_str("-on-lg"),
            Breakpoint::XLarge => String::from_str("-on-xl"),
            Breakpoint::XXLarge => String::from_str("-on-2xl"),
        }
    }
}

/// A modifier together with the breakpoint it applies from.
#[derive(Clone, Debug, PartialEq)]
pub struct WithBreakpoint<T: Clone + Debug + PartialEq> {
    pub modifier: T,
    pub on: Breakpoint,
}

impl<T: Clone + Debug + PartialEq> WithBreakpoint<T> {
    /// Apply `f` to the modifier, keeping the breakpoint.
    pub fn map<R: Clone + Debug + PartialEq, F: Fn(&T) -> R>(&self, f: F) -> (r: WithBreakpoint<
        R,
    >)
        requires
            call_requires(f, (&self.modifier,)),
        ensures
            r.on == self.on,
            call_ensures(f, (&self.modifier,), r.modifier),
    {
        WithBreakpoint { on: self.on, modifier: f(&self.modifier) }
    }
}

/// A list of modifiers, each with its breakpoint.
#[derive(Clone, Debug, PartialEq)]
pub struct WithBreakpoints<T: Clone + Debug + PartialEq>(Vec<WithBreakpoint<T>>);

impl<T: Clone + Debug + PartialEq> WithBreakpoints<T> {
    /// The listed pairs, in order.
    pub closed spec fn items(self) -> Seq<WithBreakpoint<T>> {
        self.0@
    }

    /// Wrap a list of pairs.
    pub fn new(items: Vec<WithBreakpoint<T>>) -> (r: Self)
        ensures
            r.items() == items@,
    {
        WithBreakpoints(items)
    }

    /// How many pairs are listed.
    pub fn len(&self) -> (n: usize)
        ensures
            n == self.items().len(),
    {
        self.0.len()
    }

    /// The pair at position `i`.
    pub fn get(&self, i: usize) -> (r: &WithBreakpoint<T>)
        requires
            i < self.items().len(),
        ensures
            *r == self.items()[i as int],
    {
        &self.0[i]
    }

    /// Apply `f` to every modifier, keeping each breakpoint and the
    /// order.
    pub fn mapped<R: Clone + Debug + PartialEq, F: Fn(&T) -> R>(&self, f: F) -> (r: WithBreakpoints<
        R,
    >)
        requires
            forall|k: int|
                0 <= k < self.items().len() ==> call_requires(f, (&self.items()[k].modifier,)),
        ensures
            r.items().len() == self.items().len(),
            forall|k: int|
                0 <= k < self.items().len() ==> (#[trigger] r.items()[k]).on
                    == self.items()[k].on,
            forall|k: int|
                0 <= k < self.items().len() ==> call_ensures(
                    f,
                    (&self.items()[k].modifier,),
                    (#[trigger] r.items()[k]).modifier,
                ),
    {
        let mut out: Vec<WithBreakpoint<R>> = Vec::new();
        let mut i: usize = 0;
        while i < self.0.len()
            invariant
                i <= self.0@.len(),
                out@.len() == i,
                forall|k: int|
                    0 <= k < self.0@.len() ==> call_requires(f, (&self.0@[k].modifier,)),
                forall|k: int| 0 <= k < i ==> (#[trigger] out@[k]).on == self.0@[k].on,
                forall|k: int|
                    0 <= k < i ==> call_ensures(
                        f,
                        (&self.0@[k].modifier,),
                        (#[trigger] out@[k]).modifier,
                    ),
            decreases self.0@.len() - i,
        {
            let item = &self.0[i];
            let m = f(&item.modifier);
            proof {
                assert(call_ensures(f, (&self.0@[i as int].modifier,), m));
            }
            out.push(WithBreakpoint { on: item.on, modifier: m });
            i += 1;
        }
        WithBreakpoints(out)
    }
}

/// Lifts a bare value into a modifier bound to a chosen breakpoint.
pub trait WithBreakpointExt<T: Clone + Debug + PartialEq>: Sized {
    /// Bind the value to `breakpoint`.
    fn on(&self, breakpoint: Breakpoint) -> (r: WithBreakpoint<T>)
        ensures
            r.on == breakpoint,
    ;

    /// Bind the value unconditionally.
    fn all(&self) -> (r: WithBreakpoint<T>)
        ensures
            r.on == Breakpoint::All,
    {
        self.on(Breakpoint::All)
    }

    /// Bind the value from the small breakpoint up.
    fn sm(&self) -> (r: WithBreakpoint<T>)
        ensures
            r.on == Breakpoint::Small,
    {
        self.on(Breakpoint::Small)
    }

    /// Bind the value from the medium breakpoint up.
    fn md(&self) -> (r: WithBreakpoint<T>)
        ensures
            r.on == Breakpoint::Medium,
    {
        self.on(Breakpoint::Medium)
    }

    /// Bind the value from the large breakpoint up.
    fn lg(&self) -> (r: WithBreakpoint<T>)
        ensures
            r.on == Breakpoint::Large,
    {
        self.on(Breakpoint::Large)
    }

    /// Bind the value from the extra-large breakpoint up.
    fn xl(&self) -> (r: WithBreakpoint<T>)
        ensures
            r.on == Breakpoint::XLarge,
    {
        self.on(Breakpoint::XLarge)
    }

    /// Bind the value from the double-extra-large breakpoint up.
    fn xxl(&self) -> (r: WithBreakpoint<T>)
        ensures
            r.on == Breakpoint::XXLarge,
    {
        self.on(Breakpoint::XXLarge)
    }
}

impl<T: Clone + Debug + PartialEq> WithBreakpointExt<T> for T {
    fn on(&self, breakpoint: Breakpoint) -> (r: WithBreakpoint<T>) {
        WithBreakpoint { modifier: self.clone(), on: breakpoint }
    }
}

} // verus!
