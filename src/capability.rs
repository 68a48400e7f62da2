//! The capabilities that a caller plugs into a transition graph: the predicate
//! that guards a link, the function a link runs when it fires, the result a
//! cursor falls back on, and a reader of the value attached to a node.
use vstd::prelude::*;

verus! {

/// A predicate over one input symbol and the traversal's context.
pub trait Condition<I, C> {
    /// Whether the condition holds for `input` in `context`.
    spec fn holds(&self, input: I, context: C) -> bool;

    /// Evaluates the condition; the context is only read.
    fn check(&self, input: &I, context: &C) -> (r: bool)
        ensures
            r == self.holds(*input, *context),
    ;
}

/// What a link does when it fires: it may change the context and produces a value.
pub trait Process<I, R, C> {
    /// The value produced for `input` when the context is `context`.
    spec fn result(&self, input: I, context: C) -> R;

    /// The context after the process ran on `input` from `context`.
    spec fn updated(&self, input: I, context: C) -> C;

    fn run(&self, input: I, context: &mut C) -> (r: R)
        ensures
            r == self.result(input, *old(context)),
            *final(context) == self.updated(input, *old(context)),
    ;
}

/// The result a cursor returns on a step where no link fires.
pub trait Fallback<R, C> {
    spec fn value(&self, context: C) -> R;

    fn produce(&self, context: &C) -> (r: R)
        ensures
            r == self.value(*context),
    ;
}

/// A one-shot reader of the value attached to the cursor's node, with write
/// access to the context.
pub trait Inspect<T, C> {
    /// The context after inspecting `value` from `context`.
    spec fn inspected(&self, value: Option<T>, context: C) -> C;

    fn inspect(self, value: Option<&T>, context: &mut C)
        ensures
            *final(context) == self.inspected(
                match value {
                    Some(v) => Some(*v),
                    None => None,
                },
                *old(context),
            ),
    ;
}

/// A boxed condition, as a link holds it.
#[verifier::reject_recursive_types(I)]
#[verifier::reject_recursive_types(C)]
pub struct Guard<I, C>(pub Box<dyn Condition<I, C>>);

impl<I, C> Guard<I, C> {
    pub open spec fn holds(&self, input: I, context: C) -> bool {
        self.0.holds(input, context)
    }

    pub fn check(&self, input: &I, context: &C) -> (r: bool)
        ensures
            r == self.holds(*input, *context),
    {
        self.0.check(input, context)
    }
}

/// A boxed process, as a link holds it.
#[verifier::reject_recursive_types(I)]
#[verifier::reject_recursive_types(R)]
#[verifier::reject_recursive_types(C)]
pub struct Func<I, R, C>(pub Box<dyn Process<I, R, C>>);

impl<I, R, C> Func<I, R, C> {
    pub open spec fn result(&self, input: I, context: C) -> R {
        self.0.result(input, context)
    }

    pub open spec fn updated(&self, input: I, context: C) -> C {
        self.0.updated(input, context)
    }

    pub fn run(&self, input: I, context: &mut C) -> (r: R)
        ensures
            r == self.result(input, *old(context)),
            *final(context) == self.updated(input, *old(context)),
    {
        self.0.run(input, context)
    }
}

/// A boxed fallback, as a cursor holds it.
#[verifier::reject_recursive_types(R)]
#[verifier::reject_recursive_types(C)]
pub struct Otherwise<R, C>(pub Box<dyn Fallback<R, C>>);

impl<R, C> Otherwise<R, C> {
    pub open spec fn value(&self, context: C) -> R {
        self.0.value(context)
    }

    pub fn produce(&self, context: &C) -> (r: R)
        ensures
            r == self.value(*context),
    {
        self.0.produce(context)
    }
}

/// A symbol type whose equality is decided exactly.
pub trait Symbol: Sized {
    fn same(&self, other: &Self) -> (r: bool)
        ensures
            r == (*self == *other),
    ;
}

impl Symbol for char {
    fn same(&self, other: &char) -> (r: bool) {
        *self == *other
    }
}

impl Symbol for u8 {
    fn same(&self, other: &u8) -> (r: bool) {
        *self == *other
    }
}

/// The condition "the input equals `target`"; it ignores the context.
pub struct Equals<I> {
    pub target: I,
}

/// The condition "the input differs from `target`"; it ignores the context.
pub struct NotEquals<I> {
    pub target: I,
}

impl<I: Symbol, C> Condition<I, C> for Equals<I> {
    open spec fn holds(&self, input: I, context: C) -> bool {
        input == self.target
    }

    fn check(&self, input: &I, context: &C) -> (r: bool) {
        input.same(&self.target)
    }
}

impl<I: Symbol, C> Condition<I, C> for NotEquals<I> {
    open spec fn holds(&self, input: I, context: C) -> bool {
        input != self.target
    }

    fn check(&self, input: &I, context: &C) -> (r: bool) {
        !input.same(&self.target)
    }
}

/// A condition that holds exactly on inputs equal to `input`.
pub fn eq<I: Symbol>(input: I) -> (r: Equals<I>)
    ensures
        r.target == input,
{
    Equals { target: input }
}

/// A condition that holds exactly on inputs different from `input`.
pub fn not_eq<I: Symbol>(input: I) -> (r: NotEquals<I>)
    ensures
        r.target == input,
{
    NotEquals { target: input }
}

} // verus!
