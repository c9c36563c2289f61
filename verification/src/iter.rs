//! Lazy unfolding of a seed state into a stream of values.

use vstd::prelude::*;

verus! {

/// A one-pass cursor over the values produced by repeatedly stepping a
/// state with a function.
///
/// The step function is called with the current state and returns either
/// the next value to yield together with the state that replaces the
/// current one, or `None`, which ends the stream for good.  There is a
/// single in-flight state at a time, and the stream cannot be restarted
/// except by unfolding the original seed again.
#[verifier::reject_recursive_types(S)]
#[verifier::reject_recursive_types(A)]
pub struct Unfold<S, A, F: Fn(S) -> Option<(A, S)>> {
    state: Option<S>,
    step: F,
    _values: core::marker::PhantomData<A>,
}

/// Create a cursor of values from a seed state and a step function.
pub fn unfold<S, A, F: Fn(S) -> Option<(A, S)>>(value: S, f: F) -> (it: Unfold<S, A, F>)
    ensures
        it.state() == Some(value),
        it.step_fn() == f,
{
    Unfold { state: Some(value), step: f, _values: core::marker::PhantomData }
}

impl<S, A, F: Fn(S) -> Option<(A, S)>> Unfold<S, A, F> {
    /// The state the next pull will consume; `None` once the stream has
    /// ended.
    pub closed spec fn state(&self) -> Option<S> {
        self.state
    }

    /// The step function driving the cursor.
    pub closed spec fn step_fn(&self) -> F {
        self.step
    }

    /// Pull the next value: the current state is consumed by the step
    /// function, whose answer either yields a value and installs the next
    /// state, or ends the stream.  Pulling an ended stream keeps yielding
    /// `None`.
    pub fn next(&mut self) -> (r: Option<A>)
        requires
            old(self).state() matches Some(s) ==> call_requires(old(self).step_fn(), (s,)),
        ensures
            final(self).step_fn() == old(self).step_fn(),
            match old(self).state() {
                None => r is None && final(self).state() is None,
                Some(s) => match (r, final(self).state()) {
                    (Some(a), Some(s2)) => call_ensures(
                        old(self).step_fn(),
                        (s,),
                        Some((a, s2)),
                    ),
                    (None, None) => call_ensures(
                        old(self).step_fn(),
                        (s,),
                        Option::<(A, S)>::None,
                    ),
                    _ => false,
                },
            },
    {
        let current = self.state.take();
        match current {
            None => None,
            Some(s) => match (self.step)(s) {
                Some((value, next_state)) => {
                    self.state = Some(next_state);
                    Some(value)
                },
                None => None,
            },
        }
    }
}

} // verus!
