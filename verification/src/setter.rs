//! State-setter actions: a new state is given either outright or as a
//! function of the previous state.

use vstd::prelude::*;

verus! {

/// An action updating a piece of state: a direct value, or a function of
/// the previous value.
#[verifier::reject_recursive_types(T)]
pub enum SetStateAction<T, F> where F: FnOnce(T) -> T {
    /// Set the state to this value.
    Value(T),
    /// Update the state with this function of the previous value.
    Function(F),
}

pub struct SetterUtils;

impl SetterUtils {
    /// Applies an action to the previous state: the value itself, or the
    /// function's result on the previous value.
    pub fn to_value<T, F: FnOnce(T) -> T>(set_state_action: SetStateAction<T, F>, prev: T) -> (r:
        T)
        requires
            set_state_action matches SetStateAction::Function(f) ==> call_requires(f, (prev,)),
        ensures
            match set_state_action {
                SetStateAction::Value(v) => r == v,
                SetStateAction::Function(f) => call_ensures(f, (prev,), r),
            },
    {
        match set_state_action {
            SetStateAction::Value(value) => value,
            SetStateAction::Function(func) => func(prev),
        }
    }
}

} // verus!
