//! Debounce state machine. The host owns the timer: it calls `trigger`
//! when the debounced event occurs, sleeps for the delay, and then offers
//! the token back through `try_fire`. A retrigger during the delay hands
//! out a newer token, so the earlier offer no longer fires: a rescheduled
//! call supersedes, it never stacks.

use vstd::prelude::*;

verus! {

/// Values handed to the debounced callback when it fires.
#[derive(Clone, Debug)]
pub struct DebounceProps {
    /// How many times the debounce was triggered for this execution.
    pub debounced_count: usize,
}

/// Debounce state: the delay the host must sleep, the token of the latest
/// trigger, and the trigger count of the pending execution.
pub struct DebounceState {
    /// Delay in milliseconds before a trigger may fire.
    pub delay_ms: u32,
    /// Token of the latest trigger; only this token fires.
    pub generation: u64,
    /// Whether a trigger is waiting to fire.
    pub pending: bool,
    /// Triggers counted towards the pending execution.
    pub count: usize,
}

impl DebounceState {
    pub fn new(delay_ms: u32) -> (r: DebounceState)
        ensures
            r.delay_ms == delay_ms,
            r.generation == 0,
            r.pending == false,
            r.count == 0,
    {
        DebounceState { delay_ms, generation: 0, pending: false, count: 0 }
    }

    /// Records one occurrence of the debounced event and hands out the
    /// token that may fire after the delay; every token handed out before
    /// is superseded.
    pub fn trigger(&mut self) -> (token: u64)
        requires
            old(self).generation < u64::MAX,
            old(self).count < usize::MAX,
        ensures
            token == final (self).generation,
            final (self).generation == old(self).generation + 1,
            final (self).pending == true,
            final (self).count == old(self).count + 1,
            final (self).delay_ms == old(self).delay_ms,
    {
        self.generation = self.generation + 1;
        self.count = self.count + 1;
        self.pending = true;
        self.generation
    }

    /// Whether an offered token would fire now: only the latest trigger's
    /// token, and only while it is pending.
    pub fn should_fire(&self, token: u64) -> (r: bool)
        ensures
            r == (self.pending && token == self.generation),
    {
        self.pending && token == self.generation
    }

    /// Offers a token back after the delay. The latest pending token fires
    /// — the callback values are returned and the pending execution is
    /// consumed — and any other token does nothing.
    pub fn try_fire(&mut self, token: u64) -> (r: Option<DebounceProps>)
        ensures
            old(self).pending && token == old(self).generation ==> r == Some(
                DebounceProps { debounced_count: old(self).count },
            ) && final (self).pending == false && final (self).count == 0,
            !(old(self).pending && token == old(self).generation) ==> r is None && *final (self)
                == *old(self),
            final (self).generation == old(self).generation,
            final (self).delay_ms == old(self).delay_ms,
    {
        if self.pending && token == self.generation {
            let props = DebounceProps { debounced_count: self.count };
            self.pending = false;
            self.count = 0;
            Some(props)
        } else {
            None
        }
    }
}

/// A retrigger supersedes every earlier token: after `trigger`, no token
/// handed out before it can fire.
pub proof fn lemma_trigger_supersedes(before: DebounceState, after: DebounceState, token: u64)
    requires
        after.generation == before.generation + 1,
        token <= before.generation,
    ensures
        !(after.pending && token == after.generation),
{
}

} // verus!
