//! A value that one side updates and another side waits for: the shared state and
//! the rules by which updates and waits change it. The blocking itself is left to
//! whoever holds the state behind a lock.
use vstd::prelude::*;

verus! {

/// The latest value, and whether it changed since a waiter last took it.
pub struct WaitNotify<T> {
    config: T,
    updated: bool,
}

impl<T: Clone> WaitNotify<T> {
    /// The value last published.
    pub closed spec fn value(&self) -> T {
        self.config
    }

    /// Whether a value was published that no waiter has taken yet.
    pub closed spec fn updated(&self) -> bool {
        self.updated
    }

    /// Starts with a value that counts as already taken.
    pub fn new(config: T) -> (r: Self)
        ensures
            r.value() == config,
            !r.updated(),
    {
        WaitNotify { config, updated: false }
    }

    /// Replaces the value; waiters are to be woken.
    pub fn update(&mut self, new_config: T)
        ensures
            final(self).value() == new_config,
            final(self).updated(),
    {
        self.config = new_config;
        self.updated = true;
    }

    /// Replaces the value when the condition holds of the current one; returns whether
    /// it did, so that waiters are woken only then.
    pub fn update_if(&mut self, new_config: T, condition: impl Fn(&T) -> bool) -> (r: bool)
        requires
            condition.requires((&old(self).value(),)),
        ensures
            condition.ensures((&old(self).value(),), r),
            r ==> final(self).value() == new_config && final(self).updated(),
            !r ==> *final(self) == *old(self),
    {
        if condition(&self.config) {
            self.config = new_config;
            self.updated = true;
            true
        } else {
            false
        }
    }

    /// Whether the value changed since a waiter last took it; a blocking waiter
    /// sleeps until it has.
    pub fn is_updated(&self) -> (r: bool)
        ensures
            r == self.updated(),
    {
        self.updated
    }

    /// What a blocking waiter gets once the value has changed: a copy of it, which
    /// then counts as taken.
    pub fn wait(&mut self) -> (r: T)
        requires
            old(self).updated(),
        ensures
            cloned::<T>(old(self).value(), r),
            final(self).value() == old(self).value(),
            !final(self).updated(),
    {
        self.updated = false;
        self.config.clone()
    }

    /// What a waiter gets when it wakes: a copy of the value if it changed since it was
    /// last taken, which then counts as taken; nothing otherwise.
    pub fn wait_update(&mut self) -> (r: Option<T>)
        ensures
            old(self).updated() ==> (r matches Some(v) && cloned::<T>(old(self).value(), v)),
            !old(self).updated() ==> r is None,
            final(self).value() == old(self).value(),
            !final(self).updated(),
    {
        if self.updated {
            self.updated = false;
            Some(self.config.clone())
        } else {
            None
        }
    }
}

} // verus!
