//! Typed carriers between stages and their cycler's output record.

use vstd::prelude::*;

verus! {

/// A stage's main output: written every cycle into the cycler's own
/// output record.
#[derive(Clone, Copy, Debug)]
pub struct MainOutput<T> {
    pub value: T,
}

impl<T> From<T> for MainOutput<T> {
    fn from(value: T) -> (r: Self) {
        MainOutput { value }
    }
}

impl<T> vstd::std_specs::convert::FromSpecImpl<T> for MainOutput<T> {
    open spec fn obeys_from_spec() -> bool {
        true
    }

    open spec fn from_spec(value: T) -> Self {
        MainOutput { value }
    }
}

/// A debug output, recorded only while some client subscribes to it;
/// unsubscribed writes are dropped.
#[derive(Clone, Debug)]
pub struct AdditionalOutput<T> {
    is_subscribed: bool,
    value: Option<T>,
}

impl<T> AdditionalOutput<T> {
    /// Whether a subscriber is listening.
    pub closed spec fn is_subscribed_spec(&self) -> bool {
        self.is_subscribed
    }

    /// What has been recorded this cycle.
    pub closed spec fn value_spec(&self) -> Option<T> {
        self.value
    }

    /// An empty output with the given subscription state.
    pub fn new(is_subscribed: bool) -> (r: Self)
        ensures
            r.is_subscribed_spec() == is_subscribed,
            r.value_spec() is None,
    {
        AdditionalOutput { is_subscribed, value: None }
    }

    /// Whether a subscriber is listening; stages may skip computing a
    /// costly debug value when nobody does.
    pub fn is_subscribed(&self) -> (r: bool)
        ensures
            r == self.is_subscribed_spec(),
    {
        self.is_subscribed
    }

    /// Records `value` when subscribed; otherwise drops it.
    pub fn fill(&mut self, value: T)
        ensures
            final(self).is_subscribed_spec() == old(self).is_subscribed_spec(),
            old(self).is_subscribed_spec() ==> final(self).value_spec() == Some(value),
            !old(self).is_subscribed_spec() ==> final(self).value_spec() == old(
                self,
            ).value_spec(),
    {
        if self.is_subscribed {
            self.value = Some(value);
        }
    }

    /// Hands the recorded value out.
    pub fn take(&mut self) -> (r: Option<T>)
        ensures
            r == old(self).value_spec(),
            final(self).value_spec() is None,
            final(self).is_subscribed_spec() == old(self).is_subscribed_spec(),
    {
        self.value.take()
    }
}

} // verus!
