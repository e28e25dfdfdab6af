//! Storage for one touch handler, with the count of its invocations.
//!
//! A handler is invoked here and nowhere else, so that the count is the
//! number of times it ran.

use vstd::prelude::*;

verus! {

/// A place for one handler of the type `H`.
pub struct HandlerSlot<H> {
    handler: Option<H>,
    calls: Ghost<nat>,
}

impl<H: FnMut()> HandlerSlot<H> {
    /// The handler stored, if any.
    pub closed spec fn handler(&self) -> Option<H> {
        self.handler
    }

    /// How often a handler of this slot was invoked.
    pub closed spec fn calls(&self) -> nat {
        self.calls@
    }

    /// A slot that holds no handler and has invoked none.
    pub fn empty() -> (slot: Self)
        ensures
            slot.handler() is None,
            slot.calls() == 0,
    {
        HandlerSlot { handler: None, calls: Ghost(0) }
    }

    /// Stores `handler` in place of any earlier one. Nothing is invoked.
    pub fn store(&mut self, handler: H)
        ensures
            final(self).handler() == Some(handler),
            final(self).calls() == old(self).calls(),
    {
        self.handler = Some(handler);
    }

    /// Invokes the handler stored, once. Does nothing if none is stored.
    pub fn invoke(&mut self)
        requires
            old(self).handler() matches Some(handler) ==> call_requires(handler, ()),
        ensures
            old(self).handler() matches Some(handler) ==> call_ensures(handler, (), ()),
            final(self).handler() is Some == old(self).handler() is Some,
            final(self).calls() == old(self).calls() + if old(self).handler() is Some {
                1nat
            } else {
                0nat
            },
    {
        match &mut self.handler {
            Some(handler) => once(handler, &mut self.calls),
            None => {},
        }
    }
}

/// Invokes `handler` and counts the invocation. The handler is used up by
/// the call, so it cannot be invoked a second time.
fn once<F: FnOnce()>(handler: F, calls: &mut Ghost<nat>)
    requires
        call_requires(handler, ()),
    ensures
        call_ensures(handler, (), ()),
        final(calls)@ == old(calls)@ + 1,
{
    handler();
    *calls = Ghost((calls@ + 1) as nat);
}

} // verus!
