//! Events of a session and the bus that hands them to subscribers.

use vstd::prelude::*;

verus! {

/// Something that happened in a session.
#[derive(Clone, Debug)]
pub enum Event {
    SessionStart,
    /// A command ran; `file` is the document that was active after it.
    Command { file: Option<String>, cmd: String },
    Error { code: u32, message: String },
}

/// Receives every published event.
pub trait Subscriber {
    fn on_event(&mut self, e: &Event);
}

impl Subscriber for Box<dyn Subscriber> {
    fn on_event(&mut self, e: &Event) {
        (**self).on_event(e)
    }
}

/// Hands each published event to every subscriber, in the order they
/// subscribed.
pub struct EventBus<S: Subscriber = Box<dyn Subscriber>> {
    subs: Vec<S>,
}

impl<S: Subscriber> EventBus<S> {
    /// The subscribers, in the order they subscribed.
    pub closed spec fn subscribers(&self) -> Seq<S> {
        self.subs@
    }

    /// A bus without subscribers.
    pub fn new() -> (r: Self)
        ensures
            r.subscribers() == Seq::<S>::empty(),
    {
        EventBus { subs: Vec::new() }
    }

    /// Adds `s` after the existing subscribers.
    pub fn subscribe(&mut self, s: S)
        ensures
            final(self).subscribers() == old(self).subscribers().push(s),
    {
        self.subs.push(s);
    }

    /// Hands `e` to each subscriber once, in subscription order.
    pub fn publish(&mut self, e: Event)
        ensures
            final(self).subscribers().len() == old(self).subscribers().len(),
    {
        let n = self.subs.len();
        let mut i: usize = 0;
        while i < n
            invariant
                self.subs@.len() == n,
                i <= n,
            decreases n - i,
        {
            self.subs[i].on_event(&e);
            i += 1;
        }
    }
}

} // verus!
