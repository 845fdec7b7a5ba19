//! A first-in first-out queue of events for one consumer, which can sleep
//! on it until the next item arrives.

use vstd::prelude::*;
use super::result::{IoResult, IoResultPure};
use super::types::{ExplicitEventId, WaitFor};

verus! {

/// The events woken by a push: the sleeping consumer's, if any.
pub open spec fn woken(w: Option<ExplicitEventId>) -> Seq<ExplicitEventId> {
    match w {
        Some(e) => seq![e],
        None => Seq::empty(),
    }
}

/// A queue of items with the event its consumer sleeps on while it is
/// empty.
pub struct EventQueue<T> {
    queue: std::collections::VecDeque<T>,
    wakeup: Option<ExplicitEventId>,
}

impl<T> EventQueue<T> {
    /// The items, oldest first.
    pub closed spec fn items(&self) -> Seq<T> {
        self.queue@
    }

    /// The event the consumer sleeps on, if it does.
    pub closed spec fn waiting(&self) -> Option<ExplicitEventId> {
        self.wakeup
    }

    pub fn new() -> (r: Self)
        ensures
            r.items().len() == 0,
            r.waiting() is None,
    {
        EventQueue { queue: std::collections::VecDeque::new(), wakeup: None }
    }

    /// Appends `item` and hands back the event of the sleeping consumer,
    /// which is then no longer waited on.
    pub fn push(&mut self, item: T) -> (r: Option<ExplicitEventId>)
        ensures
            final(self).items() == old(self).items().push(item),
            final(self).waiting() is None,
            r == old(self).waiting(),
    {
        self.queue.push_back(item);
        let r = self.wakeup;
        self.wakeup = None;
        r
    }

    /// `push`, with the woken event carried by a successful result.
    pub fn push_io(&mut self, item: T) -> (r: IoResult<()>)
        ensures
            final(self).items() == old(self).items().push(item),
            final(self).waiting() is None,
            r.inner == IoResultPure::<()>::Success(()),
            r.events@ == woken(old(self).waiting()),
    {
        match self.push(item) {
            Some(e) => IoResult::success(()).with_event(e),
            None => IoResult::success(()),
        }
    }

    /// Takes the oldest item out.
    pub fn pop_event(&mut self) -> (r: Option<T>)
        ensures
            final(self).waiting() == old(self).waiting(),
            old(self).items().len() == 0 ==> r is None && final(self).items() == old(self).items(),
            old(self).items().len() > 0 ==> r == Some(old(self).items()[0])
                && final(self).items() == old(self).items().drop_first(),
    {
        let r = self.queue.pop_front();
        proof {
            if old(self).items().len() > 0 {
                assert(self.items() =~= old(self).items().drop_first());
            }
        }
        r
    }

    /// What the consumer waits for: nothing while items are queued, else
    /// the event it already sleeps on, else `fresh`, which it sleeps on
    /// from now on.
    pub fn wait_for(&mut self, fresh: ExplicitEventId) -> (r: WaitFor)
        ensures
            final(self).items() == old(self).items(),
            old(self).items().len() > 0 ==> r == WaitFor::NoWait && final(self).waiting() == old(self).waiting(),
            old(self).items().len() == 0 ==> (match old(self).waiting() {
                Some(e) => r == WaitFor::Event(e) && final(self).waiting() == old(self).waiting(),
                None => r == WaitFor::Event(fresh) && final(self).waiting() == Some(fresh),
            }),
    {
        if self.queue.len() > 0 {
            WaitFor::NoWait
        } else {
            match self.wakeup {
                Some(e) => WaitFor::Event(e),
                None => {
                    self.wakeup = Some(fresh);
                    WaitFor::Event(fresh)
                },
            }
        }
    }

    /// The oldest item, left in place.
    pub fn first(&self) -> (r: Option<&T>)
        ensures
            self.items().len() == 0 ==> r is None,
            self.items().len() > 0 ==> r == Some(&self.items()[0]),
    {
        if self.queue.len() > 0 {
            Some(&self.queue[0])
        } else {
            None
        }
    }

    /// Number of queued items.
    pub fn len(&self) -> (r: usize)
        ensures
            r == self.items().len(),
    {
        self.queue.len()
    }
}

} // verus!
