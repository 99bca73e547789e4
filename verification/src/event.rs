//! What a layer reports of its own changes.

use vstd::prelude::*;
use std::collections::VecDeque;
use crate::pool::Handle;

verus! {

/// A change of a layer's cursor.
#[derive(Clone, Copy, Debug, PartialEq, Eq, Structural)]
pub enum Event {
    /// A state was entered.
    StateEnter(Handle),
    /// A state was left.
    StateLeave(Handle),
    /// The active state became the given one.
    ActiveStateChanged(Handle),
    /// The active transition became the given one; none when it ended.
    ActiveTransitionChanged(Handle),
}

/// The queue after `event` arrives at a queue that keeps `limit` events at
/// most: where it is full, the oldest event leaves.
pub open spec fn pushed(queue: Seq<Event>, limit: nat, event: Event) -> Seq<Event> {
    if limit == 0 {
        queue
    } else if queue.len() >= limit {
        queue.skip(queue.len() - limit + 1).push(event)
    } else {
        queue.push(event)
    }
}

/// A queue of events that keeps the latest ones up to a limit fixed at
/// construction.
#[derive(Clone, Debug, PartialEq, Eq)]
pub struct LimitedEventQueue {
    pub queue: VecDeque<Event>,
    pub limit: u32,
}

impl LimitedEventQueue {
    pub open spec fn wf(&self) -> bool {
        self.queue@.len() <= self.limit
    }

    pub open spec fn view(&self) -> Seq<Event> {
        self.queue@
    }

    pub fn new(limit: u32) -> (r: Self)
        ensures
            r.wf(),
            r.limit == limit,
            r@ == Seq::<Event>::empty(),
    {
        LimitedEventQueue { queue: VecDeque::new(), limit }
    }

    pub fn limit(&self) -> (r: u32)
        ensures
            r == self.limit,
    {
        self.limit
    }

    pub fn len(&self) -> (r: usize)
        ensures
            r == self@.len(),
    {
        self.queue.len()
    }

    /// Appends `event`; the oldest event leaves where the queue is full.
    pub fn push(&mut self, event: Event)
        requires
            old(self).wf(),
        ensures
            final(self).wf(),
            final(self).limit == old(self).limit,
            final(self)@ == pushed(old(self)@, old(self).limit as nat, event),
    {
        if self.limit == 0 {
            return ;
        }
        if self.queue.len() >= self.limit as usize {
            let _ = self.queue.pop_front();
            assert(self.queue@ =~= old(self).queue@.skip(1));
        }
        self.queue.push_back(event);
    }

    /// Takes the oldest event out.
    pub fn pop(&mut self) -> (r: Option<Event>)
        ensures
            old(self).wf() ==> final(self).wf(),
            final(self).limit == old(self).limit,
            old(self)@.len() == 0 ==> r is None && final(self)@ == old(self)@,
            old(self)@.len() > 0 ==> r == Some(old(self)@[0]) && final(self)@ == old(self)@.skip(1),
    {
        let r = self.queue.pop_front();
        assert(old(self)@.len() > 0 ==> self.queue@ =~= old(self).queue@.skip(1));
        r
    }
}

} // verus!
