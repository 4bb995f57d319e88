//! The lifecycle controller: at most one poll-detect-broadcast loop.
//!
//! Subscribing adds the chat to the registry and makes sure exactly one
//! loop instance runs; unsubscribing removes it and stops the loop when the
//! last subscriber leaves. The controller only decides; spawning and
//! cancelling the task itself is the caller's job, driven by the
//! `start_loop` / `stop_loop` signals in the outcomes.

use vstd::prelude::*;

use crate::subscribers::{with_subscriber, without_subscriber, SubscriberSet};

verus! {

/// Whether a subscribe request issued while the loop's running state is
/// `running` must start a new loop instance: only when none is running.
pub open spec fn starts_loop(running: bool) -> bool {
    !running
}

/// After a subscribe the loop always runs, whatever it did before.
pub open spec fn running_after_subscribe(running: bool) -> bool {
    true
}

/// Whether an unsubscribe stops the loop: only when it removed the last
/// recipient while the loop was running.
pub open spec fn stops_loop(removed: bool, remaining: int, running: bool) -> bool {
    removed && remaining == 0 && running
}

/// What a subscribe request decided, for acknowledgement and for the caller
/// who spawns the task.
pub struct SubscribeOutcome {
    /// Whether the registry changed: the chat was not subscribed before.
    pub newly_added: bool,
    /// Whether the caller must start a loop instance now.
    pub start_loop: bool,
}

/// What an unsubscribe request decided.
pub struct UnsubscribeOutcome {
    /// Whether the registry changed: the chat was subscribed before.
    pub removed: bool,
    /// Whether the caller must cancel the running loop instance now.
    pub stop_loop: bool,
}

/// The subscriber registry together with the single-instance loop state.
pub struct Controller {
    subs: SubscriberSet,
    running: bool,
}

impl Controller {
    /// The subscribed recipients, in subscription order.
    pub closed spec fn subscribers(&self) -> Seq<i64> {
        self.subs@
    }

    /// Whether a loop instance is considered running.
    pub closed spec fn loop_running(&self) -> bool {
        self.running
    }

    /// The registry holds no duplicates.
    pub closed spec fn wf(&self) -> bool {
        self.subs.wf()
    }

    /// No subscribers, no loop.
    pub fn new() -> (r: Self)
        ensures
            r.wf(),
            r.subscribers() =~= Seq::<i64>::empty(),
            !r.loop_running(),
    {
        Controller { subs: SubscriberSet::new(), running: false }
    }

    /// Subscribes `id` (a no-op if already subscribed) and ensures exactly
    /// one loop instance runs, asking the caller to start one only if none
    /// was running.
    pub fn subscribe(&mut self, id: i64) -> (o: SubscribeOutcome)
        requires
            old(self).wf(),
        ensures
            final(self).wf(),
            final(self).subscribers() == with_subscriber(old(self).subscribers(), id),
            final(self).subscribers().contains(id),
            o.newly_added == !old(self).subscribers().contains(id),
            o.start_loop == starts_loop(old(self).loop_running()),
            final(self).loop_running() == running_after_subscribe(old(self).loop_running()),
    {
        let added = self.subs.subscribe(id);
        let start = !self.running;
        self.running = true;
        SubscribeOutcome { newly_added: added, start_loop: start }
    }

    /// Unsubscribes `id` (a no-op if not subscribed); when the last
    /// recipient leaves a running loop, asks the caller to cancel it.
    pub fn unsubscribe(&mut self, id: i64) -> (o: UnsubscribeOutcome)
        requires
            old(self).wf(),
        ensures
            final(self).wf(),
            final(self).subscribers() == without_subscriber(old(self).subscribers(), id),
            !final(self).subscribers().contains(id),
            o.removed == old(self).subscribers().contains(id),
            o.stop_loop == stops_loop(
                o.removed,
                final(self).subscribers().len() as int,
                old(self).loop_running(),
            ),
            final(self).loop_running() == (old(self).loop_running() && !o.stop_loop),
    {
        let removed = self.subs.unsubscribe(id);
        let stop = removed && self.subs.is_empty() && self.running;
        if stop {
            self.running = false;
        }
        UnsubscribeOutcome { removed, stop_loop: stop }
    }

    /// Records that the task exited on its own (crashed or was cancelled
    /// elsewhere), so the next subscribe starts a fresh instance.
    pub fn note_loop_exit(&mut self)
        ensures
            final(self).subscribers() == old(self).subscribers(),
            !final(self).loop_running(),
            old(self).wf() ==> final(self).wf(),
    {
        self.running = false;
    }

    /// Whether a loop instance is considered running.
    pub fn is_running(&self) -> (r: bool)
        ensures
            r == self.loop_running(),
    {
        self.running
    }

    /// How many chats are subscribed.
    pub fn subscriber_count(&self) -> (n: usize)
        ensures
            n == self.subscribers().len(),
    {
        self.subs.len()
    }

    /// Whether `id` is subscribed.
    pub fn is_subscribed(&self, id: i64) -> (r: bool)
        ensures
            r == self.subscribers().contains(id),
    {
        self.subs.contains(id)
    }

    /// A point-in-time copy of the recipients for the delivery fan-out.
    pub fn snapshot(&self) -> (r: Vec<i64>)
        ensures
            r@ == self.subscribers(),
    {
        self.subs.snapshot()
    }
}

/// Subscribing twice with the same recipient is idempotent: the second call
/// leaves the registry as the first left it — from an empty registry its
/// size is 1 — and, since the loop runs after the first call, the second
/// call never starts another instance: at most one is started.
pub proof fn lemma_subscribe_twice(s: Seq<i64>, running: bool, id: i64)
    ensures
        with_subscriber(with_subscriber(s, id), id) == with_subscriber(s, id),
        s.len() == 0 ==> with_subscriber(with_subscriber(s, id), id).len() == 1,
        !starts_loop(running_after_subscribe(running)),
{
    if !s.contains(id) {
        assert(with_subscriber(s, id).contains(id)) by {
            assert(with_subscriber(s, id)[s.len() as int] == id);
        }
    }
}

/// Unsubscribing the last recipient stops the running loop, and a
/// subsequent subscribe starts exactly one new instance.
pub proof fn lemma_stop_then_restart(id: i64, id2: i64)
    ensures
        without_subscriber(seq![id], id).len() == 0,
        stops_loop(true, without_subscriber(seq![id], id).len() as int, true),
        starts_loop(false),
{
    let s = seq![id];
    assert(s.contains(id)) by {
        assert(s[0] == id);
    }
    s.index_of_first_ensures(id);
    let f = s.index_of_first(id)->Some_0;
    assert(f == 0);
    assert(s.remove(0) =~= Seq::<i64>::empty());
}

} // verus!
