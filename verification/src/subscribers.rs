//! The subscriber registry: recipient identifiers with no duplicates.
//!
//! Membership is what subscribe and unsubscribe go by, but the registry
//! keeps a stable order so that a delivery fan-out walks the recipients the
//! same way every time. The broadcaster works on a point-in-time snapshot,
//! never on the registry itself.

use vstd::prelude::*;

verus! {

/// The registry after adding `id`: unchanged if `id` is already present,
/// else `id` appended.
pub open spec fn with_subscriber(s: Seq<i64>, id: i64) -> Seq<i64> {
    if s.contains(id) {
        s
    } else {
        s.push(id)
    }
}

/// The registry after removing `id`: the first (and, without duplicates,
/// only) occurrence taken out, or the registry unchanged if absent.
pub open spec fn without_subscriber(s: Seq<i64>, id: i64) -> Seq<i64> {
    s.remove_value(id)
}

/// Recipient identifiers of the currently subscribed chats, in subscription
/// order and free of duplicates.
pub struct SubscriberSet {
    ids: Vec<i64>,
}

impl SubscriberSet {
    /// The recipients in subscription order.
    pub closed spec fn view(&self) -> Seq<i64> {
        self.ids@
    }

    /// No recipient appears twice.
    pub open spec fn wf(&self) -> bool {
        forall|i: int, j: int| 0 <= i < j < self@.len() ==> self@[i] != self@[j]
    }

    /// An empty registry.
    pub fn new() -> (r: Self)
        ensures
            r@ =~= Seq::<i64>::empty(),
            r.wf(),
    {
        SubscriberSet { ids: Vec::new() }
    }

    /// How many chats are subscribed.
    pub fn len(&self) -> (n: usize)
        ensures
            n == self@.len(),
    {
        self.ids.len()
    }

    /// Whether nobody is subscribed.
    pub fn is_empty(&self) -> (r: bool)
        ensures
            r == (self@.len() == 0),
    {
        self.ids.len() == 0
    }

    /// Whether `id` is subscribed.
    pub fn contains(&self, id: i64) -> (r: bool)
        ensures
            r == self@.contains(id),
    {
        let mut k: usize = 0;
        while k < self.ids.len()
            invariant
                k <= self.ids.len(),
                forall|i: int| 0 <= i < k ==> self@[i] != id,
            decreases self.ids.len() - k,
        {
            if self.ids[k] == id {
                return true;
            }
            k += 1;
        }
        false
    }

    /// Index of the first occurrence of `id`, if subscribed.
    fn position(&self, id: i64) -> (r: Option<usize>)
        ensures
            match r {
                Some(k) => self@.len() > k && self@[k as int] == id && forall|i: int|
                    0 <= i < k ==> self@[i] != id,
                None => !self@.contains(id),
            },
    {
        let mut k: usize = 0;
        while k < self.ids.len()
            invariant
                k <= self.ids.len(),
                forall|i: int| 0 <= i < k ==> self@[i] != id,
            decreases self.ids.len() - k,
        {
            if self.ids[k] == id {
                return Some(k);
            }
            k += 1;
        }
        None
    }

    /// Adds `id` unless it is already subscribed; reports whether the
    /// registry changed.
    pub fn subscribe(&mut self, id: i64) -> (added: bool)
        requires
            old(self).wf(),
        ensures
            final(self).wf(),
            final(self)@ == with_subscriber(old(self)@, id),
            added == !old(self)@.contains(id),
            final(self)@.contains(id),
    {
        if self.contains(id) {
            false
        } else {
            self.ids.push(id);
            proof {
                assert(self@.contains(id)) by {
                    assert(self@[self@.len() - 1] == id);
                }
            }
            true
        }
    }

    /// Removes `id` if subscribed; reports whether the registry changed.
    pub fn unsubscribe(&mut self, id: i64) -> (removed: bool)
        requires
            old(self).wf(),
        ensures
            final(self).wf(),
            final(self)@ == without_subscriber(old(self)@, id),
            removed == old(self)@.contains(id),
            !final(self)@.contains(id),
    {
        match self.position(id) {
            Some(k) => {
                proof {
                    assert(old(self)@.contains(id)) by {
                        assert(old(self)@[k as int] == id);
                    }
                    lemma_removed_unique(old(self)@, id, k as int);
                }
                self.ids.remove(k);
                true
            },
            None => {
                proof {
                    assert(old(self)@.remove_value(id) == old(self)@) by {
                        old(self)@.index_of_first_ensures(id);
                    }
                }
                false
            },
        }
    }

    /// A point-in-time copy of the recipients, for a fan-out that must not
    /// hold the registry while delivering.
    pub fn snapshot(&self) -> (r: Vec<i64>)
        ensures
            r@ == self@,
    {
        let mut r: Vec<i64> = Vec::new();
        let mut k: usize = 0;
        while k < self.ids.len()
            invariant
                k <= self.ids.len(),
                r@ =~= self@.take(k as int),
            decreases self.ids.len() - k,
        {
            r.push(self.ids[k]);
            k += 1;
        }
        proof {
            assert(r@ =~= self@);
        }
        r
    }
}

/// Removing the only occurrence of `id` from a duplicate-free registry
/// leaves a duplicate-free registry that no longer contains it, and
/// `remove_value` removes exactly the occurrence at `k`.
proof fn lemma_removed_unique(s: Seq<i64>, id: i64, k: int)
    requires
        0 <= k < s.len(),
        s[k] == id,
        forall|i: int, j: int| 0 <= i < j < s.len() ==> s[i] != s[j],
        forall|i: int| 0 <= i < k ==> s[i] != id,
    ensures
        s.remove_value(id) == s.remove(k),
        !s.remove(k).contains(id),
        forall|i: int, j: int| 0 <= i < j < s.remove(k).len() ==> s.remove(k)[i] != s.remove(
            k,
        )[j],
{
    assert(s.contains(id)) by {
        assert(s[k] == id);
    }
    s.index_of_first_ensures(id);
    let f = s.index_of_first(id)->Some_0;
    assert(s[f] == id);
    if f < k {
        assert(false);
    }
    if f > k {
        assert(false);
    }
    let t = s.remove(k);
    assert forall|i: int| 0 <= i < t.len() implies t[i] != id by {
        if i < k {
            assert(t[i] == s[i]);
        } else {
            assert(t[i] == s[i + 1]);
        }
    }
    if t.contains(id) {
        let i = choose|i: int| 0 <= i < t.len() && t[i] == id;
        assert(false);
    }
    assert forall|i: int, j: int| 0 <= i < j < t.len() implies t[i] != t[j] by {
        let si = if i < k {
            i
        } else {
            i + 1
        };
        let sj = if j < k {
            j
        } else {
            j + 1
        };
        assert(t[i] == s[si] && t[j] == s[sj]);
    }
}

} // verus!
