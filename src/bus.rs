use vstd::prelude::*;

verus! {

/// A relay from the one inbound stream to the listeners that subscribed to it.
/// Each listener is known by the id it got on subscribing.
pub struct EventBus {
    pub subscribers: Vec<u64>,
    pub next_id: u64,
}

/// `s` without any occurrence of `id`, order kept.
pub open spec fn without(s: Seq<u64>, id: u64) -> Seq<u64>
    decreases s.len(),
{
    if s.len() == 0 {
        s
    } else if s.last() == id {
        without(s.drop_last(), id)
    } else {
        without(s.drop_last(), id).push(s.last())
    }
}

proof fn lemma_without_excludes(s: Seq<u64>, id: u64)
    ensures
        !without(s, id).contains(id),
        forall|x: u64| #[trigger] without(s, id).contains(x) ==> s.contains(x),
    decreases s.len(),
{
    if s.len() > 0 {
        lemma_without_excludes(s.drop_last(), id);
        let w = without(s.drop_last(), id);
        if s.last() != id {
            assert forall|x: u64| #[trigger] w.push(s.last()).contains(x) implies s.contains(x) by {
                if x != s.last() {
                    let k = choose|k: int| 0 <= k < w.push(s.last()).len() && w.push(s.last())[k] == x;
                    assert(w[k] == x);
                    assert(w.contains(x));
                    assert(s.drop_last().contains(x));
                    let j = choose|j: int| 0 <= j < s.drop_last().len() && s.drop_last()[j] == x;
                    assert(s[j] == x);
                } else {
                    assert(s[s.len() - 1] == x);
                }
            }
            assert(!w.push(s.last()).contains(id)) by {
                if w.push(s.last()).contains(id) {
                    let k = choose|k: int| 0 <= k < w.push(s.last()).len() && w.push(s.last())[k] == id;
                    assert(k < w.len());
                    assert(w[k] == id);
                }
            }
        } else {
            assert forall|x: u64| #[trigger] w.contains(x) implies s.contains(x) by {
                let j = choose|j: int| 0 <= j < s.drop_last().len() && s.drop_last()[j] == x;
                assert(s[j] == x);
            }
        }
    }
}

impl EventBus {
    /// Ids are unique among the subscribers and all below the next id.
    pub open spec fn wf(&self) -> bool {
        forall|i: int| 0 <= i < self.subscribers@.len() ==> #[trigger] self.subscribers@[i] < self.next_id
    }

    /// A bus with no subscribers.
    pub fn new() -> (r: EventBus)
        ensures
            r.wf(),
            r.subscribers@ == Seq::<u64>::empty(),
    {
        EventBus { subscribers: Vec::new(), next_id: 0 }
    }

    /// Adds a listener; it is delivered to after those that subscribed before it.
    /// Gives `None` only when every id has been handed out.
    pub fn subscribe(&mut self) -> (r: Option<u64>)
        requires
            old(self).wf(),
        ensures
            final(self).wf(),
            old(self).next_id < u64::MAX ==> r is Some,
            r matches Some(id) ==> final(self).subscribers@ == old(self).subscribers@.push(id)
                && !old(self).subscribers@.contains(id),
            r is None ==> final(self).subscribers@ == old(self).subscribers@,
    {
        if self.next_id == u64::MAX {
            return None;
        }
        let id = self.next_id;
        self.subscribers.push(id);
        self.next_id = id + 1;
        Some(id)
    }

    /// Removes a listener: no later delivery reaches it.
    pub fn unsubscribe(&mut self, id: u64)
        requires
            old(self).wf(),
        ensures
            final(self).wf(),
            final(self).subscribers@ == without(old(self).subscribers@, id),
            !final(self).subscribers@.contains(id),
    {
        let mut kept: Vec<u64> = Vec::new();
        let mut i: usize = 0;
        while i < self.subscribers.len()
            invariant
                i <= self.subscribers.len(),
                self.subscribers@ == old(self).subscribers@,
                kept@ == without(self.subscribers@.take(i as int), id),
            decreases self.subscribers.len() - i,
        {
            assert(self.subscribers@.take(i + 1).drop_last() =~= self.subscribers@.take(i as int));
            if self.subscribers[i] != id {
                kept.push(self.subscribers[i]);
            }
            i += 1;
        }
        assert(self.subscribers@.take(i as int) =~= self.subscribers@);
        proof {
            lemma_without_excludes(old(self).subscribers@, id);
        }
        self.subscribers = kept;
        assert forall|i: int| 0 <= i < self.subscribers@.len() implies #[trigger] self.subscribers@[i]
            < self.next_id by {
            assert(self.subscribers@.contains(self.subscribers@[i]));
        }
    }

    /// The listeners a published frame goes to, in delivery order.
    pub fn recipients(&self) -> (r: Vec<u64>)
        ensures
            r@ == self.subscribers@,
    {
        self.subscribers.clone()
    }
}

} // verus!
