//! The activity each connected client last published, and which of them is
//! current: the newest non-empty one, as Discord itself does it.

use std::collections::HashMap;

use vstd::prelude::*;

verus! {

broadcast use vstd::std_specs::hash::group_hash_axioms;

/// `s` without `id`.
pub open spec fn without(s: Seq<u64>, id: u64) -> Seq<u64>
    decreases s.len(),
{
    if s.len() == 0 {
        s
    } else if s.last() == id {
        without(s.drop_last(), id)
    } else {
        without(s.drop_last(), id).push(s.last())
    }
}

/// The activity of the most recently updated connection that has one.
pub open spec fn current_of(order: Seq<u64>, by: Map<u64, Option<Seq<char>>>) -> Option<Seq<char>>
    decreases order.len(),
{
    if order.len() == 0 {
        None
    } else if by.contains_key(order.last()) && by[order.last()] is Some {
        by[order.last()]
    } else {
        current_of(order.drop_last(), by)
    }
}

/// Per-connection last activity (as its JSON text), with the connections in
/// most-recently-updated order.
pub struct Activities {
    order: Vec<u64>,
    by_connection: HashMap<u64, Option<String>>,
}

pub open spec fn opt_view(v: Option<String>) -> Option<Seq<char>> {
    match v {
        Some(s) => Some(s@),
        None => None,
    }
}

proof fn lemma_push_contains(s: Seq<u64>, a: u64, x: u64)
    ensures
        s.push(a).contains(x) <==> (s.contains(x) || x == a),
{
    if s.push(a).contains(x) {
        let k = choose|k: int| 0 <= k < s.push(a).len() && s.push(a)[k] == x;
        if k < s.len() {
            assert(s[k] == x);
        }
    }
    if s.contains(x) {
        let k = choose|k: int| 0 <= k < s.len() && s[k] == x;
        assert(s.push(a)[k] == x);
    }
    if x == a {
        assert(s.push(a)[s.len() as int] == x);
    }
}

proof fn lemma_without_not_contains(s: Seq<u64>, id: u64)
    ensures
        !without(s, id).contains(id),
        forall|x: u64| x != id ==> (without(s, id).contains(x) <==> s.contains(x)),
        s.no_duplicates() ==> without(s, id).no_duplicates(),
    decreases s.len(),
{
    if s.len() > 0 {
        let d = s.drop_last();
        let w = without(d, id);
        lemma_without_not_contains(d, id);
        assert(s == d.push(s.last()));
        assert forall|x: u64| x != id implies (without(s, id).contains(x) <==> s.contains(x)) by {
            lemma_push_contains(d, s.last(), x);
            if s.last() != id {
                lemma_push_contains(w, s.last(), x);
            }
        }
        if s.last() != id {
            lemma_push_contains(w, s.last(), id);
            if s.no_duplicates() {
                assert(d.no_duplicates());
                assert(!d.contains(s.last())) by {
                    if d.contains(s.last()) {
                        let j = choose|j: int| 0 <= j < d.len() && d[j] == s.last();
                        assert(s[j] == s[s.len() - 1]);
                    }
                }
                assert(!w.contains(s.last()));
                assert forall|a: int, b: int| 0 <= a < w.push(s.last()).len() && 0 <= b < w.push(s.last()).len() && a != b
                    implies w.push(s.last())[a] != w.push(s.last())[b] by {
                    if a == w.len() {
                        assert(w[b] == w.push(s.last())[b]);
                    } else if b == w.len() {
                        assert(w[a] == w.push(s.last())[a]);
                    }
                }
            }
        } else {
            if s.no_duplicates() {
                assert(d.no_duplicates());
            }
        }
    }
}

impl Activities {
    pub closed spec fn order(&self) -> Seq<u64> {
        self.order@
    }

    pub closed spec fn activities(&self) -> Map<u64, Option<Seq<char>>> {
        self.by_connection@.map_values(|v: Option<String>| opt_view(v))
    }

    /// Each connection appears once in the order, and exactly the connections
    /// in the order have an entry.
    pub closed spec fn wf(&self) -> bool {
        &&& self.order@.no_duplicates()
        &&& forall|id: u64| self.order@.contains(id) <==> #[trigger] self.by_connection@.contains_key(id)
    }

    /// No connections.
    pub fn new() -> (r: Self)
        ensures
            r.wf(),
            r.order() == Seq::<u64>::empty(),
            r.activities() == Map::<u64, Option<Seq<char>>>::empty(),
    {
        let r = Activities { order: Vec::new(), by_connection: HashMap::new() };
        assert(r.activities() =~= Map::<u64, Option<Seq<char>>>::empty());
        r
    }

    /// A new connection, with no activity yet, as the most recent one.
    /// Connection ids are never reused.
    pub fn connect(&mut self, id: u64)
        requires
            old(self).wf(),
            !old(self).order().contains(id),
        ensures
            final(self).wf(),
            final(self).order() == old(self).order().push(id),
            final(self).activities() == old(self).activities().insert(id, None),
    {
        proof {
            assert(!self.by_connection@.contains_key(id));
        }
        self.order.push(id);
        self.by_connection.insert(id, None);
        proof {
            assert(self.activities() =~= old(self).activities().insert(id, None));
            assert forall|x: u64| self.order@.contains(x) <==> #[trigger] self.by_connection@.contains_key(x) by {
                if x != id && self.order@.contains(x) {
                    let k = choose|k: int| 0 <= k < self.order@.len() && self.order@[k] == x;
                    assert(old(self).order@[k] == x);
                }
                if x == id {
                    assert(self.order@[self.order@.len() - 1] == id);
                }
                if x != id && old(self).order@.contains(x) {
                    let k = choose|k: int| 0 <= k < old(self).order@.len() && old(self).order@[k] == x;
                    assert(self.order@[k] == x);
                }
            }
            assert forall|a: int, b: int| 0 <= a < self.order@.len() && 0 <= b < self.order@.len() && a != b
                implies self.order@[a] != self.order@[b] by {
                if a == old(self).order@.len() {
                    assert(old(self).order@.contains(self.order@[b]));
                } else if b == old(self).order@.len() {
                    assert(old(self).order@.contains(self.order@[a]));
                }
            }
        }
    }

    fn remove_from_order(&mut self, id: u64)
        ensures
            final(self).order@ == without(old(self).order@, id),
            final(self).by_connection@ == old(self).by_connection@,
    {
        let mut kept: Vec<u64> = Vec::new();
        let mut i: usize = 0;
        while i < self.order.len()
            invariant
                i <= self.order@.len(),
                kept@ == without(self.order@.take(i as int), id),
            decreases self.order@.len() - i,
        {
            let x = self.order[i];
            assert(self.order@.take(i + 1).drop_last() == self.order@.take(i as int));
            if x != id {
                kept.push(x);
            }
            i = i + 1;
        }
        assert(self.order@.take(i as int) == self.order@);
        self.order = kept;
    }

    /// Records a connection's activity (or its clearing) and makes it the most
    /// recently updated one.
    pub fn set_activity(&mut self, id: u64, activity: Option<String>)
        requires
            old(self).wf(),
        ensures
            final(self).wf(),
            final(self).order() == without(old(self).order(), id).push(id),
            final(self).activities() == old(self).activities().insert(id, opt_view(activity)),
    {
        let ghost av = opt_view(activity);
        self.by_connection.insert(id, activity);
        self.remove_from_order(id);
        self.order.push(id);
        proof {
            let o = old(self).order@;
            lemma_without_not_contains(o, id);
            assert(self.activities() =~= old(self).activities().insert(id, av));
            let w = without(o, id);
            assert forall|x: u64| self.order@.contains(x) <==> #[trigger] self.by_connection@.contains_key(x) by {
                if x == id {
                    assert(self.order@[self.order@.len() - 1] == id);
                } else {
                    assert(w.contains(x) <==> o.contains(x));
                    if w.contains(x) {
                        let k = choose|k: int| 0 <= k < w.len() && w[k] == x;
                        assert(self.order@[k] == x);
                    }
                    if self.order@.contains(x) {
                        let k = choose|k: int| 0 <= k < self.order@.len() && self.order@[k] == x;
                        assert(k < w.len());
                        assert(w[k] == x);
                    }
                }
            }
            assert forall|a: int, b: int| 0 <= a < self.order@.len() && 0 <= b < self.order@.len() && a != b
                implies self.order@[a] != self.order@[b] by {
                if a == w.len() {
                    assert(w.contains(self.order@[b]) || b == w.len());
                } else if b == w.len() {
                    assert(w.contains(self.order@[a]));
                }
            }
        }
    }

    /// Forgets a connection that has closed.
    pub fn disconnect(&mut self, id: u64)
        requires
            old(self).wf(),
        ensures
            final(self).wf(),
            final(self).order() == without(old(self).order(), id),
            final(self).activities() == old(self).activities().remove(id),
            !final(self).order().contains(id),
            !final(self).activities().dom().contains(id),
    {
        self.remove_from_order(id);
        self.by_connection.remove(&id);
        proof {
            lemma_without_not_contains(old(self).order@, id);
            assert(self.activities() =~= old(self).activities().remove(id));
        }
    }

    /// The current activity: that of the most recently updated connection
    /// that has one.
    pub fn current(&self) -> (r: Option<String>)
        requires
            self.wf(),
        ensures
            opt_view(r) == current_of(self.order(), self.activities()),
    {
        let mut i = self.order.len();
        assert(self.order@.take(i as int) == self.order@);
        while i > 0
            invariant
                i <= self.order@.len(),
                current_of(self.order(), self.activities()) == current_of(self.order@.take(i as int), self.activities()),
            decreases i,
        {
            let id = self.order[i - 1];
            let ghost t = self.order@.take(i as int);
            assert(t.last() == id);
            assert(t.drop_last() == self.order@.take(i - 1));
            match self.by_connection.get(&id) {
                Some(Some(a)) => {
                    return Some(a.clone());
                },
                _ => {},
            }
            i = i - 1;
        }
        None
    }
}

proof fn lemma_current_ignores_absent(order: Seq<u64>, m1: Map<u64, Option<Seq<char>>>, m2: Map<u64, Option<Seq<char>>>)
    requires
        forall|x: u64| order.contains(x) ==> (m1.contains_key(x) == m2.contains_key(x)
            && (m1.contains_key(x) ==> m1[x] == m2[x])),
    ensures
        current_of(order, m1) == current_of(order, m2),
    decreases order.len(),
{
    if order.len() > 0 {
        let d = order.drop_last();
        assert(order.contains(order.last())) by {
            assert(order[order.len() - 1] == order.last());
        }
        assert forall|x: u64| d.contains(x) implies (m1.contains_key(x) == m2.contains_key(x)
            && (m1.contains_key(x) ==> m1[x] == m2[x])) by {
            let k = choose|k: int| 0 <= k < d.len() && d[k] == x;
            assert(order[k] == x);
            assert(order.contains(x));
        }
        lemma_current_ignores_absent(d, m1, m2);
    }
}

/// The bookkeeping stays consistent: no connection appears twice in the
/// order, and the connections in the order are exactly those with an entry.
/// Every `Activities` the methods above build or leave behind is `wf`.
pub proof fn law_activities_consistent(a: Activities)
    requires
        a.wf(),
    ensures
        a.order().no_duplicates(),
        forall|id: u64| #[trigger] a.order().contains(id) <==> a.activities().dom().contains(id),
{
    assert(a.activities().dom() =~= a.by_connection@.dom());
}

/// Last write wins: once a connection publishes an activity, that activity
/// is the current one.
pub proof fn law_latest_activity_is_current(order: Seq<u64>, by: Map<u64, Option<Seq<char>>>, id: u64, activity: Seq<char>)
    ensures
        current_of(without(order, id).push(id), by.insert(id, Some(activity))) == Some(activity),
{
    let o = without(order, id).push(id);
    assert(o.last() == id);
}

/// A connection that closes and one that clears its activity leave the same
/// current activity: the newest among the other connections.
pub proof fn law_close_same_as_clear(order: Seq<u64>, by: Map<u64, Option<Seq<char>>>, id: u64)
    ensures
        current_of(without(order, id), by.remove(id)) == current_of(without(order, id).push(id), by.insert(id, None)),
        current_of(without(order, id), by.remove(id)) == current_of(without(order, id), by),
{
    let w = without(order, id);
    lemma_without_not_contains(order, id);
    assert(w.push(id).drop_last() == w);
    lemma_current_ignores_absent(w, by.remove(id), by.insert(id, None));
    lemma_current_ignores_absent(w, by.remove(id), by);
}

} // verus!
