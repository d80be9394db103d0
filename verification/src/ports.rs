//! The pool of free virtual ports of one node.

use std::collections::VecDeque;
use vstd::prelude::*;

verus! {

/// Virtual ports are the numbers below this limit.
pub const PORT_LIMIT: u16 = 60000;

/// Every virtual port there is.
pub open spec fn all_ports() -> Set<u16> {
    Set::new(|p: u16| p < PORT_LIMIT)
}

/// `s` holds its items in strictly rising order.
pub open spec fn ascending(s: Seq<u16>) -> bool {
    forall|i: int, j: int| 0 <= i < j < s.len() ==> s[i] < s[j]
}

/// `p` is in `s` and no item of `s` is below it.
pub open spec fn is_lowest(s: Set<u16>, p: u16) -> bool {
    s.contains(p) && forall|q: u16| s.contains(q) ==> p <= q
}

/// The free ports of one node, kept in rising order so that the front of the
/// queue is always the lowest free port.
pub struct PortPool {
    queue: VecDeque<u16>,
}

proof fn lemma_remove_at(s: Seq<u16>, i: int)
    requires
        ascending(s),
        0 <= i < s.len(),
    ensures
        ascending(s.remove(i)),
        s.remove(i).to_set() == s.to_set().remove(s[i]),
{
    let t = s.remove(i);
    assert forall|a: int, b: int| 0 <= a < b < t.len() implies t[a] < t[b] by {
        let a2 = if a < i { a } else { a + 1 };
        let b2 = if b < i { b } else { b + 1 };
        assert(t[a] == s[a2] && t[b] == s[b2]);
    }
    assert forall|p: u16| t.to_set().contains(p) <==> s.to_set().remove(s[i]).contains(p) by {
        if t.contains(p) {
            let k = choose|k: int| 0 <= k < t.len() && t[k] == p;
            let k2 = if k < i { k } else { k + 1 };
            assert(s[k2] == p);
        }
        if s.contains(p) && p != s[i] {
            let k = choose|k: int| 0 <= k < s.len() && s[k] == p;
            let k2 = if k < i { k } else { k - 1 };
            assert(t[k2] == p);
        }
    }
    assert(t.to_set() =~= s.to_set().remove(s[i]));
}

proof fn lemma_insert_at(s: Seq<u16>, i: int, v: u16)
    requires
        ascending(s),
        0 <= i <= s.len(),
        forall|k: int| 0 <= k < i ==> s[k] < v,
        forall|k: int| i <= k < s.len() ==> v < s[k],
    ensures
        ascending(s.insert(i, v)),
        s.insert(i, v).to_set() == s.to_set().insert(v),
{
    let t = s.insert(i, v);
    assert forall|a: int, b: int| 0 <= a < b < t.len() implies t[a] < t[b] by {
        let a2 = if a < i { a } else { a - 1 };
        let b2 = if b < i { b } else { b - 1 };
        if a != i {
            assert(t[a] == s[a2]);
        }
        if b != i {
            assert(t[b] == s[b2]);
        }
    }
    assert forall|p: u16| t.to_set().contains(p) <==> s.to_set().insert(v).contains(p) by {
        if t.contains(p) {
            let k = choose|k: int| 0 <= k < t.len() && t[k] == p;
            if k != i {
                let k2 = if k < i { k } else { k - 1 };
                assert(s[k2] == p);
            }
        }
        if s.contains(p) {
            let k = choose|k: int| 0 <= k < s.len() && s[k] == p;
            let k2 = if k < i { k } else { k + 1 };
            assert(t[k2] == p);
        }
        if p == v {
            assert(t[i] == p);
        }
    }
    assert(t.to_set() =~= s.to_set().insert(v));
}

/// The free ports after the ports of `taken` were bound one after another.
pub open spec fn free_after(free: Set<u16>, taken: Seq<u16>) -> Set<u16>
    decreases taken.len(),
{
    if taken.len() == 0 {
        free
    } else {
        free_after(free.remove(taken[0]), taken.drop_first())
    }
}

/// The bound ports after the ports of `taken` were bound one after another.
pub open spec fn bound_after(bound: Set<u16>, taken: Seq<u16>) -> Set<u16>
    decreases taken.len(),
{
    if taken.len() == 0 {
        bound
    } else {
        bound_after(bound.insert(taken[0]), taken.drop_first())
    }
}

/// Each port of `taken` is free when its turn comes.
pub open spec fn free_in_turn(free: Set<u16>, taken: Seq<u16>) -> bool
    decreases taken.len(),
{
    taken.len() == 0 || (free.contains(taken[0]) && free_in_turn(
        free.remove(taken[0]),
        taken.drop_first(),
    ))
}

/// Binding ports that are each free in their turn binds exactly those ports,
/// each of them once, and takes exactly those out of the free ports.
pub proof fn lemma_explicit_binds(free: Set<u16>, bound: Set<u16>, taken: Seq<u16>)
    requires
        free_in_turn(free, taken),
    ensures
        taken.no_duplicates(),
        taken.to_set().subset_of(free),
        free_after(free, taken) == free.difference(taken.to_set()),
        bound_after(bound, taken) == bound.union(taken.to_set()),
    decreases taken.len(),
{
    if taken.len() == 0 {
        assert(taken.to_set() =~= Set::<u16>::empty());
        assert(free.difference(taken.to_set()) =~= free);
        assert(bound.union(taken.to_set()) =~= bound);
    } else {
        let first = taken[0];
        let rest = taken.drop_first();
        lemma_explicit_binds(free.remove(first), bound.insert(first), rest);
        assert forall|i: int| 0 <= i < rest.len() implies rest[i] != first by {
            assert(rest.to_set().contains(rest[i]));
        }
        assert forall|i: int, j: int| 0 <= i < taken.len() && 0 <= j < taken.len() && i != j implies taken[i] != taken[j] by {
            if i > 0 {
                assert(taken[i] == rest[i - 1]);
            }
            if j > 0 {
                assert(taken[j] == rest[j - 1]);
            }
        }
        assert forall|p: u16| taken.to_set().contains(p) <==> rest.to_set().insert(first).contains(p) by {
            if taken.contains(p) {
                let k = choose|k: int| 0 <= k < taken.len() && taken[k] == p;
                if k > 0 {
                    assert(rest[k - 1] == p);
                }
            }
            if rest.contains(p) {
                let k = choose|k: int| 0 <= k < rest.len() && rest[k] == p;
                assert(taken[k + 1] == p);
            }
            if p == first {
                assert(taken[0] == p);
            }
        }
        assert(taken.to_set() =~= rest.to_set().insert(first));
        assert(free_after(free, taken) =~= free.difference(taken.to_set()));
        assert(bound_after(bound, taken) =~= bound.union(taken.to_set()));
    }
}

/// Each port of `taken` is the lowest free port when its turn comes.
pub open spec fn lowest_in_turn(free: Set<u16>, taken: Seq<u16>) -> bool
    decreases taken.len(),
{
    taken.len() == 0 || (is_lowest(free, taken[0]) && lowest_in_turn(
        free.remove(taken[0]),
        taken.drop_first(),
    ))
}

/// Ports that are bound one after another, each as the lowest free port of
/// its turn, come in strictly rising order, and the first of them is the
/// lowest port that was free at the start.
pub proof fn lemma_automatic_binds_rise(free: Set<u16>, taken: Seq<u16>)
    requires
        lowest_in_turn(free, taken),
    ensures
        free_in_turn(free, taken),
        ascending(taken),
        taken.len() > 0 ==> is_lowest(free, taken[0]),
    decreases taken.len(),
{
    if taken.len() > 0 {
        let first = taken[0];
        let rest = taken.drop_first();
        lemma_automatic_binds_rise(free.remove(first), rest);
        lemma_explicit_binds(free.remove(first), Set::<u16>::empty(), rest);
        assert forall|i: int, j: int| 0 <= i < j < taken.len() implies taken[i] < taken[j] by {
            assert(taken[j] == rest[j - 1]);
            assert(rest.to_set().contains(rest[j - 1]));
            if i > 0 {
                assert(taken[i] == rest[i - 1]);
            } else {
                assert(free.remove(first).contains(taken[j]));
            }
        }
    }
}

/// As long as no port is given back, the lowest free port rises: after the
/// lowest port of `free` was taken, the lowest of what is left of it, in
/// whole or in part, is a higher one.
pub proof fn lemma_lowest_rises(free: Set<u16>, first: u16, later: Set<u16>, second: u16)
    requires
        is_lowest(free, first),
        later.subset_of(free.remove(first)),
        is_lowest(later, second),
    ensures
        first < second,
{
    assert(free.remove(first).contains(second));
}

/// With every port free, the lowest free port is port 0.
pub proof fn lemma_lowest_of_all()
    ensures
        is_lowest(all_ports(), 0),
{
}

impl PortPool {
    /// The free ports in the order in which the pool holds them.
    pub closed spec fn order(&self) -> Seq<u16> {
        self.queue@
    }

    /// The set of free ports.
    pub open spec fn view(&self) -> Set<u16> {
        self.order().to_set()
    }

    /// The pool holds each free port once, in rising order, and nothing that
    /// is not a virtual port.
    pub open spec fn wf(&self) -> bool {
        &&& ascending(self.order())
        &&& forall|i: int| 0 <= i < self.order().len() ==> self.order()[i] < PORT_LIMIT
    }

    /// A pool in which every virtual port is free.
    pub fn new() -> (pool: PortPool)
        ensures
            pool.wf(),
            pool@ == all_ports(),
    {
        let mut queue: VecDeque<u16> = VecDeque::new();
        let mut next: u16 = 0;
        while next < PORT_LIMIT
            invariant
                next <= PORT_LIMIT,
                queue@.len() == next,
                forall|k: int| 0 <= k < next ==> queue@[k] == k,
            decreases PORT_LIMIT - next,
        {
            queue.push_back(next);
            next = next + 1;
        }
        let pool = PortPool { queue };
        proof {
            assert forall|p: u16| pool@.contains(p) <==> all_ports().contains(p) by {
                if p < PORT_LIMIT {
                    assert(pool.order()[p as int] == p);
                }
            }
            assert(pool@ =~= all_ports());
        }
        pool
    }

    /// How many ports are free.
    pub fn len(&self) -> (n: usize)
        ensures
            n == self.order().len(),
    {
        self.queue.len()
    }

    /// Where `port` stands among the ports that are at least as large: the
    /// number of free ports below it.
    fn rank(&self, port: u16) -> (at: usize)
        requires
            self.wf(),
        ensures
            at <= self.order().len(),
            forall|k: int| 0 <= k < at ==> self.order()[k] < port,
            forall|k: int| at <= k < self.order().len() ==> port <= self.order()[k],
    {
        let n = self.queue.len();
        let mut at: usize = 0;
        while at < n && self.queue[at] < port
            invariant
                self.wf(),
                n == self.queue@.len(),
                at <= n,
                forall|k: int| 0 <= k < at ==> self.queue@[k] < port,
            decreases n - at,
        {
            at = at + 1;
        }
        at
    }

    /// Whether `port` is free.
    pub fn contains(&self, port: u16) -> (found: bool)
        requires
            self.wf(),
        ensures
            found == self@.contains(port),
    {
        let at = self.rank(port);
        let found = at < self.queue.len() && self.queue[at] == port;
        proof {
            if self@.contains(port) {
                let k = choose|k: int| 0 <= k < self.order().len() && self.order()[k] == port;
                assert(k == at);
            }
        }
        found
    }

    /// Takes the free port `port` out of the pool.
    pub fn take(&mut self, port: u16)
        requires
            old(self).wf(),
            old(self)@.contains(port),
        ensures
            final(self).wf(),
            final(self)@ == old(self)@.remove(port),
    {
        let at = self.rank(port);
        proof {
            let k = choose|k: int| 0 <= k < self.order().len() && self.order()[k] == port;
            if at < k {
                assert(self.order()[at as int] < self.order()[k]);
            }
            assert(k == at);
            lemma_remove_at(self.queue@, at as int);
        }
        let _ = self.queue.remove(at);
    }

    /// Takes the lowest free port out of the pool, if any port is free.
    pub fn take_lowest(&mut self) -> (taken: Option<u16>)
        requires
            old(self).wf(),
        ensures
            final(self).wf(),
            match taken {
                Some(p) => is_lowest(old(self)@, p) && final(self)@ == old(self)@.remove(p),
                None => old(self)@ == Set::<u16>::empty() && *final(self) == *old(self),
            },
    {
        if self.queue.len() == 0 {
            proof {
                assert(self@ =~= Set::<u16>::empty());
            }
            return None;
        }
        proof {
            if self.queue@.len() > 0 {
                lemma_remove_at(self.queue@, 0);
                assert(self.queue@.remove(0) =~= self.queue@.subrange(1, self.queue@.len() as int));
                assert forall|q: u16| self@.contains(q) implies self.queue@[0] <= q by {
                    let k = choose|k: int| 0 <= k < self.order().len() && self.order()[k] == q;
                    assert(self.queue@[0] <= self.queue@[k]);
                }
                assert(self@.contains(self.queue@[0]));
            } else {
                assert(self@ =~= Set::<u16>::empty());
            }
        }
        self.queue.pop_front()
    }

    /// Puts `port` back among the free ports; a port that is free already
    /// stays free once.
    pub fn release(&mut self, port: u16)
        requires
            old(self).wf(),
            port < PORT_LIMIT,
        ensures
            final(self).wf(),
            final(self)@ == old(self)@.insert(port),
    {
        let at = self.rank(port);
        if at < self.queue.len() && self.queue[at] == port {
            proof {
                assert(self@.contains(port));
                assert(self@.insert(port) =~= self@);
            }
        } else {
            proof {
                lemma_insert_at(self.queue@, at as int, port);
            }
            self.queue.insert(at, port);
        }
    }
}

} // verus!
