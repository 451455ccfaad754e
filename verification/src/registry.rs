//! Sets of canister principals: the platform orchestrator's controlled
//! canisters and a subnet's canister pools.
use vstd::prelude::*;
use crate::controllers::{ids, list_contains};
use crate::principal::{Principal, principal_lt, strictly_sorted, lemma_lt_irreflexive, lemma_lt_asymmetric, lemma_lt_transitive, lemma_lt_total};

verus! {

/// The strictly increasing sequence that holds exactly the members of `s`
/// (it exists and is unique for every finite set: `lemma_sorted_form`).
pub open spec fn sorted_form(s: Set<Seq<u8>>) -> Seq<Seq<u8>> {
    choose|q: Seq<Seq<u8>>| strictly_sorted(q) && q.to_set() == s
}

/// The page of `s` that skips `start` items and takes at most `limit`.
pub open spec fn page_of(s: Seq<Seq<u8>>, start: int, limit: int) -> Seq<Seq<u8>> {
    let lo = if start < s.len() { start } else { s.len() as int };
    let hi = if lo + limit < s.len() { lo + limit } else { s.len() as int };
    s.subrange(lo, hi)
}

proof fn lemma_ids_push(s: Seq<Principal>, p: Principal)
    ensures
        ids(s.push(p)) == ids(s).push(p@),
{
    assert(ids(s.push(p)) =~= ids(s).push(p@));
}

proof fn lemma_push_to_set(s: Seq<Seq<u8>>, x: Seq<u8>)
    ensures
        s.push(x).to_set() == s.to_set().insert(x),
{
    let t = s.push(x);
    assert forall|e: Seq<u8>| t.to_set().contains(e) <==> s.to_set().insert(x).contains(e) by {
        if t.to_set().contains(e) {
            let k = choose|k: int| 0 <= k < t.len() && t[k] == e;
            if k < s.len() {
                assert(s[k] == e);
            }
        }
        if s.to_set().contains(e) {
            let k = choose|k: int| 0 <= k < s.len() && s[k] == e;
            assert(t[k] == e);
        }
        if e == x {
            assert(t[s.len() as int] == x);
        }
    }
    assert(t.to_set() =~= s.to_set().insert(x));
}

proof fn lemma_take_push(s: Seq<Seq<u8>>, i: int)
    requires
        0 <= i < s.len(),
    ensures
        s.take(i + 1) == s.take(i).push(s[i]),
        s.take(i + 1).to_set() == s.take(i).to_set().insert(s[i]),
{
    assert(s.take(i + 1) =~= s.take(i).push(s[i]));
    lemma_push_to_set(s.take(i), s[i]);
}

proof fn lemma_remove_keeps_no_duplicates(s: Seq<Seq<u8>>, i: int)
    requires
        0 <= i < s.len(),
        s.no_duplicates(),
    ensures
        s.remove(i).no_duplicates(),
        s.remove(i).to_set() == s.to_set().remove(s[i]),
{
    let t = s.remove(i);
    assert forall|a: int, b: int| 0 <= a < t.len() && 0 <= b < t.len() && a != b implies t[a] != t[b] by {
        let a2 = if a < i { a } else { a + 1 };
        let b2 = if b < i { b } else { b + 1 };
        assert(t[a] == s[a2] && t[b] == s[b2]);
    }
    assert forall|e: Seq<u8>| t.to_set().contains(e) <==> s.to_set().remove(s[i]).contains(e) by {
        if t.to_set().contains(e) {
            let k = choose|k: int| 0 <= k < t.len() && t[k] == e;
            let k2 = if k < i { k } else { k + 1 };
            assert(s[k2] == e);
        }
        if s.to_set().remove(s[i]).contains(e) {
            let k = choose|k: int| 0 <= k < s.len() && s[k] == e;
            assert(k != i);
            if k < i {
                assert(t[k] == e);
            } else {
                assert(t[k - 1] == e);
            }
        }
    }
    assert(t.to_set() =~= s.to_set().remove(s[i]));
}

/// A set of principals, each held once.
pub struct PrincipalSet {
    items: Vec<Principal>,
}

impl View for PrincipalSet {
    type V = Set<Seq<u8>>;

    closed spec fn view(&self) -> Set<Seq<u8>> {
        ids(self.items@).to_set()
    }
}

/// Two strictly increasing sequences with the same members are equal.
pub proof fn lemma_sorted_unique(x: Seq<Seq<u8>>, y: Seq<Seq<u8>>)
    requires
        strictly_sorted(x),
        strictly_sorted(y),
        x.to_set() == y.to_set(),
    ensures
        x == y,
    decreases x.len(),
{
    if x.len() == 0 {
        if y.len() > 0 {
            assert(y.to_set().contains(y[0]));
        }
        assert(y.len() == 0);
        assert(x =~= y);
    } else {
        assert(x.to_set().contains(x[0]));
        assert(y.len() > 0);
        assert(y.to_set().contains(y[0]));
        let j = choose|j: int| 0 <= j < y.len() && y[j] == x[0];
        let i = choose|i: int| 0 <= i < x.len() && x[i] == y[0];
        if j > 0 {
            assert(principal_lt(y[0], y[j]));
            if i > 0 {
                assert(principal_lt(x[0], x[i]));
                lemma_lt_transitive(y[0], x[0], y[0]);
            }
            lemma_lt_irreflexive(y[0]);
        }
        assert(x[0] == y[0]);
        let xs = x.drop_first();
        let ys = y.drop_first();
        assert forall|e: Seq<u8>| xs.to_set().contains(e) implies ys.to_set().contains(e) by {
            let k = choose|k: int| 0 <= k < xs.len() && xs[k] == e;
            assert(x[k + 1] == e);
            assert(principal_lt(x[0], x[k + 1]));
            assert(y.to_set().contains(e));
            let m = choose|m: int| 0 <= m < y.len() && y[m] == e;
            if m == 0 {
                lemma_lt_irreflexive(e);
            }
            assert(ys[m - 1] == e);
        }
        assert forall|e: Seq<u8>| ys.to_set().contains(e) implies xs.to_set().contains(e) by {
            let k = choose|k: int| 0 <= k < ys.len() && ys[k] == e;
            assert(y[k + 1] == e);
            assert(principal_lt(y[0], y[k + 1]));
            assert(x.to_set().contains(e));
            let m = choose|m: int| 0 <= m < x.len() && x[m] == e;
            if m == 0 {
                lemma_lt_irreflexive(e);
            }
            assert(xs[m - 1] == e);
        }
        assert(xs.to_set() =~= ys.to_set());
        assert forall|a: int, b: int| 0 <= a < b < xs.len() implies principal_lt(#[trigger] xs[a], #[trigger] xs[b]) by {
            assert(xs[a] == x[a + 1] && xs[b] == x[b + 1]);
        }
        assert forall|a: int, b: int| 0 <= a < b < ys.len() implies principal_lt(#[trigger] ys[a], #[trigger] ys[b]) by {
            assert(ys[a] == y[a + 1] && ys[b] == y[b + 1]);
        }
        lemma_sorted_unique(xs, ys);
        assert(x.len() == y.len());
        assert forall|k: int| 0 <= k < x.len() implies x[k] == y[k] by {
            if k > 0 {
                assert(x[k] == xs[k - 1] && y[k] == ys[k - 1]);
            }
        }
        assert(x =~= y);
    }
}

/// A strictly increasing sequence is the sorted form of its members.
pub proof fn lemma_sorted_form(q: Seq<Seq<u8>>)
    requires
        strictly_sorted(q),
    ensures
        sorted_form(q.to_set()) == q,
{
    let s = q.to_set();
    assert(exists|r: Seq<Seq<u8>>| strictly_sorted(r) && r.to_set() == s);
    let r = sorted_form(s);
    lemma_sorted_unique(r, q);
}

proof fn lemma_insert_sorted(q: Seq<Seq<u8>>, x: Seq<u8>) -> (k: int)
    requires
        strictly_sorted(q),
        !q.contains(x),
    ensures
        0 <= k <= q.len(),
        strictly_sorted(q.insert(k, x)),
    decreases q.len(),
{
    if q.len() == 0 {
        assert(q.insert(0, x) =~= seq![x]);
        0
    } else if principal_lt(x, q[0]) {
        let r = q.insert(0, x);
        assert forall|a: int, b: int| 0 <= a < b < r.len() implies principal_lt(#[trigger] r[a], #[trigger] r[b]) by {
            if a == 0 {
                assert(r[b] == q[b - 1]);
                if b > 1 {
                    assert(principal_lt(q[0], q[b - 1]));
                    lemma_lt_transitive(x, q[0], q[b - 1]);
                }
            } else {
                assert(r[a] == q[a - 1] && r[b] == q[b - 1]);
            }
        }
        0
    } else {
        assert(q[0] != x) by {
            assert(q.contains(q[0]));
        }
        lemma_lt_total(x, q[0]);
        let t = q.drop_first();
        assert(!t.contains(x)) by {
            if t.contains(x) {
                let i = choose|i: int| 0 <= i < t.len() && t[i] == x;
                assert(q[i + 1] == x);
            }
        }
        assert forall|a: int, b: int| 0 <= a < b < t.len() implies principal_lt(#[trigger] t[a], #[trigger] t[b]) by {
            assert(t[a] == q[a + 1] && t[b] == q[b + 1]);
        }
        let k2 = lemma_insert_sorted(t, x);
        let u = t.insert(k2, x);
        let r = q.insert(k2 + 1, x);
        assert(r =~= seq![q[0]] + u);
        assert forall|i: int| 0 <= i < u.len() implies principal_lt(q[0], #[trigger] u[i]) by {
            if i < k2 {
                assert(u[i] == t[i] && t[i] == q[i + 1]);
            } else if i > k2 {
                assert(u[i] == t[i - 1] && t[i - 1] == q[i]);
            } else {
                assert(u[i] == x);
            }
        }
        assert forall|a: int, b: int| 0 <= a < b < r.len() implies principal_lt(#[trigger] r[a], #[trigger] r[b]) by {
            if a == 0 {
                assert(r[b] == u[b - 1]);
            } else {
                assert(r[a] == u[a - 1] && r[b] == u[b - 1]);
            }
        }
        k2 + 1
    }
}

/// Every finite set of principals has a sorted form: a strictly increasing
/// sequence that holds exactly its members, one for each.
pub proof fn lemma_sorted_form_exists(s: Set<Seq<u8>>)
    requires
        s.finite(),
    ensures
        strictly_sorted(sorted_form(s)),
        sorted_form(s).to_set() == s,
        sorted_form(s).len() == s.len(),
    decreases s.len(),
{
    if s.len() == 0 {
        let q = Seq::<Seq<u8>>::empty();
        assert(q.to_set() =~= s);
        lemma_sorted_form(q);
    } else {
        let x = s.choose();
        let t = s.remove(x);
        lemma_sorted_form_exists(t);
        let q = sorted_form(t);
        assert(!q.contains(x)) by {
            if q.contains(x) {
                assert(q.to_set().contains(x));
            }
        }
        let k = lemma_insert_sorted(q, x);
        let r = q.insert(k, x);
        assert forall|e: Seq<u8>| r.to_set().contains(e) <==> s.contains(e) by {
            if r.to_set().contains(e) {
                let i = choose|i: int| 0 <= i < r.len() && r[i] == e;
                if i < k {
                    assert(r[i] == q[i]);
                    assert(q.to_set().contains(e));
                } else if i > k {
                    assert(r[i] == q[i - 1]);
                    assert(q.to_set().contains(e));
                }
            }
            if s.contains(e) {
                if e == x {
                    assert(r[k] == x);
                } else {
                    assert(t.contains(e));
                    assert(q.to_set().contains(e));
                    let i = choose|i: int| 0 <= i < q.len() && q[i] == e;
                    if i < k {
                        assert(r[i] == e);
                    } else {
                        assert(r[i + 1] == e);
                    }
                }
            }
        }
        assert(r.to_set() =~= s);
        lemma_sorted_form(r);
        lemma_strictly_sorted_no_duplicates(q);
        q.unique_seq_to_set();
    }
}

proof fn lemma_strictly_sorted_no_duplicates(q: Seq<Seq<u8>>)
    requires
        strictly_sorted(q),
    ensures
        q.no_duplicates(),
{
    assert forall|i: int, j: int| 0 <= i < q.len() && 0 <= j < q.len() && i != j implies q[i] != q[j] by {
        if q[i] == q[j] {
            if i < j {
                assert(principal_lt(q[i], q[j]));
            } else {
                assert(principal_lt(q[j], q[i]));
            }
            lemma_lt_irreflexive(q[i]);
        }
    }
}

impl PrincipalSet {
    #[verifier::type_invariant]
    spec fn distinct(self) -> bool {
        ids(self.items@).no_duplicates()
    }

    /// The empty set.
    pub fn new() -> (r: PrincipalSet)
        ensures
            r@ == Set::<Seq<u8>>::empty(),
    {
        let r = PrincipalSet { items: Vec::new() };
        assert(ids(r.items@).to_set() =~= Set::<Seq<u8>>::empty());
        r
    }

    /// Whether `p` is a member.
    pub fn contains(&self, p: &Principal) -> (r: bool)
        ensures
            r == self@.contains(p@),
    {
        list_contains(&self.items, p)
    }

    /// The number of members.
    pub fn len(&self) -> (r: usize)
        ensures
            r == self@.len(),
            self@.finite(),
    {
        proof {
            use_type_invariant(self);
            ids(self.items@).unique_seq_to_set();
        }
        self.items.len()
    }

    /// A set of principals is always finite.
    pub proof fn lemma_finite(&self)
        ensures
            self@.finite(),
    {
        vstd::seq_lib::seq_to_set_is_finite(ids(self.items@));
    }

    /// The number of members as a `u64`.
    pub fn count(&self) -> (r: u64)
        ensures
            r == self@.len(),
            self@.finite(),
    {
        let n = self.len();
        n as u64
    }

    /// Adds `p`; returns whether it was new.
    pub fn insert(&mut self, p: Principal) -> (r: bool)
        ensures
            final(self)@ == old(self)@.insert(p@),
            r == !old(self)@.contains(p@),
    {
        proof {
            use_type_invariant(&*self);
        }
        if self.contains(&p) {
            assert(old(self)@.insert(p@) =~= old(self)@);
            return false;
        }
        let ghost before = ids(self.items@);
        let ghost pv = p@;
        let mut items: Vec<Principal> = Vec::new();
        std::mem::swap(&mut items, &mut self.items);
        items.push(p);
        proof {
            let after = ids(items@);
            assert(after =~= before.push(pv));
            assert(!before.contains(pv));
            assert forall|a: int, b: int| 0 <= a < after.len() && 0 <= b < after.len() && a != b implies after[a] != after[b] by {
                if a < before.len() && b < before.len() {
                    assert(after[a] == before[a] && after[b] == before[b]);
                } else if a < before.len() {
                    assert(after[a] == before[a]);
                } else if b < before.len() {
                    assert(after[b] == before[b]);
                }
            }
            lemma_push_to_set(before, pv);
        }
        self.items = items;
        true
    }

    /// Removes `p`; returns whether it was a member.
    pub fn remove(&mut self, p: &Principal) -> (r: bool)
        ensures
            final(self)@ == old(self)@.remove(p@),
            r == old(self)@.contains(p@),
    {
        proof {
            use_type_invariant(&*self);
        }
        let ghost before = ids(self.items@);
        let mut i: usize = 0;
        while i < self.items.len()
            invariant
                i <= self.items@.len(),
                ids(self.items@) == before,
                before.no_duplicates(),
                old(self)@ == before.to_set(),
                forall|j: int| 0 <= j < i ==> self.items@[j]@ != p@,
            decreases self.items@.len() - i,
        {
            if self.items[i].same_as(p) {
                let mut items: Vec<Principal> = Vec::new();
        std::mem::swap(&mut items, &mut self.items);
                let _gone = items.remove(i);
                proof {
                    let after = ids(items@);
                    assert(after =~= before.remove(i as int));
                    assert(before[i as int] == p@);
                    lemma_remove_keeps_no_duplicates(before, i as int);
                }
                self.items = items;
                return true;
            }
            i = i + 1;
        }
        proof {
            assert(!before.contains(p@)) by {
                if before.contains(p@) {
                    let k = choose|k: int| 0 <= k < before.len() && before[k] == p@;
                    assert(self.items@[k]@ == p@);
                }
            }
            assert(old(self)@.remove(p@) =~= old(self)@);
        }
        false
    }

    /// Adds every principal of `more`.
    pub fn extend(&mut self, more: Vec<Principal>)
        ensures
            final(self)@ == old(self)@.union(ids(more@).to_set()),
    {
        let ghost start = self@;
        let ghost all = ids(more@);
        let mut i: usize = 0;
        while i < more.len()
            invariant
                i <= more@.len(),
                all == ids(more@),
                self@ == start.union(all.take(i as int).to_set()),
            decreases more@.len() - i,
        {
            let p = more[i].duplicate();
            self.insert(p);
            proof {
                lemma_take_push(all, i as int);
            }
            i = i + 1;
            assert(self@ =~= start.union(all.take(i as int).to_set()));
        }
        assert(all.take(i as int) =~= all);
    }

    /// Removes the first member and returns it (in the order the members
    /// were added), or `None` when the set is empty.
    pub fn pop_first(&mut self) -> (r: Option<Principal>)
        ensures
            old(self)@.len() == 0 ==> r is None && final(self)@ == old(self)@,
            r matches Some(p) ==> old(self)@.contains(p@) && final(self)@ == old(self)@.remove(p@),
            old(self)@.len() > 0 ==> r is Some,
            old(self)@.len() > 0 ==> final(self)@.len() == old(self)@.len() - 1,
    {
        proof {
            use_type_invariant(&*self);
            ids(self.items@).unique_seq_to_set();
        }
        if self.items.len() == 0 {
            return None;
        }
        let first = self.items[0].duplicate();
        let removed = self.remove(&first);
        proof {
            assert(ids(old(self).items@)[0] == first@);
            assert(old(self)@.contains(first@));
            vstd::seq_lib::seq_to_set_is_finite(ids(old(self).items@));
        }
        Some(first)
    }

    /// All members, each once (in the set's iteration order).
    pub fn members(&self) -> (r: Vec<Principal>)
        ensures
            ids(r@).to_set() == self@,
            ids(r@).no_duplicates(),
    {
        proof {
            use_type_invariant(self);
        }
        let mut out: Vec<Principal> = Vec::new();
        let mut i: usize = 0;
        while i < self.items.len()
            invariant
                i <= self.items@.len(),
                ids(out@) == ids(self.items@).take(i as int),
            decreases self.items@.len() - i,
        {
            let p = self.items[i].duplicate();
            proof {
                lemma_ids_push(out@, p);
                assert(ids(self.items@).take(i + 1) =~= ids(self.items@).take(i as int).push(p@));
            }
            out.push(p);
            i = i + 1;
        }
        assert(ids(self.items@).take(i as int) =~= ids(self.items@));
        out
    }

    /// At most `limit` members (which ones depends on the set's iteration
    /// order), each once.
    pub fn sample(&self, limit: u64) -> (r: Vec<Principal>)
        ensures
            r@.len() == if (limit as usize) < self@.len() { (limit as usize) as nat } else { self@.len() },
            ids(r@).no_duplicates(),
            forall|i: int| 0 <= i < r@.len() ==> self@.contains(#[trigger] r@[i]@),
    {
        proof {
            use_type_invariant(self);
            ids(self.items@).unique_seq_to_set();
        }
        let n = limit as usize;
        let mut out: Vec<Principal> = Vec::new();
        let mut i: usize = 0;
        while i < self.items.len() && i < n
            invariant
                i <= self.items@.len(),
                i <= n,
                n == limit as usize,
                self@.len() == self.items@.len(),
                ids(out@) == ids(self.items@).take(i as int),
                ids(self.items@).no_duplicates(),
            decreases self.items@.len() - i,
        {
            let p = self.items[i].duplicate();
            proof {
                lemma_ids_push(out@, p);
                assert(ids(self.items@).take(i + 1) =~= ids(self.items@).take(i as int).push(p@));
            }
            out.push(p);
            i = i + 1;
        }
        proof {
            let t = ids(self.items@).take(i as int);
            assert forall|a: int, b: int| 0 <= a < t.len() && 0 <= b < t.len() && a != b implies t[a] != t[b] by {
                assert(t[a] == ids(self.items@)[a] && t[b] == ids(self.items@)[b]);
            }
            assert forall|k: int| 0 <= k < out@.len() implies self@.contains(#[trigger] out@[k]@) by {
                assert(ids(out@)[k] == ids(self.items@)[k]);
            }
        }
        out
    }

    /// The members in principal order.
    pub fn sorted(&self) -> (r: Vec<Principal>)
        ensures
            ids(r@) == sorted_form(self@),
            strictly_sorted(ids(r@)),
            ids(r@).to_set() == self@,
            r@.len() == self@.len(),
    {
        proof {
            use_type_invariant(self);
        }
        let ghost src = ids(self.items@);
        let mut out: Vec<Principal> = Vec::new();
        let mut i: usize = 0;
        while i < self.items.len()
            invariant
                i <= self.items@.len(),
                src == ids(self.items@),
                src.no_duplicates(),
                strictly_sorted(ids(out@)),
                ids(out@).to_set() == src.take(i as int).to_set(),
            decreases self.items@.len() - i,
        {
            let x = self.items[i].duplicate();
            let ghost xv = x@;
            let ghost before = ids(out@);
            proof {
                assert(!before.to_set().contains(xv)) by {
                    if before.to_set().contains(xv) {
                        assert(src.take(i as int).to_set().contains(xv));
                        let k = choose|k: int| 0 <= k < i && src.take(i as int)[k] == xv;
                        assert(src[k] == src[i as int]);
                    }
                }
            }
            let mut k: usize = 0;
            while k < out.len() && out[k].less_than(&x)
                invariant
                    k <= out@.len(),
                    ids(out@) == before,
                    xv == x@,
                    forall|m: int| 0 <= m < k ==> principal_lt(#[trigger] before[m], xv),
                decreases out@.len() - k,
            {
                assert(before[k as int] == out@[k as int]@);
                k = k + 1;
            }
            out.insert(k, x);
            proof {
                let after = ids(out@);
                assert(after =~= before.insert(k as int, xv));
                if k < before.len() {
                    assert(!principal_lt(before[k as int], xv));
                    assert(before[k as int] != xv) by {
                        assert(before.to_set().contains(before[k as int]));
                    }
                    lemma_lt_total(before[k as int], xv);
                }
                assert forall|a: int, b: int| 0 <= a < b < after.len() implies principal_lt(#[trigger] after[a], #[trigger] after[b]) by {
                    if b < k {
                        assert(after[a] == before[a] && after[b] == before[b]);
                    } else if b == k {
                        assert(after[a] == before[a]);
                    } else if a == k {
                        assert(after[b] == before[b - 1]);
                        if b - 1 > k {
                            assert(principal_lt(before[k as int], before[b - 1]));
                            lemma_lt_transitive(xv, before[k as int], before[b - 1]);
                        }
                    } else if a < k {
                        assert(after[a] == before[a] && after[b] == before[b - 1]);
                    } else {
                        assert(after[a] == before[a - 1] && after[b] == before[b - 1]);
                    }
                }
                assert(src[i as int] == xv);
                lemma_take_push(src, i as int);
                assert forall|e: Seq<u8>| after.to_set().contains(e) <==> before.to_set().insert(xv).contains(e) by {
                    if after.to_set().contains(e) {
                        let m = choose|m: int| 0 <= m < after.len() && after[m] == e;
                        if m < k {
                            assert(before[m] == e);
                        } else if m > k {
                            assert(before[m - 1] == e);
                        }
                    }
                    if before.to_set().contains(e) {
                        let m = choose|m: int| 0 <= m < before.len() && before[m] == e;
                        if m < k {
                            assert(after[m] == e);
                        } else {
                            assert(after[m + 1] == e);
                        }
                    }
                    if e == xv {
                        assert(after[k as int] == xv);
                    }
                }
                assert(after.to_set() =~= before.to_set().insert(xv));
            }
            i = i + 1;
        }
        proof {
            assert(src.take(i as int) =~= src);
            lemma_sorted_form(ids(out@));
            lemma_strictly_sorted_no_duplicates(ids(out@));
            ids(out@).unique_seq_to_set();
            src.unique_seq_to_set();
        }
        out
    }

    /// The page of the members in principal order that skips `start` of them
    /// and holds at most `limit`.
    pub fn page(&self, start: u64, limit: u64) -> (r: Vec<Principal>)
        ensures
            ids(r@) == page_of(sorted_form(self@), start as int, limit as int),
            strictly_sorted(sorted_form(self@)),
            sorted_form(self@).to_set() == self@,
            sorted_form(self@).len() == self@.len(),
    {
        let all = self.sorted();
        let n = all.len() as u64;
        let lo64 = if start < n { start } else { n };
        let hi64 = if limit < n - lo64 { lo64 + limit } else { n };
        let lo = lo64 as usize;
        let hi = hi64 as usize;
        let mut out: Vec<Principal> = Vec::new();
        let mut i: usize = lo;
        while i < hi
            invariant
                lo <= i <= hi <= all@.len(),
                ids(out@) == ids(all@).subrange(lo as int, i as int),
            decreases hi - i,
        {
            let p = all[i].duplicate();
            proof {
                lemma_ids_push(out@, p);
                assert(ids(all@).subrange(lo as int, i + 1) =~= ids(all@).subrange(lo as int, i as int).push(p@));
            }
            out.push(p);
            i = i + 1;
        }
        out
    }
}

} // verus!

verus! {

/// Two consecutive pages together are the page that spans both.
pub proof fn law_pages_concatenate(s: Seq<Seq<u8>>, start: int, a: int, b: int)
    requires
        0 <= start,
        0 <= a,
        0 <= b,
    ensures
        page_of(s, start, a) + page_of(s, start + a, b) == page_of(s, start, a + b),
{
    assert(page_of(s, start, a) + page_of(s, start + a, b) =~= page_of(s, start, a + b));
}

/// A first page at least as long as the whole sequence is all of it: with
/// the sorted form of a set (whose members it holds, each once), the page of
/// `count` members from 0 is exactly the set.
pub proof fn law_first_page_is_everything(s: Seq<Seq<u8>>, limit: int)
    requires
        limit >= s.len(),
    ensures
        page_of(s, 0, limit) == s,
{
    assert(page_of(s, 0, limit) =~= s);
}

/// The pages of a finite set of principals: consecutive pages together
/// are the page that spans both, and the page of `count` members from 0
/// holds every member, once.
pub proof fn law_pages_of_set(s: Set<Seq<u8>>, start: int, a: int, b: int)
    requires
        s.finite(),
        0 <= start,
        0 <= a,
        0 <= b,
    ensures
        page_of(sorted_form(s), start, a) + page_of(sorted_form(s), start + a, b) == page_of(sorted_form(s), start, a + b),
        page_of(sorted_form(s), 0, s.len() as int).len() == s.len(),
        page_of(sorted_form(s), 0, s.len() as int).to_set() == s,
        page_of(sorted_form(s), 0, s.len() as int).no_duplicates(),
{
    lemma_sorted_form_exists(s);
    law_pages_concatenate(sorted_form(s), start, a, b);
    law_first_page_is_everything(sorted_form(s), s.len() as int);
    lemma_strictly_sorted_no_duplicates(sorted_form(s));
}

/// A page never holds more than `limit` principals, and a page that starts
/// at or past the end is empty.
pub proof fn law_page_bounds(s: Seq<Seq<u8>>, start: int, limit: int)
    requires
        0 <= start,
        0 <= limit,
    ensures
        page_of(s, start, limit).len() <= limit,
        start >= s.len() ==> page_of(s, start, limit).len() == 0,
        start + limit <= s.len() ==> page_of(s, start, limit).len() == limit,
{
}

} // verus!
