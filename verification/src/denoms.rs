use vstd::prelude::*;

verus! {

/// A mapping from reward denomination to a value, kept as an association
/// list in insertion order. Denominations are few (one per reward asset), so
/// a linear scan is the right cost; keeping the order fixed also keeps every
/// action's outcome, including the order of the coins a claim pays out,
/// a pure function of the inputs.
///
/// Well-formedness (`wf`) is that no denomination occurs twice.
#[derive(Debug, Clone, PartialEq, Eq)]
pub struct DenomMap<V> {
    pub entries: Vec<(String, V)>,
}

impl<V> View for DenomMap<V> {
    type V = Seq<(String, V)>;

    open spec fn view(&self) -> Seq<(String, V)> {
        self.entries@
    }
}

/// The value stored under key `k`, if any: first match wins.
pub open spec fn lookup<V>(s: Seq<(String, V)>, k: Seq<char>) -> Option<V>
    decreases s.len(),
{
    if s.len() == 0 {
        None
    } else if s.first().0@ == k {
        Some(s.first().1)
    } else {
        lookup(s.drop_first(), k)
    }
}

/// The value stored under key `k`, or a given default.
pub open spec fn lookup_or<V>(s: Seq<(String, V)>, k: Seq<char>, dflt: V) -> V {
    match lookup(s, k) {
        Some(v) => v,
        None => dflt,
    }
}

/// No denomination occurs twice.
pub open spec fn keys_unique<V>(s: Seq<(String, V)>) -> bool {
    forall|i: int, j: int| 0 <= i < j < s.len() ==> s[i].0@ != s[j].0@
}

/// `s` with the first entry for `k` replaced by `(k, v)`, or `(k, v)`
/// appended when no entry for `k` exists.
pub open spec fn set_entry<V>(s: Seq<(String, V)>, k: String, v: V) -> Seq<(String, V)>
    decreases s.len(),
{
    if s.len() == 0 {
        seq![(k, v)]
    } else if s.first().0@ == k@ {
        seq![(k, v)] + s.drop_first()
    } else {
        seq![s.first()] + set_entry(s.drop_first(), k, v)
    }
}

/// Some entry of `s` is exactly the pair `p`.
pub open spec fn has_pair<V>(s: Seq<(String, V)>, p: (String, V)) -> bool {
    exists|i: int| 0 <= i < s.len() && s[i] == p
}

pub proof fn lemma_lookup_first_match<V>(s: Seq<(String, V)>, k: Seq<char>, i: int)
    requires
        0 <= i < s.len(),
        s[i].0@ == k,
        forall|j: int| 0 <= j < i ==> s[j].0@ != k,
    ensures
        lookup(s, k) == Some(s[i].1),
    decreases i,
{
    if i == 0 {
    } else {
        assert(forall|j: int| 0 <= j < i - 1 ==> s.drop_first()[j].0@ != k);
        lemma_lookup_first_match(s.drop_first(), k, i - 1);
    }
}

pub proof fn lemma_lookup_none<V>(s: Seq<(String, V)>, k: Seq<char>)
    requires
        forall|j: int| 0 <= j < s.len() ==> s[j].0@ != k,
    ensures
        lookup(s, k) is None,
    decreases s.len(),
{
    if s.len() > 0 {
        assert(forall|j: int| 0 <= j < s.len() - 1 ==> s.drop_first()[j].0@ != k);
        lemma_lookup_none(s.drop_first(), k);
    }
}

/// A missing lookup means no entry carries the key.
pub proof fn lemma_lookup_none_no_key<V>(s: Seq<(String, V)>, k: Seq<char>)
    requires
        lookup(s, k) is None,
    ensures
        forall|i: int| 0 <= i < s.len() ==> s[i].0@ != k,
    decreases s.len(),
{
    if s.len() > 0 {
        lemma_lookup_none_no_key(s.drop_first(), k);
        assert forall|i: int| 0 <= i < s.len() implies s[i].0@ != k by {
            if i > 0 {
                assert(s.drop_first()[i - 1] == s[i]);
            }
        }
    }
}

/// A found lookup names some entry.
pub proof fn lemma_lookup_some_index<V>(s: Seq<(String, V)>, k: Seq<char>) -> (i: int)
    requires
        lookup(s, k) is Some,
    ensures
        0 <= i < s.len(),
        s[i].0@ == k,
        s[i].1 == lookup(s, k)->Some_0,
    decreases s.len(),
{
    if s.first().0@ == k {
        0
    } else {
        let j = lemma_lookup_some_index(s.drop_first(), k);
        j + 1
    }
}

/// How `set_entry` relates to `lookup`, entry by entry.
pub proof fn lemma_set_entry<V>(s: Seq<(String, V)>, k: String, v: V)
    ensures
        lookup(set_entry(s, k, v), k@) == Some(v),
        forall|k2: Seq<char>|
            k2 != k@ ==> #[trigger] lookup(set_entry(s, k, v), k2) == lookup(s, k2),
        keys_unique(s) ==> keys_unique(set_entry(s, k, v)),
        lookup(s, k@) is Some ==> set_entry(s, k, v).len() == s.len(),
        lookup(s, k@) is None ==> set_entry(s, k, v) == s.push((k, v)),
        has_pair(set_entry(s, k, v), (k, v)),
        forall|p: (String, V)|
            p.0@ != k@ ==> (#[trigger] has_pair(set_entry(s, k, v), p) <==> has_pair(s, p)),
    decreases s.len(),
{
    let t = set_entry(s, k, v);
    if s.len() == 0 {
        assert(t == seq![(k, v)]);
        assert(t[0] == (k, v));
        assert forall|k2: Seq<char>| k2 != k@ implies #[trigger] lookup(t, k2) == lookup(s, k2) by {
            assert(t.first() == (k, v));
            assert(t.drop_first() =~= Seq::<(String, V)>::empty());
            assert(lookup(t.drop_first(), k2) is None);
        }
        assert forall|p: (String, V)| p.0@ != k@ implies !has_pair(t, p) by {
            assert(forall|i: int| 0 <= i < t.len() ==> t[i] == (k, v));
        }
    } else if s.first().0@ == k@ {
        assert(t == seq![(k, v)] + s.drop_first());
        assert(t[0] == (k, v));
        assert forall|k2: Seq<char>| k2 != k@ implies #[trigger] lookup(t, k2) == lookup(s, k2) by {
            assert(t.drop_first() =~= s.drop_first());
        }
        if keys_unique(s) {
            assert forall|i: int, j: int| 0 <= i < j < t.len() implies t[i].0@ != t[j].0@ by {
                assert(t[j] == s[j]);
                if i > 0 {
                    assert(t[i] == s[i]);
                } else {
                    assert(t[0].0@ == s[0].0@);
                }
            }
        }
        assert(lookup(s, k@) is Some);
        assert forall|p: (String, V)| p.0@ != k@ implies (#[trigger] has_pair(t, p) <==> has_pair(
            s,
            p,
        )) by {
            if has_pair(t, p) {
                let i = choose|i: int| 0 <= i < t.len() && t[i] == p;
                assert(i > 0);
                assert(s[i] == p);
            }
            if has_pair(s, p) {
                let i = choose|i: int| 0 <= i < s.len() && s[i] == p;
                assert(i > 0);
                assert(t[i] == p);
            }
        }
    } else {
        lemma_set_entry(s.drop_first(), k, v);
        assert(t == seq![s.first()] + set_entry(s.drop_first(), k, v));
        assert(t.first() == s.first());
        assert(t.drop_first() =~= set_entry(s.drop_first(), k, v));
        assert(lookup(t, k@) == Some(v));
        assert forall|k2: Seq<char>| k2 != k@ implies #[trigger] lookup(t, k2) == lookup(s, k2) by {
            if s.first().0@ != k2 {
                assert(lookup(t, k2) == lookup(set_entry(s.drop_first(), k, v), k2));
                assert(lookup(s, k2) == lookup(s.drop_first(), k2));
            }
        }
        if keys_unique(s) {
            assert(keys_unique(s.drop_first()));
            let u = set_entry(s.drop_first(), k, v);
            assert(keys_unique(u));
            // the head's key is neither k nor any key of the tail
            assert forall|i: int, j: int| 0 <= i < j < t.len() implies t[i].0@ != t[j].0@ by {
                if i == 0 {
                    assert(t[j] == u[j - 1]);
                    if u[j - 1].0@ == k@ && s.first().0@ == k@ {
                    }
                    if u[j - 1].0@ != k@ {
                        // u[j-1] is a pair of the tail
                        assert(has_pair(u, u[j - 1]));
                        assert(has_pair(s.drop_first(), u[j - 1]));
                        let m = choose|m: int|
                            0 <= m < s.drop_first().len() && s.drop_first()[m] == u[j - 1];
                        assert(s[m + 1] == u[j - 1]);
                        assert(s[0].0@ != s[m + 1].0@);
                    }
                } else {
                    assert(t[i] == u[i - 1] && t[j] == u[j - 1]);
                }
            }
        }
        if lookup(s, k@) is Some {
            assert(lookup(s.drop_first(), k@) is Some);
            assert(t.len() == 1 + set_entry(s.drop_first(), k, v).len());
        }
        if lookup(s, k@) is None {
            assert(lookup(s.drop_first(), k@) is None);
            assert(set_entry(s.drop_first(), k, v) == s.drop_first().push((k, v)));
            assert(t =~= s.push((k, v)));
        }
        assert forall|p: (String, V)| p.0@ != k@ implies (#[trigger] has_pair(t, p) <==> has_pair(
            s,
            p,
        )) by {
            let u = set_entry(s.drop_first(), k, v);
            if has_pair(t, p) {
                let i = choose|i: int| 0 <= i < t.len() && t[i] == p;
                if i == 0 {
                    assert(s[0] == p);
                } else {
                    assert(u[i - 1] == p);
                    assert(has_pair(u, p));
                    assert(has_pair(s.drop_first(), p));
                    let m = choose|m: int|
                        0 <= m < s.drop_first().len() && s.drop_first()[m] == p;
                    assert(s[m + 1] == p);
                }
            }
            if has_pair(s, p) {
                let i = choose|i: int| 0 <= i < s.len() && s[i] == p;
                if i == 0 {
                    assert(t[0] == p);
                } else {
                    assert(s.drop_first()[i - 1] == p);
                    assert(has_pair(s.drop_first(), p));
                    assert(has_pair(u, p));
                    let m = choose|m: int| 0 <= m < u.len() && u[m] == p;
                    assert(t[m + 1] == p);
                }
            }
        }
    }
}

/// Replacing an entry by the very pair already stored there changes nothing.
pub proof fn lemma_set_entry_same<V>(s: Seq<(String, V)>, k: String, v: V, i: int)
    requires
        keys_unique(s),
        0 <= i < s.len(),
        s[i] == (k, v),
    ensures
        set_entry(s, k, v) == s,
    decreases i,
{
    if i == 0 {
        assert(s.first().0@ == k@);
        assert(set_entry(s, k, v) =~= s);
    } else {
        assert(s[0].0@ != s[i].0@);
        assert(s.drop_first()[i - 1] == (k, v));
        assert(keys_unique(s.drop_first()));
        lemma_set_entry_same(s.drop_first(), k, v, i - 1);
        assert(set_entry(s, k, v) =~= s);
    }
}

impl<V: Copy> DenomMap<V> {
    pub open spec fn wf(&self) -> bool {
        keys_unique(self@)
    }

    pub fn new() -> (r: Self)
        ensures
            r@ == Seq::<(String, V)>::empty(),
            r.wf(),
    {
        DenomMap { entries: Vec::new() }
    }

    pub fn len(&self) -> (n: usize)
        ensures
            n == self@.len(),
    {
        self.entries.len()
    }

    pub fn get(&self, key: &String) -> (r: Option<V>)
        ensures
            r == lookup(self@, key@),
    {
        let n = self.entries.len();
        let mut i: usize = 0;
        while i < n
            invariant
                n == self@.len(),
                0 <= i <= n,
                forall|j: int| 0 <= j < i ==> self@[j].0@ != key@,
            decreases n - i,
        {
            if self.entries[i].0 == *key {
                proof {
                    lemma_lookup_first_match(self@, key@, i as int);
                }
                return Some(self.entries[i].1);
            }
            i += 1;
        }
        proof {
            lemma_lookup_none(self@, key@);
        }
        None
    }

    /// A fresh map with the same entries in the same order.
    pub fn duplicate(&self) -> (r: Self)
        ensures
            r@ == self@,
    {
        let n = self.entries.len();
        let mut out: Vec<(String, V)> = Vec::new();
        let mut i: usize = 0;
        while i < n
            invariant
                n == self@.len(),
                0 <= i <= n,
                out@ =~= self@.subrange(0, i as int),
            decreases n - i,
        {
            let e = &self.entries[i];
            let k = e.0.clone();
            out.push((k, e.1));
            proof {
                assert((k, e.1) == self@[i as int]);
                assert(out@ =~= self@.subrange(0, i + 1 as int));
            }
            i += 1;
        }
        proof {
            assert(out@ =~= self@);
        }
        DenomMap { entries: out }
    }

    /// Store `v` under `key`, replacing the old entry or appending a new one.
    pub fn set(&mut self, key: &String, v: V)
        ensures
            final(self)@ == set_entry(old(self)@, *key, v),
            old(self).wf() ==> final(self).wf(),
    {
        let n = self.entries.len();
        let mut i: usize = 0;
        while i < n
            invariant
                *self == *old(self),
                n == self@.len(),
                0 <= i <= n,
                forall|j: int| 0 <= j < i ==> self@[j].0@ != key@,
            decreases n - i,
        {
            if self.entries[i].0 == *key {
                let fresh = key.clone();
                self.entries[i] = (fresh, v);
                proof {
                    lemma_set_entry_found(old(self)@, *key, v, i as int);
                    if old(self).wf() {
                        lemma_set_entry(old(self)@, *key, v);
                    }
                }
                return ;
            }
            i += 1;
        }
        let fresh = key.clone();
        self.entries.push((fresh, v));
        proof {
            lemma_lookup_none(old(self)@, key@);
            lemma_set_entry(old(self)@, *key, v);
        }
    }
}

/// With the first match for `k` at index `i`, `set_entry` is an in-place
/// update.
pub proof fn lemma_set_entry_found<V>(s: Seq<(String, V)>, k: String, v: V, i: int)
    requires
        0 <= i < s.len(),
        s[i].0@ == k@,
        forall|j: int| 0 <= j < i ==> s[j].0@ != k@,
    ensures
        set_entry(s, k, v) == s.update(i, (k, v)),
    decreases i,
{
    if i == 0 {
        assert(set_entry(s, k, v) =~= s.update(0, (k, v)));
    } else {
        assert(forall|j: int| 0 <= j < i - 1 ==> s.drop_first()[j].0@ != k@);
        lemma_set_entry_found(s.drop_first(), k, v, i - 1);
        assert(set_entry(s, k, v) =~= s.update(i, (k, v)));
    }
}

} // verus!
