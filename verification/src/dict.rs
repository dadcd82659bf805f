//! The parameter set of a query: an ordered string-to-string mapping with
//! unique keys, kept in insertion order.

use vstd::prelude::*;

verus! {

/// True when no two entries of `ps` share a key.
pub open spec fn keys_unique(ps: Seq<(Seq<char>, Seq<char>)>) -> bool {
    forall|i: int, j: int| 0 <= i < j < ps.len() ==> ps[i].0 != ps[j].0
}

/// True when some entry of `ps` has key `k`.
pub open spec fn has_key(ps: Seq<(Seq<char>, Seq<char>)>, k: Seq<char>) -> bool {
    exists|i: int| 0 <= i < ps.len() && ps[i].0 == k
}

/// The value bound to `k` in `ps`, if any. Meaningful when keys are unique.
pub open spec fn assoc_lookup(ps: Seq<(Seq<char>, Seq<char>)>, k: Seq<char>) -> Option<Seq<char>> {
    if has_key(ps, k) {
        let i = choose|i: int| 0 <= i < ps.len() && ps[i].0 == k;
        Some(ps[i].1)
    } else {
        None
    }
}

/// `ps` with `k` bound to `v`: entries that carried `k` are overwritten in
/// place; if none did, `(k, v)` is appended.
pub open spec fn assoc_set(
    ps: Seq<(Seq<char>, Seq<char>)>,
    k: Seq<char>,
    v: Seq<char>,
) -> Seq<(Seq<char>, Seq<char>)> {
    if has_key(ps, k) {
        ps.map_values(|p: (Seq<char>, Seq<char>)| if p.0 == k { (k, v) } else { p })
    } else {
        ps.push((k, v))
    }
}

/// Binding a key always makes it readable with the new value: the last write
/// to a key wins, whatever was bound before.
pub proof fn lemma_assoc_set_reads_back(ps: Seq<(Seq<char>, Seq<char>)>, k: Seq<char>, v: Seq<char>)
    ensures
        assoc_lookup(assoc_set(ps, k, v), k) == Some(v),
{
    let qs = assoc_set(ps, k, v);
    if has_key(ps, k) {
        let i = choose|i: int| 0 <= i < ps.len() && ps[i].0 == k;
        assert(qs[i].0 == k);
        assert(has_key(qs, k));
        let j = choose|j: int| 0 <= j < qs.len() && qs[j].0 == k;
        assert(qs[j] == (if ps[j].0 == k { (k, v) } else { ps[j] }));
        assert(qs[j] == (k, v));
    } else {
        assert(qs[ps.len() as int].0 == k);
        assert(has_key(qs, k));
        let j = choose|j: int| 0 <= j < qs.len() && qs[j].0 == k;
        if j < ps.len() {
            assert(ps[j].0 == k);
            assert(false);
        }
        assert(qs[j] == (k, v));
    }
}

/// Binding one key never disturbs what any other key is bound to.
pub proof fn lemma_assoc_set_frames_others(
    ps: Seq<(Seq<char>, Seq<char>)>,
    k: Seq<char>,
    v: Seq<char>,
    k2: Seq<char>,
)
    requires
        keys_unique(ps),
        k2 != k,
    ensures
        assoc_lookup(assoc_set(ps, k, v), k2) == assoc_lookup(ps, k2),
{
    let qs = assoc_set(ps, k, v);
    assert forall|i: int| 0 <= i < ps.len() implies (qs[i].0 == k2 <==> ps[i].0 == k2) by {
        if has_key(ps, k) {
            assert(qs[i] == (if ps[i].0 == k { (k, v) } else { ps[i] }));
        }
    }
    if has_key(ps, k2) {
        let i = choose|i: int| 0 <= i < ps.len() && ps[i].0 == k2;
        assert(qs[i].0 == k2);
        assert(has_key(qs, k2));
        let j = choose|j: int| 0 <= j < qs.len() && qs[j].0 == k2;
        if j < ps.len() {
            assert(ps[j].0 == k2);
            assert(j == i);
            if has_key(ps, k) {
                assert(qs[j] == (if ps[j].0 == k { (k, v) } else { ps[j] }));
            }
            assert(qs[j].1 == ps[i].1);
        } else {
            assert(!has_key(ps, k) && qs[j] == (k, v));
            assert(false);
        }
    } else {
        if has_key(qs, k2) {
            let j = choose|j: int| 0 <= j < qs.len() && qs[j].0 == k2;
            if j < ps.len() {
                assert(ps[j].0 == k2);
                assert(false);
            } else {
                assert(!has_key(ps, k) && qs[j] == (k, v));
                assert(false);
            }
        }
    }
}

/// Binding a key keeps the keys unique.
pub proof fn lemma_assoc_set_keeps_unique(
    ps: Seq<(Seq<char>, Seq<char>)>,
    k: Seq<char>,
    v: Seq<char>,
)
    requires
        keys_unique(ps),
    ensures
        keys_unique(assoc_set(ps, k, v)),
{
    let qs = assoc_set(ps, k, v);
    if has_key(ps, k) {
        assert forall|i: int, j: int| 0 <= i < j < qs.len() implies qs[i].0 != qs[j].0 by {
            assert(qs[i] == (if ps[i].0 == k { (k, v) } else { ps[i] }));
            assert(qs[j] == (if ps[j].0 == k { (k, v) } else { ps[j] }));
        }
    } else {
        assert forall|i: int, j: int| 0 <= i < j < qs.len() implies qs[i].0 != qs[j].0 by {
            if j == ps.len() {
                assert(qs[j] == (k, v));
                assert(qs[i] == ps[i]);
            }
        }
    }
}

/// An ordered key-to-value mapping of strings with unique keys, holding the
/// request parameters that a query builder accumulates.
pub struct Dict {
    pairs: Vec<(String, String)>,
}

impl View for Dict {
    type V = Seq<(Seq<char>, Seq<char>)>;

    closed spec fn view(&self) -> Seq<(Seq<char>, Seq<char>)> {
        self.pairs@.map_values(|p: (String, String)| (p.0@, p.1@))
    }
}

impl Dict {
    /// An empty parameter set.
    pub fn new() -> (r: Dict)
        ensures
            r@ == Seq::<(Seq<char>, Seq<char>)>::empty(),
            keys_unique(r@),
    {
        let r = Dict { pairs: Vec::new() };
        proof {
            assert(r@ =~= Seq::<(Seq<char>, Seq<char>)>::empty());
        }
        r
    }

    /// How many entries the set holds.
    pub fn len(&self) -> (r: usize)
        ensures
            r == self@.len(),
    {
        self.pairs.len()
    }

    /// The entry at position `i`, in insertion order.
    pub fn pair_at(&self, i: usize) -> (r: (&String, &String))
        requires
            i < self@.len(),
        ensures
            r.0@ == self@[i as int].0,
            r.1@ == self@[i as int].1,
    {
        let p = &self.pairs[i];
        (&p.0, &p.1)
    }

    /// An independent copy with the same entries.
    pub fn duplicate(&self) -> (r: Dict)
        ensures
            r@ == self@,
    {
        let mut out: Vec<(String, String)> = Vec::new();
        let n = self.pairs.len();
        let mut i: usize = 0;
        while i < n
            invariant
                n == self.pairs.len(),
                i <= n,
                out@.len() == i,
                forall|j: int| 0 <= j < i ==> out@[j].0@ == self.pairs@[j].0@
                    && out@[j].1@ == self.pairs@[j].1@,
            decreases n - i,
        {
            let p = &self.pairs[i];
            out.push((p.0.clone(), p.1.clone()));
            i = i + 1;
        }
        let r = Dict { pairs: out };
        proof {
            assert(r@ =~= self@);
        }
        r
    }

    /// A copy of this set in which `key` is bound to `value`: the new value
    /// overwrites any earlier binding of the same key in place, and a fresh
    /// key is appended at the end.
    pub fn insert(&self, key: String, value: String) -> (r: Dict)
        requires
            keys_unique(self@),
        ensures
            r@ == assoc_set(self@, key@, value@),
            keys_unique(r@),
    {
        let mut out: Vec<(String, String)> = Vec::new();
        let mut found = false;
        let n = self.pairs.len();
        let mut i: usize = 0;
        while i < n
            invariant
                n == self.pairs.len(),
                i <= n,
                found <==> exists|j: int| 0 <= j < i && (#[trigger] self@[j]).0 == key@,
                out@.len() == i,
                forall|j: int|
                    0 <= j < i ==> (#[trigger] out@[j]).0@ == (if self@[j].0 == key@ {
                        key@
                    } else {
                        self@[j].0
                    }),
                forall|j: int|
                    0 <= j < i ==> (#[trigger] out@[j]).1@ == (if self@[j].0 == key@ {
                        value@
                    } else {
                        self@[j].1
                    }),
            decreases n - i,
        {
            proof {
                assert(self@[i as int] == (self.pairs@[i as int].0@, self.pairs@[i as int].1@));
            }
            let p = &self.pairs[i];
            if p.0 == key {
                out.push((key.clone(), value.clone()));
                found = true;
            } else {
                out.push((p.0.clone(), p.1.clone()));
            }
            i = i + 1;
        }
        proof {
            assert(has_key(self@, key@) <==> exists|j: int|
                0 <= j < n && (#[trigger] self@[j]).0 == key@);
        }
        if found {
            let r = Dict { pairs: out };
            proof {
                assert(has_key(self@, key@));
                assert forall|j: int| 0 <= j < n implies #[trigger] r@[j] == assoc_set(
                    self@,
                    key@,
                    value@,
                )[j] by {
                    assert(r@[j] == (out@[j].0@, out@[j].1@));
                }
                assert(r@ =~= assoc_set(self@, key@, value@));
                lemma_assoc_set_keeps_unique(self@, key@, value@);
            }
            r
        } else {
            out.push((key, value));
            let r = Dict { pairs: out };
            proof {
                assert(!has_key(self@, key@));
                assert forall|j: int| 0 <= j < n + 1 implies #[trigger] r@[j] == assoc_set(
                    self@,
                    key@,
                    value@,
                )[j] by {
                    assert(r@[j] == (out@[j].0@, out@[j].1@));
                    if j < n {
                        assert(self@[j].0 != key@);
                    }
                }
                assert(r@ =~= assoc_set(self@, key@, value@));
                lemma_assoc_set_keeps_unique(self@, key@, value@);
            }
            r
        }
    }

    /// The value bound to `key`, if any.
    pub fn get(&self, key: &String) -> (r: Option<&String>)
        requires
            keys_unique(self@),
        ensures
            r is Some <==> has_key(self@, key@),
            r matches Some(v) ==> assoc_lookup(self@, key@) == Some(v@),
    {
        let n = self.pairs.len();
        let mut i: usize = 0;
        while i < n
            invariant
                n == self.pairs.len(),
                i <= n,
                keys_unique(self@),
                forall|j: int| 0 <= j < i ==> self@[j].0 != key@,
            decreases n - i,
        {
            let p = &self.pairs[i];
            if p.0 == *key {
                proof {
                    assert(self@[i as int].0 == key@);
                    assert(has_key(self@, key@));
                    let j = choose|j: int| 0 <= j < self@.len() && self@[j].0 == key@;
                    assert(j == i as int);
                }
                return Some(&p.1);
            }
            i = i + 1;
        }
        proof {
            if has_key(self@, key@) {
                let j = choose|j: int| 0 <= j < self@.len() && self@[j].0 == key@;
                assert(false);
            }
        }
        None
    }
}

} // verus!
