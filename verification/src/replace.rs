//! The replacement map: trigger string to replacement string, keys unique,
//! a later insertion overwriting an earlier one with a diagnostic.

use vstd::prelude::*;
use vstd::string::*;
use crate::text::str_eq;

verus! {

/// The view of a list of owned string pairs.
pub open spec fn kv_view(e: Seq<(String, String)>) -> Seq<(Seq<char>, Seq<char>)> {
    e.map_values(|p: (String, String)| (p.0@, p.1@))
}

/// Lookup in an association list; keys are unique, so the first match is
/// the only one.
pub open spec fn spec_get(m: Seq<(Seq<char>, Seq<char>)>, k: Seq<char>) -> Option<Seq<char>>
    decreases m.len(),
{
    if m.len() == 0 {
        None
    } else if m[0].0 == k {
        Some(m[0].1)
    } else {
        spec_get(m.drop_first(), k)
    }
}

/// What inserting does: replaces the value in place where the key is
/// present, appends the pair where it is not.
pub open spec fn spec_insert(
    m: Seq<(Seq<char>, Seq<char>)>,
    k: Seq<char>,
    v: Seq<char>,
) -> Seq<(Seq<char>, Seq<char>)>
    decreases m.len(),
{
    if m.len() == 0 {
        seq![(k, v)]
    } else if m[0].0 == k {
        seq![(k, v)] + m.drop_first()
    } else {
        seq![m[0]] + spec_insert(m.drop_first(), k, v)
    }
}

/// Unique keys.
pub open spec fn keys_unique(m: Seq<(Seq<char>, Seq<char>)>) -> bool {
    forall|i: int, j: int| 0 <= i < j < m.len() ==> m[i].0 != m[j].0
}

pub broadcast proof fn lemma_get_after_insert(
    m: Seq<(Seq<char>, Seq<char>)>,
    k: Seq<char>,
    v: Seq<char>,
    q: Seq<char>,
)
    ensures
        #[trigger] spec_get(spec_insert(m, k, v), q) == if q == k {
            Some(v)
        } else {
            spec_get(m, q)
        },
    decreases m.len(),
{
    let r = spec_insert(m, k, v);
    if m.len() == 0 {
        assert(r == seq![(k, v)]);
        assert(r[0] == (k, v));
        assert(r.drop_first() =~= Seq::<(Seq<char>, Seq<char>)>::empty());
        if q == k {
            assert(spec_get(r, q) == Some(v));
        } else {
            assert(spec_get(r, q) == spec_get(r.drop_first(), q));
            assert(spec_get(r, q) is None && spec_get(m, q) is None);
        }
    } else if m[0].0 == k {
        assert(r[0] == (k, v));
        assert(r.drop_first() =~= m.drop_first());
        if q == k {
            assert(spec_get(r, q) == Some(v));
        } else {
            assert(spec_get(r, q) == spec_get(m.drop_first(), q));
            assert(spec_get(m, q) == spec_get(m.drop_first(), q));
        }
    } else {
        assert(r[0] == m[0]);
        assert(r.drop_first() =~= spec_insert(m.drop_first(), k, v));
        lemma_get_after_insert(m.drop_first(), k, v, q);
        if m[0].0 == q {
            assert(spec_get(r, q) == Some(m[0].1));
            assert(spec_get(m, q) == Some(m[0].1));
        } else {
            assert(spec_get(r, q) == spec_get(spec_insert(m.drop_first(), k, v), q));
            assert(spec_get(m, q) == spec_get(m.drop_first(), q));
        }
    }
}

pub proof fn lemma_insert_keeps_unique(m: Seq<(Seq<char>, Seq<char>)>, k: Seq<char>, v: Seq<char>)
    requires
        keys_unique(m),
    ensures
        keys_unique(spec_insert(m, k, v)),
    decreases m.len(),
{
    if m.len() == 0 {
    } else if m[0].0 == k {
        let r = spec_insert(m, k, v);
        assert(r.drop_first() =~= m.drop_first());
        assert forall|i: int, j: int| 0 <= i < j < r.len() implies r[i].0 != r[j].0 by {
            if i == 0 {
                assert(r[j] == m[j]);
                assert(m[0].0 != m[j].0);
            } else {
                assert(r[i] == m[i] && r[j] == m[j]);
            }
        }
    } else {
        assert(forall|i: int, j: int|
            0 <= i < j < m.drop_first().len() ==> m.drop_first()[i].0 != m.drop_first()[j].0);
        lemma_insert_keeps_unique(m.drop_first(), k, v);
        let r = spec_insert(m, k, v);
        let rr = spec_insert(m.drop_first(), k, v);
        assert(r.drop_first() =~= rr);
        assert forall|i: int, j: int| 0 <= i < j < r.len() implies r[i].0 != r[j].0 by {
            if i == 0 {
                assert(r[j] == rr[j - 1]);
                lemma_insert_key_set(m.drop_first(), k, v, j - 1);
                assert(m[0].0 != k);
            }
        }
    }
}

/// Every key of an inserted list is either an old key or the inserted one.
proof fn lemma_insert_key_set(
    m: Seq<(Seq<char>, Seq<char>)>,
    k: Seq<char>,
    v: Seq<char>,
    i: int,
)
    requires
        0 <= i < spec_insert(m, k, v).len(),
    ensures
        spec_insert(m, k, v)[i].0 == k || exists|j: int|
            0 <= j < m.len() && m[j].0 == #[trigger] spec_insert(m, k, v)[i].0,
    decreases m.len(),
{
    if m.len() == 0 {
    } else if m[0].0 == k {
        if i > 0 {
            assert(spec_insert(m, k, v)[i] == m[i]);
        }
    } else {
        if i > 0 {
            assert(spec_insert(m, k, v)[i] == spec_insert(m.drop_first(), k, v)[i - 1]);
            lemma_insert_key_set(m.drop_first(), k, v, i - 1);
            if spec_insert(m, k, v)[i].0 != k {
                let j = choose|j: int|
                    0 <= j < m.drop_first().len() && m.drop_first()[j].0 == spec_insert(
                        m.drop_first(),
                        k,
                        v,
                    )[i - 1].0;
                assert(m[j + 1].0 == spec_insert(m, k, v)[i].0);
            }
        }
    }
}

/// The mapping from trigger strings to replacement strings.
#[derive(Debug)]
pub struct ReplacementMap {
    pub entries: Vec<(String, String)>,
}

impl View for ReplacementMap {
    type V = Seq<(Seq<char>, Seq<char>)>;

    open spec fn view(&self) -> Seq<(Seq<char>, Seq<char>)> {
        kv_view(self.entries@)
    }
}

impl ReplacementMap {
    pub open spec fn wf(&self) -> bool {
        keys_unique(self@)
    }

    pub fn new() -> (r: Self)
        ensures
            r@ == Seq::<(Seq<char>, Seq<char>)>::empty(),
            r.wf(),
    {
        let r = Self { entries: Vec::new() };
        proof {
            assert(r@ =~= Seq::<(Seq<char>, Seq<char>)>::empty());
        }
        r
    }

    pub fn len(&self) -> (n: usize)
        ensures
            n == self@.len(),
    {
        self.entries.len()
    }

    /// The replacement for a trigger string, where the map has one.
    #[verifier::loop_isolation(false)]
    pub fn get(&self, k: &str) -> (r: Option<&String>)
        ensures
            match r {
                Some(v) => spec_get(self@, k@) == Some(v@),
                None => spec_get(self@, k@) is None,
            },
    {
        let mut i: usize = 0;
        proof {
            assert(self@.skip(0) =~= self@);
        }
        while i < self.entries.len()
            invariant
                i <= self@.len(),
                spec_get(self@, k@) == spec_get(self@.skip(i as int), k@),
            decreases self@.len() - i,
        {
            proof {
                assert(self@.skip(i as int)[0] == self@[i as int]);
                assert(self@.skip(i as int).drop_first() =~= self@.skip(i + 1));
            }
            if str_eq(self.entries[i].0.as_str(), k) {
                return Some(&self.entries[i].1);
            }
            i = i + 1;
        }
        None
    }

    /// Insert a pair, replacing in place on a key collision; the previous
    /// value comes back so the collision can be reported.
    #[verifier::loop_isolation(false)]
    pub fn insert(&mut self, k: String, v: String) -> (old_v: Option<String>)
        ensures
            final(self)@ == spec_insert(old(self)@, k@, v@),
            match old_v {
                Some(o) => spec_get(old(self)@, k@) == Some(o@),
                None => spec_get(old(self)@, k@) is None,
            },
    {
        let ghost m0 = self@;
        let mut i: usize = 0;
        proof {
            assert(m0.skip(0) =~= m0);
        }
        while i < self.entries.len()
            invariant
                i <= self@.len(),
                self@ == m0,
                spec_get(m0, k@) == spec_get(m0.skip(i as int), k@),
                forall|j: int| 0 <= j < i ==> (#[trigger] m0[j]).0 != k@,
                spec_insert(m0, k@, v@) == m0.take(i as int) + spec_insert(
                    m0.skip(i as int),
                    k@,
                    v@,
                ),
            decreases self@.len() - i,
        {
            proof {
                assert(m0.skip(i as int)[0] == m0[i as int]);
                assert(m0.skip(i as int).drop_first() =~= m0.skip(i + 1));
            }
            if str_eq(self.entries[i].0.as_str(), k.as_str()) {
                let old_v = self.entries[i].1.clone();
                self.entries[i] = (k, v);
                proof {
                    assert(spec_insert(m0.skip(i as int), k@, v@) =~= seq![
                        (k@, v@),
                    ] + m0.skip(i + 1));
                    assert(self@ =~= m0.take(i as int) + (seq![(k@, v@)] + m0.skip(i + 1)));
                }
                return Some(old_v);
            }
            proof {
                assert(spec_insert(m0.skip(i as int), k@, v@) =~= seq![
                    m0[i as int],
                ] + spec_insert(m0.skip(i + 1), k@, v@));
                assert(m0.take(i + 1) + spec_insert(m0.skip(i + 1), k@, v@) =~= m0.take(
                    i as int,
                ) + spec_insert(m0.skip(i as int), k@, v@));
            }
            i = i + 1;
        }
        self.entries.push((k, v));
        proof {
            assert(spec_insert(m0.skip(m0.len() as int), k@, v@) =~= seq![(k@, v@)]);
            assert(self@ =~= m0.take(m0.len() as int) + seq![(k@, v@)]);
            assert(spec_get(m0, k@) is None);
        }
        None
    }
}

// ---------------------------------------------------------------------------
// Folding insertion pair lists into a map
// ---------------------------------------------------------------------------

/// The map after inserting a list of pairs in order.
pub open spec fn build_from(
    m: Seq<(Seq<char>, Seq<char>)>,
    pairs: Seq<(Seq<char>, Seq<char>)>,
) -> Seq<(Seq<char>, Seq<char>)>
    decreases pairs.len(),
{
    if pairs.len() == 0 {
        m
    } else {
        build_from(spec_insert(m, pairs[0].0, pairs[0].1), pairs.drop_first())
    }
}

/// The collision diagnostics of that insertion order: the value each
/// insertion overwrote, in order.
pub open spec fn collisions_from(
    m: Seq<(Seq<char>, Seq<char>)>,
    pairs: Seq<(Seq<char>, Seq<char>)>,
) -> Seq<Seq<char>>
    decreases pairs.len(),
{
    if pairs.len() == 0 {
        Seq::<Seq<char>>::empty()
    } else {
        (match spec_get(m, pairs[0].0) {
            Some(o) => seq![o],
            None => Seq::<Seq<char>>::empty(),
        }) + collisions_from(spec_insert(m, pairs[0].0, pairs[0].1), pairs.drop_first())
    }
}

/// The value of the last pair with the given key.
pub open spec fn last_pair(
    pairs: Seq<(Seq<char>, Seq<char>)>,
    q: Seq<char>,
) -> Option<Seq<char>>
    decreases pairs.len(),
{
    if pairs.len() == 0 {
        None
    } else if pairs.last().0 == q {
        Some(pairs.last().1)
    } else {
        last_pair(pairs.drop_last(), q)
    }
}

proof fn lemma_last_pair_head(pairs: Seq<(Seq<char>, Seq<char>)>, q: Seq<char>)
    requires
        pairs.len() > 0,
    ensures
        last_pair(pairs, q) == match last_pair(pairs.drop_first(), q) {
            Some(v) => Some(v),
            None => if pairs[0].0 == q {
                Some(pairs[0].1)
            } else {
                None
            },
        },
    decreases pairs.len(),
{
    if pairs.len() == 1 {
        assert(pairs.drop_first().len() == 0);
        assert(pairs.last() == pairs[0]);
    } else {
        assert(pairs.drop_first().last() == pairs.last());
        if pairs.last().0 != q {
            assert(pairs.drop_last().len() > 0);
            assert(pairs.drop_last().drop_first() =~= pairs.drop_first().drop_last());
            lemma_last_pair_head(pairs.drop_last(), q);
        }
    }
}

/// Looking a key up in the built map: the last inserted pair with that key
/// wins; keys no pair carries keep their prior value.
pub proof fn lemma_build_lookup(
    m: Seq<(Seq<char>, Seq<char>)>,
    pairs: Seq<(Seq<char>, Seq<char>)>,
    q: Seq<char>,
)
    ensures
        spec_get(build_from(m, pairs), q) == match last_pair(pairs, q) {
            Some(v) => Some(v),
            None => spec_get(m, q),
        },
    decreases pairs.len(),
{
    if pairs.len() > 0 {
        let m1 = spec_insert(m, pairs[0].0, pairs[0].1);
        lemma_build_lookup(m1, pairs.drop_first(), q);
        lemma_get_after_insert(m, pairs[0].0, pairs[0].1, q);
        lemma_last_pair_head(pairs, q);
    }
}

/// Where exactly one pair carries the key, that pair's value wins.
pub proof fn lemma_last_pair_unique(
    pairs: Seq<(Seq<char>, Seq<char>)>,
    q: Seq<char>,
    ix: int,
)
    requires
        0 <= ix < pairs.len(),
        pairs[ix].0 == q,
        forall|j: int| 0 <= j < pairs.len() && j != ix ==> (#[trigger] pairs[j]).0 != q,
    ensures
        last_pair(pairs, q) == Some(pairs[ix].1),
    decreases pairs.len(),
{
    if ix == pairs.len() - 1 {
    } else {
        assert(pairs.last().0 != q);
        assert(forall|j: int|
            0 <= j < pairs.drop_last().len() && j != ix ==> (#[trigger] pairs.drop_last()[j]).0
                != q);
        lemma_last_pair_unique(pairs.drop_last(), q, ix);
    }
}

/// Building keeps keys unique.
pub proof fn lemma_build_unique(
    m: Seq<(Seq<char>, Seq<char>)>,
    pairs: Seq<(Seq<char>, Seq<char>)>,
)
    requires
        keys_unique(m),
    ensures
        keys_unique(build_from(m, pairs)),
    decreases pairs.len(),
{
    if pairs.len() > 0 {
        lemma_insert_keeps_unique(m, pairs[0].0, pairs[0].1);
        lemma_build_unique(spec_insert(m, pairs[0].0, pairs[0].1), pairs.drop_first());
    }
}

} // verus!
