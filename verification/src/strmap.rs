//! A string-keyed map kept as an association list sorted by key, with the
//! iteration behaviour of an ordered map: unique keys, ascending key order.

use vstd::prelude::*;
use crate::text::{spec_str_lt, str_eq, str_lt, lemma_str_lt_irrefl, lemma_str_lt_trans,
    lemma_str_lt_connex};

verus! {

/// Look a key up in an association sequence: the value beside the first
/// matching key, if any.
pub open spec fn assoc_get(m: Seq<(Seq<char>, Seq<char>)>, k: Seq<char>) -> Option<Seq<char>>
    decreases m.len(),
{
    if m.len() == 0 {
        None
    } else if m[0].0 == k {
        Some(m[0].1)
    } else {
        assoc_get(m.skip(1), k)
    }
}

/// Whether an association sequence holds a key.
pub open spec fn assoc_contains(m: Seq<(Seq<char>, Seq<char>)>, k: Seq<char>) -> bool {
    assoc_get(m, k) is Some
}

/// Insert into an association sequence sorted by key: replace the entry of
/// an equal key, otherwise splice the new pair in at its ordered position.
pub open spec fn assoc_insert(
    m: Seq<(Seq<char>, Seq<char>)>,
    k: Seq<char>,
    v: Seq<char>,
) -> Seq<(Seq<char>, Seq<char>)>
    decreases m.len(),
{
    if m.len() == 0 {
        seq![(k, v)]
    } else if m[0].0 == k {
        seq![(k, v)] + m.skip(1)
    } else if spec_str_lt(k, m[0].0) {
        seq![(k, v)] + m
    } else {
        seq![m[0]] + assoc_insert(m.skip(1), k, v)
    }
}

/// Keys strictly ascend, so each key occurs at most once.
pub open spec fn assoc_sorted(m: Seq<(Seq<char>, Seq<char>)>) -> bool {
    forall|i: int, j: int|
        0 <= i < j < m.len() ==> spec_str_lt(#[trigger] m[i].0, #[trigger] m[j].0)
}

/// After an insert, looking the inserted key up gives the new value and any
/// other key reads as before.
pub proof fn lemma_assoc_insert_get(
    m: Seq<(Seq<char>, Seq<char>)>,
    k: Seq<char>,
    v: Seq<char>,
    q: Seq<char>,
)
    ensures
        assoc_get(assoc_insert(m, k, v), q) == if q == k {
            Some(v)
        } else {
            assoc_get(m, q)
        },
    decreases m.len(),
{
    let r = assoc_insert(m, k, v);
    if m.len() == 0 {
        assert(r[0] == (k, v));
        if q == k {
            assert(assoc_get(r, q) == Some(v));
        } else {
            assert(r.skip(1) =~= Seq::<(Seq<char>, Seq<char>)>::empty());
            assert(assoc_get(r, q) == assoc_get(r.skip(1), q));
        }
    } else if m[0].0 == k {
        assert(r[0] == (k, v));
        assert(r.skip(1) =~= m.skip(1));
        if q != k {
            assert(assoc_get(r, q) == assoc_get(m.skip(1), q));
            assert(assoc_get(m, q) == assoc_get(m.skip(1), q));
        }
    } else if spec_str_lt(k, m[0].0) {
        assert(r[0] == (k, v));
        assert(r.skip(1) =~= m);
        if q != k {
            assert(assoc_get(r, q) == assoc_get(m, q));
        }
    } else {
        lemma_assoc_insert_get(m.skip(1), k, v, q);
        assert(r[0] == m[0]);
        assert(r.skip(1) =~= assoc_insert(m.skip(1), k, v));
        assert(assoc_get(r, q) == if q == m[0].0 {
            Some(m[0].1)
        } else {
            assoc_get(assoc_insert(m.skip(1), k, v), q)
        });
    }
}

/// Inserting keeps the ascending key order.
pub proof fn lemma_assoc_insert_sorted(m: Seq<(Seq<char>, Seq<char>)>, k: Seq<char>, v: Seq<char>)
    requires
        assoc_sorted(m),
    ensures
        assoc_sorted(assoc_insert(m, k, v)),
    decreases m.len(),
{
    let r = assoc_insert(m, k, v);
    if m.len() == 0 {
    } else if m[0].0 == k {
        assert(forall|j: int| 0 <= j < m.skip(1).len() ==> m.skip(1)[j] == m[j + 1]);
        assert forall|i: int, j: int| 0 <= i < j < r.len() implies spec_str_lt(
            r[i].0,
            r[j].0,
        ) by {
            if i == 0 {
                assert(r[j] == m[j]);
                assert(spec_str_lt(m[0].0, m[j].0));
            } else {
                assert(r[i] == m[i] && r[j] == m[j]);
            }
        }
    } else if spec_str_lt(k, m[0].0) {
        assert forall|i: int, j: int| 0 <= i < j < r.len() implies spec_str_lt(
            r[i].0,
            r[j].0,
        ) by {
            if i == 0 {
                assert(r[j] == m[j - 1]);
                if j > 1 {
                    lemma_str_lt_trans(k, m[0].0, m[j - 1].0);
                }
            } else {
                assert(r[i] == m[i - 1] && r[j] == m[j - 1]);
            }
        }
    } else {
        // Here m[0].0 != k and !(k < m[0].0), so m[0].0 < k.
        lemma_str_lt_connex(k, m[0].0);
        assert(forall|i: int, j: int|
            0 <= i < j < m.skip(1).len() ==> spec_str_lt(
                #[trigger] m.skip(1)[i].0,
                #[trigger] m.skip(1)[j].0,
            ));
        lemma_assoc_insert_sorted(m.skip(1), k, v);
        let t = assoc_insert(m.skip(1), k, v);
        lemma_assoc_insert_key_bound(m.skip(1), k, v, m[0].0);
        assert forall|i: int, j: int| 0 <= i < j < r.len() implies spec_str_lt(
            r[i].0,
            r[j].0,
        ) by {
            if i == 0 {
                assert(r[j] == t[j - 1]);
            } else {
                assert(r[i] == t[i - 1] && r[j] == t[j - 1]);
            }
        }
    }
}

/// A strict lower bound on every key stays a strict lower bound after an
/// insert above it.
proof fn lemma_assoc_insert_key_bound(
    m: Seq<(Seq<char>, Seq<char>)>,
    k: Seq<char>,
    v: Seq<char>,
    lo: Seq<char>,
)
    requires
        spec_str_lt(lo, k),
        forall|i: int| 0 <= i < m.len() ==> spec_str_lt(lo, #[trigger] m[i].0),
    ensures
        forall|i: int|
            0 <= i < assoc_insert(m, k, v).len() ==> spec_str_lt(
                lo,
                #[trigger] assoc_insert(m, k, v)[i].0,
            ),
    decreases m.len(),
{
    let r = assoc_insert(m, k, v);
    if m.len() == 0 {
    } else if m[0].0 == k {
        assert(forall|i: int| 1 <= i < r.len() ==> r[i] == m[i]);
    } else if spec_str_lt(k, m[0].0) {
        assert(forall|i: int| 1 <= i < r.len() ==> r[i] == m[i - 1]);
    } else {
        assert(forall|i: int| 0 <= i < m.skip(1).len() ==> m.skip(1)[i] == m[i + 1]);
        lemma_assoc_insert_key_bound(m.skip(1), k, v, lo);
        assert(forall|i: int| 1 <= i < r.len() ==> r[i] == assoc_insert(m.skip(1), k, v)[i - 1]);
    }
}

/// Keys that appear nowhere in the sequence are not found.
proof fn lemma_assoc_get_none(m: Seq<(Seq<char>, Seq<char>)>, k: Seq<char>)
    requires
        forall|i: int| 0 <= i < m.len() ==> (#[trigger] m[i]).0 != k,
    ensures
        assoc_get(m, k) is None,
    decreases m.len(),
{
    if m.len() > 0 {
        assert(forall|i: int| 0 <= i < m.skip(1).len() ==> m.skip(1)[i] == m[i + 1]);
        lemma_assoc_get_none(m.skip(1), k);
    }
}

/// In a sorted map, inserting an already-present key keeps the length; a
/// new key grows the map by one entry.
pub proof fn lemma_assoc_insert_len(m: Seq<(Seq<char>, Seq<char>)>, k: Seq<char>, v: Seq<char>)
    requires
        assoc_sorted(m),
    ensures
        assoc_insert(m, k, v).len() == if assoc_contains(m, k) {
            m.len()
        } else {
            m.len() + 1
        },
    decreases m.len(),
{
    if m.len() == 0 {
    } else if m[0].0 == k {
    } else if spec_str_lt(k, m[0].0) {
        assert forall|i: int| 0 <= i < m.len() implies (#[trigger] m[i]).0 != k by {
            if i > 0 {
                lemma_str_lt_trans(k, m[0].0, m[i].0);
            }
            lemma_str_lt_irrefl(k);
            if m[i].0 == k {
                assert(spec_str_lt(k, k));
            }
        }
        lemma_assoc_get_none(m, k);
    } else {
        assert(forall|i: int, j: int|
            0 <= i < j < m.skip(1).len() ==> spec_str_lt(
                #[trigger] m.skip(1)[i].0,
                #[trigger] m.skip(1)[j].0,
            ));
        lemma_assoc_insert_len(m.skip(1), k, v);
        assert(assoc_get(m, k) == assoc_get(m.skip(1), k));
    }
}

/// A string-keyed map held as an association list sorted by key.
pub struct StrMap {
    pub pairs: Vec<(String, String)>,
}

impl View for StrMap {
    type V = Seq<(Seq<char>, Seq<char>)>;

    open spec fn view(&self) -> Seq<(Seq<char>, Seq<char>)> {
        Seq::new(self.pairs@.len(), |i: int| (self.pairs@[i].0@, self.pairs@[i].1@))
    }
}

impl StrMap {
    /// The map's invariant: keys strictly ascend.
    pub open spec fn wf(&self) -> bool {
        assoc_sorted(self@)
    }

    /// An empty map.
    pub fn new() -> (r: StrMap)
        ensures
            r@ == Seq::<(Seq<char>, Seq<char>)>::empty(),
            r.wf(),
    {
        let r = StrMap { pairs: Vec::new() };
        proof {
            assert(r@ =~= Seq::<(Seq<char>, Seq<char>)>::empty());
        }
        r
    }

    /// Number of entries.
    pub fn len(&self) -> (r: usize)
        ensures
            r == self@.len(),
    {
        self.pairs.len()
    }

    /// The key of the entry at a position, in ascending key order.
    pub fn key_at(&self, i: usize) -> (r: &String)
        requires
            i < self@.len(),
        ensures
            r@ == self@[i as int].0,
    {
        &self.pairs[i].0
    }

    /// The value of the entry at a position, in ascending key order.
    pub fn val_at(&self, i: usize) -> (r: &String)
        requires
            i < self@.len(),
        ensures
            r@ == self@[i as int].1,
    {
        &self.pairs[i].1
    }

    /// Look a key up; a copy of the value comes back.
    pub fn get(&self, k: &str) -> (r: Option<String>)
        ensures
            r is Some <==> assoc_get(self@, k@) is Some,
            r matches Some(val) ==> assoc_get(self@, k@) == Some(val@),
    {
        let n = self.pairs.len();
        let mut i: usize = 0;
        proof {
            assert(self@.skip(0) =~= self@);
        }
        while i < n
            invariant
                i <= n,
                n == self@.len(),
                assoc_get(self@, k@) == assoc_get(self@.skip(i as int), k@),
                forall|j: int| 0 <= j < i ==> self@[j].0 != k@,
            decreases n - i,
        {
            proof {
                assert(self@.skip(i as int)[0] == self@[i as int]);
                assert(self@.skip(i as int).skip(1) =~= self@.skip(i + 1));
            }
            if str_eq(self.pairs[i].0.as_str(), k) {
                return Some(self.pairs[i].1.clone());
            }
            i += 1;
        }
        proof {
            assert(self@.skip(n as int) =~= Seq::<(Seq<char>, Seq<char>)>::empty());
        }
        None
    }

    /// Whether a key is present.
    pub fn contains_key(&self, k: &str) -> (r: bool)
        ensures
            r == assoc_contains(self@, k@),
    {
        self.get(k).is_some()
    }

    /// Insert a pair, replacing the value of an equal key and keeping the
    /// ascending key order.
    pub fn insert(&mut self, k: String, v: String)
        requires
            old(self).wf(),
        ensures
            final(self)@ == assoc_insert(old(self)@, k@, v@),
            final(self).wf(),
    {
        let n = self.pairs.len();
        let mut i: usize = 0;
        while i < n && str_lt(self.pairs[i].0.as_str(), k.as_str())
            invariant
                i <= n,
                n == self@.len(),
                self == old(self),
                forall|j: int| 0 <= j < i ==> spec_str_lt(#[trigger] self@[j].0, k@),
            decreases n - i,
        {
            i += 1;
        }
        assert(i < n ==> !spec_str_lt(self@[i as int].0, k@));
        proof {
            lemma_assoc_insert_take_skip(old(self)@, k@, v@, i as int);
            lemma_assoc_insert_sorted(old(self)@, k@, v@);
        }
        if i == n {
            proof {
                assert(old(self)@.skip(n as int) =~= Seq::<(Seq<char>, Seq<char>)>::empty());
                assert(old(self)@.take(n as int) =~= old(self)@);
            }
            self.pairs.push((k, v));
            proof {
                assert(self@ =~= old(self)@ + seq![(k@, v@)]);
                assert(self@ =~= assoc_insert(old(self)@, k@, v@));
            }
        } else {
            proof {
                assert(old(self)@.skip(i as int)[0] == old(self)@[i as int]);
                assert(old(self)@.skip(i as int).skip(1) =~= old(self)@.skip(i + 1));
            }
            if str_eq(self.pairs[i].0.as_str(), k.as_str()) {
                proof {
                    assert(old(self)@.skip(i as int)[0].0 == k@);
                    assert(assoc_insert(old(self)@.skip(i as int), k@, v@) == seq![(k@, v@)]
                        + old(self)@.skip(i as int).skip(1));
                }
                self.pairs.set(i, (k, v));
                proof {
                    assert(self@ =~= old(self)@.take(i as int) + (seq![(k@, v@)] + old(
                        self,
                    )@.skip(i + 1)));
                    assert(self@ =~= assoc_insert(old(self)@, k@, v@));
                }
            } else {
                proof {
                    lemma_str_lt_connex(k@, old(self)@[i as int].0);
                    assert(old(self)@.skip(i as int)[0].0 != k@);
                    assert(spec_str_lt(k@, old(self)@.skip(i as int)[0].0));
                    assert(assoc_insert(old(self)@.skip(i as int), k@, v@) == seq![(k@, v@)]
                        + old(self)@.skip(i as int));
                }
                self.pairs.insert(i, (k, v));
                proof {
                    assert(self@ =~= old(self)@.take(i as int) + (seq![(k@, v@)] + old(
                        self,
                    )@.skip(i as int)));
                    assert(self@ =~= assoc_insert(old(self)@, k@, v@));
                }
            }
        }
    }

    /// A copy of the map: same entries, same order.
    pub fn duplicate(&self) -> (r: StrMap)
        ensures
            r@ == self@,
    {
        let n = self.pairs.len();
        let mut out: Vec<(String, String)> = Vec::new();
        let mut i: usize = 0;
        while i < n
            invariant
                i <= n,
                n == self@.len(),
                out@.len() == i,
                forall|j: int|
                    0 <= j < i ==> (#[trigger] out@[j].0)@ == self@[j].0 && out@[j].1@
                        == self@[j].1,
            decreases n - i,
        {
            out.push((self.pairs[i].0.clone(), self.pairs[i].1.clone()));
            i += 1;
        }
        let r = StrMap { pairs: out };
        proof {
            assert(r@ =~= self@);
        }
        r
    }
}

/// If the first `i` keys all order below `k`, the insert splits: the prefix
/// stays and the insert happens in the rest.
proof fn lemma_assoc_insert_take_skip(
    m: Seq<(Seq<char>, Seq<char>)>,
    k: Seq<char>,
    v: Seq<char>,
    i: int,
)
    requires
        0 <= i <= m.len(),
        forall|j: int| 0 <= j < i ==> spec_str_lt(#[trigger] m[j].0, k),
    ensures
        assoc_insert(m, k, v) == m.take(i) + assoc_insert(m.skip(i), k, v),
    decreases i,
{
    if i == 0 {
        assert(m.take(0) =~= Seq::<(Seq<char>, Seq<char>)>::empty());
        assert(m.skip(0) =~= m);
        assert(m.take(0) + assoc_insert(m.skip(0), k, v) =~= assoc_insert(m, k, v));
    } else {
        assert(m.len() > 0);
        assert(spec_str_lt(m[0].0, k));
        lemma_str_lt_irrefl(k);
        if spec_str_lt(k, m[0].0) {
            lemma_str_lt_trans(k, m[0].0, k);
            assert(false);
        }
        assert(assoc_insert(m, k, v) == seq![m[0]] + assoc_insert(m.skip(1), k, v));
        assert(forall|j: int| 0 <= j < m.skip(1).len() ==> m.skip(1)[j] == m[j + 1]);
        lemma_assoc_insert_take_skip(m.skip(1), k, v, i - 1);
        assert(m.skip(1).take(i - 1) =~= m.take(i).skip(1));
        assert(m.skip(1).skip(i - 1) =~= m.skip(i));
        assert(seq![m[0]] + (m.take(i).skip(1) + assoc_insert(m.skip(i), k, v)) =~= m.take(i)
            + assoc_insert(m.skip(i), k, v));
    }
}

} // verus!
