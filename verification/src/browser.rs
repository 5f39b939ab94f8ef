//! The directory-browser model: the entry list shown for a directory — the
//! parent entry first, then the subdirectories sorted ascending — and the
//! path arithmetic of descending into and ascending out of directories.

use vstd::prelude::*;
use vstd::multiset::Multiset;
use vstd::seq_lib::{group_to_multiset_ensures, lemma_multiset_commutative};
use crate::text::{spec_str_lt, str_lt, lemma_str_lt_connex, lemma_str_lt_irrefl,
    lemma_str_lt_trans, str_eq};

verus! {

/// Non-strict lexicographic order.
pub open spec fn spec_str_le(a: Seq<char>, b: Seq<char>) -> bool {
    !spec_str_lt(b, a)
}

/// The sequence ascends in the lexicographic order.
pub open spec fn sorted_le(s: Seq<Seq<char>>) -> bool {
    forall|i: int, j: int| 0 <= i < j < s.len() ==> spec_str_le(#[trigger] s[i], #[trigger] s[j])
}

/// Put one string into a sorted vector, keeping it sorted; the contents
/// grow by exactly that string.
pub fn insert_sorted(out: &mut Vec<String>, x: String)
    requires
        sorted_le(old(out).deep_view()),
    ensures
        sorted_le(final(out).deep_view()),
        final(out).deep_view().to_multiset() == old(out).deep_view().to_multiset().insert(x@),
        final(out)@.len() == old(out)@.len() + 1,
{
    broadcast use group_to_multiset_ensures;

    let ghost xv = x@;
    let ghost d0 = old(out).deep_view();
    let n = out.len();
    let mut p: usize = 0;
    while p < n && str_lt(out[p].as_str(), x.as_str())
        invariant
            p <= n,
            n == out@.len(),
            out == old(out),
            xv == x@,
            forall|j: int| 0 <= j < p ==> spec_str_lt(#[trigger] out.deep_view()[j], xv),
        decreases n - p,
    {
        proof {
            assert(out.deep_view()[p as int] == out@[p as int]@);
        }
        p += 1;
    }
    proof {
        assert(forall|j: int|
            0 <= j < out@.len() ==> #[trigger] out.deep_view()[j] == out@[j]@);
        if p < n {
            assert(d0[p as int] == old(out)@[p as int]@);
        }
    }
    out.insert(p, x);
    proof {
        let d1 = out.deep_view();
        assert(d1 =~= d0.take(p as int) + seq![xv] + d0.skip(p as int));
        // Contents: the new multiset is the old one plus the new string.
        let t = d0.take(p as int);
        let m = seq![xv];
        let s = d0.skip(p as int);
        lemma_multiset_commutative(t + m, s);
        lemma_multiset_commutative(t, m);
        lemma_multiset_commutative(t, s);
        assert(t + s =~= d0);
        assert(m =~= Seq::<Seq<char>>::empty().push(xv));
        assert(m.to_multiset() =~= Multiset::<Seq<char>>::empty().insert(xv)) by {
            assert(Seq::<Seq<char>>::empty().to_multiset().len() == 0);
            assert(Seq::<Seq<char>>::empty().to_multiset() =~= Multiset::<Seq<char>>::empty());
        }
        assert(d1.to_multiset() =~= d0.to_multiset().insert(xv));
        // Order: everything before the insertion point stays below it,
        // everything after stays above.
        assert forall|i: int, j: int| 0 <= i < j < d1.len() implies spec_str_le(
            d1[i],
            d1[j],
        ) by {
            if j < p {
                assert(d1[i] == d0[i] && d1[j] == d0[j]);
            } else if i < p && j == p {
                assert(d1[i] == d0[i] && d1[j] == xv);
                assert(spec_str_lt(d0[i], xv));
                if spec_str_lt(xv, d0[i]) {
                    lemma_str_lt_trans(xv, d0[i], xv);
                    lemma_str_lt_irrefl(xv);
                }
            } else if i < p && j > p {
                assert(d1[i] == d0[i] && d1[j] == d0[j - 1]);
                assert(spec_str_le(d0[i], d0[j - 1]));
            } else if i == p && j > p {
                assert(d1[i] == xv && d1[j] == d0[j - 1]);
                // The scan stopped at p, so the element there is not below
                // the new string, and the tail orders above it.
                assert(p < d0.len());
                assert(!spec_str_lt(d0[p as int], xv));
                if j - 1 > p {
                    assert(spec_str_le(d0[p as int], d0[j - 1]));
                } else {
                    lemma_str_lt_irrefl(d0[p as int]);
                }
                if spec_str_lt(d0[j - 1], xv) {
                    lemma_str_lt_connex(d0[p as int], xv);
                    if spec_str_lt(xv, d0[p as int]) {
                        lemma_str_lt_trans(d0[j - 1], xv, d0[p as int]);
                        lemma_str_lt_irrefl(d0[j - 1]);
                        assert(spec_str_lt(d0[j - 1], d0[p as int]));
                        assert(!spec_str_le(d0[p as int], d0[j - 1]));
                    } else {
                        assert(xv == d0[p as int]);
                        assert(spec_str_lt(d0[j - 1], d0[p as int]));
                        assert(!spec_str_le(d0[p as int], d0[j - 1]));
                    }
                }
            } else {
                assert(d1[i] == d0[i - 1] && d1[j] == d0[j - 1]);
            }
        }
    }
}

/// Sort strings ascending in the lexicographic order; the contents are
/// exactly those given.
pub fn sort_strings(v: Vec<String>) -> (r: Vec<String>)
    ensures
        sorted_le(r.deep_view()),
        r.deep_view().to_multiset() == v.deep_view().to_multiset(),
        r@.len() == v@.len(),
{
    broadcast use group_to_multiset_ensures;

    let n = v.len();
    let mut out: Vec<String> = Vec::new();
    let mut i: usize = 0;
    proof {
        assert(out.deep_view() =~= Seq::<Seq<char>>::empty());
        assert(v.deep_view().take(0) =~= Seq::<Seq<char>>::empty());
    }
    while i < n
        invariant
            i <= n,
            n == v@.len(),
            out@.len() == i,
            sorted_le(out.deep_view()),
            out.deep_view().to_multiset() == v.deep_view().take(i as int).to_multiset(),
        decreases n - i,
    {
        insert_sorted(&mut out, v[i].clone());
        proof {
            broadcast use group_to_multiset_ensures;

            assert(v.deep_view().take(i + 1) =~= v.deep_view().take(i as int).push(
                v.deep_view()[i as int],
            ));
            assert(v.deep_view()[i as int] == v@[i as int]@);
            assert(v.deep_view().take(i as int).push(v.deep_view()[i as int]).to_multiset()
                =~= v.deep_view().take(i as int).to_multiset().insert(
                v.deep_view()[i as int],
            ));
        }
        i += 1;
    }
    proof {
        assert(v.deep_view().take(n as int) =~= v.deep_view());
    }
    out
}

/// The entry list shown for a directory: the parent entry first, then the
/// subdirectories sorted ascending.
pub fn browse_entries(subdirs: Vec<String>) -> (r: Vec<String>)
    ensures
        r@.len() == subdirs@.len() + 1,
        r.deep_view()[0] == ".."@,
        sorted_le(r.deep_view().skip(1)),
        r.deep_view().skip(1).to_multiset() == subdirs.deep_view().to_multiset(),
{
    let sorted = sort_strings(subdirs);
    let mut out: Vec<String> = Vec::new();
    out.push("..".to_owned());
    let n = sorted.len();
    let mut i: usize = 0;
    while i < n
        invariant
            i <= n,
            n == sorted@.len(),
            out@.len() == 1 + i,
            out@[0]@ == ".."@,
            forall|j: int| 1 <= j < 1 + i ==> (#[trigger] out@[j])@ == sorted@[j - 1]@,
        decreases n - i,
    {
        out.push(sorted[i].clone());
        i += 1;
    }
    proof {
        assert(forall|j: int|
            0 <= j < out@.len() ==> #[trigger] out.deep_view()[j] == out@[j]@);
        assert(forall|j: int|
            0 <= j < sorted@.len() ==> #[trigger] sorted.deep_view()[j] == sorted@[j]@);
        assert(out.deep_view().skip(1) =~= sorted.deep_view());
    }
    out
}

/// Index of the last slash, or `-1`.
pub open spec fn spec_last_slash(p: Seq<char>) -> int
    decreases p.len(),
{
    if p.len() == 0 {
        -1
    } else if p.last() == '/' {
        p.len() - 1
    } else {
        spec_last_slash(p.drop_last())
    }
}

/// The path one directory up: everything before the last slash, the root
/// when the last slash leads, the empty path when there is no slash. The
/// root and the empty path stay as they are.
pub open spec fn spec_parent_path(p: Seq<char>) -> Seq<char> {
    let j = spec_last_slash(p);
    if j < 0 {
        Seq::empty()
    } else if j == 0 {
        "/"@
    } else {
        p.take(j)
    }
}

proof fn lemma_last_slash_take(p: Seq<char>, i: int)
    requires
        0 <= i <= p.len(),
        forall|j: int| i <= j < p.len() ==> p[j] != '/',
    ensures
        spec_last_slash(p) == spec_last_slash(p.take(i)),
    decreases p.len() - i,
{
    if i < p.len() {
        assert(p.last() != '/');
        lemma_last_slash_take(p.drop_last(), i);
        assert(p.drop_last().take(i) =~= p.take(i));
    } else {
        assert(p.take(i) =~= p);
    }
}

/// Move one directory up.
pub fn parent_path(p: &str) -> (r: String)
    ensures
        r@ == spec_parent_path(p@),
{
    let len = p.unicode_len();
    let mut end: usize = len;
    while end > 0 && !(p.get_char(end - 1) == '/')
        invariant
            end <= len,
            len == p@.len(),
            forall|j: int| end <= j < len ==> p@[j] != '/',
        decreases end,
    {
        end -= 1;
    }
    proof {
        lemma_last_slash_take(p@, end as int);
    }
    if end == 0 {
        proof {
            assert(p@.take(0) =~= Seq::<char>::empty());
            assert(spec_last_slash(p@) == -1);
        }
        String::new()
    } else if end == 1 {
        proof {
            assert(p@.take(1) =~= Seq::<char>::empty().push(p@[0]));
            assert(p@[0] == '/');
            assert(spec_last_slash(p@) == 0);
        }
        "/".to_owned()
    } else {
        proof {
            assert(p@.take(end as int).last() == '/');
            assert(spec_last_slash(p@) == end - 1);
        }
        let r = p.substring_char(0, end - 1).to_owned();
        proof {
            assert(p@.subrange(0, end - 1) =~= p@.take(end - 1));
        }
        r
    }
}

/// The path of an entry inside a directory: the directory, a slash, the
/// entry's name.
pub fn child_path(base: &str, name: &str) -> (r: String)
    ensures
        r@ == base@ + "/"@ + name@,
{
    let mut out = base.to_owned();
    out.append("/");
    out.append(name);
    out
}

/// Whether an entry is the synthetic parent entry.
pub fn is_parent_entry(entry: &str) -> (r: bool)
    ensures
        r == (entry@ == ".."@),
{
    str_eq(entry, "..")
}

} // verus!
