//! The running-instance registry: one record per configuration name, held
//! in ascending name order, overwritten on relaunch and removed on stop.

use vstd::prelude::*;
use crate::config::{InstanceView, McpInstance};
use crate::text::{spec_str_lt, str_eq, str_lt, lemma_str_lt_irrefl, lemma_str_lt_trans,
    lemma_str_lt_connex};

verus! {

/// The record under a configuration name: the first matching entry, if any.
pub open spec fn reg_get(m: Seq<InstanceView>, name: Seq<char>) -> Option<InstanceView>
    decreases m.len(),
{
    if m.len() == 0 {
        None
    } else if m[0].config.name == name {
        Some(m[0])
    } else {
        reg_get(m.skip(1), name)
    }
}

/// Whether a record exists under a configuration name.
pub open spec fn reg_contains(m: Seq<InstanceView>, name: Seq<char>) -> bool {
    reg_get(m, name) is Some
}

/// Insert a record keyed by its configuration name: replace the record of
/// an equal name, otherwise splice the new record in at its ordered
/// position.
pub open spec fn reg_insert(m: Seq<InstanceView>, inst: InstanceView) -> Seq<InstanceView>
    decreases m.len(),
{
    if m.len() == 0 {
        seq![inst]
    } else if m[0].config.name == inst.config.name {
        seq![inst] + m.skip(1)
    } else if spec_str_lt(inst.config.name, m[0].config.name) {
        seq![inst] + m
    } else {
        seq![m[0]] + reg_insert(m.skip(1), inst)
    }
}

/// Remove the record under a name, if one exists.
pub open spec fn reg_remove(m: Seq<InstanceView>, name: Seq<char>) -> Seq<InstanceView>
    decreases m.len(),
{
    if m.len() == 0 {
        m
    } else if m[0].config.name == name {
        m.skip(1)
    } else {
        seq![m[0]] + reg_remove(m.skip(1), name)
    }
}

/// Configuration names strictly ascend, so each name occurs at most once.
pub open spec fn reg_sorted(m: Seq<InstanceView>) -> bool {
    forall|i: int, j: int|
        0 <= i < j < m.len() ==> spec_str_lt(
            (#[trigger] m[i]).config.name,
            (#[trigger] m[j]).config.name,
        )
}

/// After an insert, the inserted name holds the new record and any other
/// name reads as before.
pub proof fn lemma_reg_insert_get(m: Seq<InstanceView>, inst: InstanceView, q: Seq<char>)
    ensures
        reg_get(reg_insert(m, inst), q) == if q == inst.config.name {
            Some(inst)
        } else {
            reg_get(m, q)
        },
    decreases m.len(),
{
    let r = reg_insert(m, inst);
    if m.len() == 0 {
        assert(r[0] == inst);
        if q == inst.config.name {
            assert(reg_get(r, q) == Some(inst));
        } else {
            assert(r.skip(1) =~= Seq::<InstanceView>::empty());
            assert(reg_get(r, q) == reg_get(r.skip(1), q));
        }
    } else if m[0].config.name == inst.config.name {
        assert(r[0] == inst);
        assert(r.skip(1) =~= m.skip(1));
        if q != inst.config.name {
            assert(reg_get(r, q) == reg_get(m.skip(1), q));
            assert(reg_get(m, q) == reg_get(m.skip(1), q));
        }
    } else if spec_str_lt(inst.config.name, m[0].config.name) {
        assert(r[0] == inst);
        assert(r.skip(1) =~= m);
        if q != inst.config.name {
            assert(reg_get(r, q) == reg_get(m, q));
        }
    } else {
        lemma_reg_insert_get(m.skip(1), inst, q);
        assert(r[0] == m[0]);
        assert(r.skip(1) =~= reg_insert(m.skip(1), inst));
        assert(reg_get(r, q) == if q == m[0].config.name {
            Some(m[0])
        } else {
            reg_get(reg_insert(m.skip(1), inst), q)
        });
    }
}

/// A strict lower bound on every name stays one after an insert above it.
proof fn lemma_reg_insert_name_bound(m: Seq<InstanceView>, inst: InstanceView, lo: Seq<char>)
    requires
        spec_str_lt(lo, inst.config.name),
        forall|i: int| 0 <= i < m.len() ==> spec_str_lt(lo, (#[trigger] m[i]).config.name),
    ensures
        forall|i: int|
            0 <= i < reg_insert(m, inst).len() ==> spec_str_lt(
                lo,
                (#[trigger] reg_insert(m, inst)[i]).config.name,
            ),
    decreases m.len(),
{
    let r = reg_insert(m, inst);
    if m.len() == 0 {
    } else if m[0].config.name == inst.config.name {
        assert(forall|i: int| 1 <= i < r.len() ==> r[i] == m[i]);
    } else if spec_str_lt(inst.config.name, m[0].config.name) {
        assert(forall|i: int| 1 <= i < r.len() ==> r[i] == m[i - 1]);
    } else {
        assert(forall|i: int| 0 <= i < m.skip(1).len() ==> m.skip(1)[i] == m[i + 1]);
        lemma_reg_insert_name_bound(m.skip(1), inst, lo);
        assert(forall|i: int| 1 <= i < r.len() ==> r[i] == reg_insert(m.skip(1), inst)[i - 1]);
    }
}

/// Inserting keeps the ascending name order.
pub proof fn lemma_reg_insert_sorted(m: Seq<InstanceView>, inst: InstanceView)
    requires
        reg_sorted(m),
    ensures
        reg_sorted(reg_insert(m, inst)),
    decreases m.len(),
{
    let r = reg_insert(m, inst);
    let k = inst.config.name;
    if m.len() == 0 {
    } else if m[0].config.name == k {
        assert forall|i: int, j: int| 0 <= i < j < r.len() implies spec_str_lt(
            r[i].config.name,
            r[j].config.name,
        ) by {
            if i == 0 {
                assert(r[j] == m[j]);
                assert(spec_str_lt(m[0].config.name, m[j].config.name));
            } else {
                assert(r[i] == m[i] && r[j] == m[j]);
            }
        }
    } else if spec_str_lt(k, m[0].config.name) {
        assert forall|i: int, j: int| 0 <= i < j < r.len() implies spec_str_lt(
            r[i].config.name,
            r[j].config.name,
        ) by {
            if i == 0 {
                assert(r[j] == m[j - 1]);
                if j > 1 {
                    lemma_str_lt_trans(k, m[0].config.name, m[j - 1].config.name);
                }
            } else {
                assert(r[i] == m[i - 1] && r[j] == m[j - 1]);
            }
        }
    } else {
        lemma_str_lt_connex(k, m[0].config.name);
        assert(forall|i: int, j: int|
            0 <= i < j < m.skip(1).len() ==> spec_str_lt(
                (#[trigger] m.skip(1)[i]).config.name,
                (#[trigger] m.skip(1)[j]).config.name,
            ));
        lemma_reg_insert_sorted(m.skip(1), inst);
        lemma_reg_insert_name_bound(m.skip(1), inst, m[0].config.name);
        let t = reg_insert(m.skip(1), inst);
        assert forall|i: int, j: int| 0 <= i < j < r.len() implies spec_str_lt(
            r[i].config.name,
            r[j].config.name,
        ) by {
            if i == 0 {
                assert(r[j] == t[j - 1]);
            } else {
                assert(r[i] == t[i - 1] && r[j] == t[j - 1]);
            }
        }
    }
}

/// Names absent everywhere are not found.
proof fn lemma_reg_get_none(m: Seq<InstanceView>, name: Seq<char>)
    requires
        forall|i: int| 0 <= i < m.len() ==> (#[trigger] m[i]).config.name != name,
    ensures
        reg_get(m, name) is None,
    decreases m.len(),
{
    if m.len() > 0 {
        assert(forall|i: int| 0 <= i < m.skip(1).len() ==> m.skip(1)[i] == m[i + 1]);
        lemma_reg_get_none(m.skip(1), name);
    }
}

/// In a sorted registry, inserting an already-present name keeps the
/// record count; a new name grows it by one.
pub proof fn lemma_reg_insert_len(m: Seq<InstanceView>, inst: InstanceView)
    requires
        reg_sorted(m),
    ensures
        reg_insert(m, inst).len() == if reg_contains(m, inst.config.name) {
            m.len()
        } else {
            m.len() + 1
        },
    decreases m.len(),
{
    let k = inst.config.name;
    if m.len() == 0 {
    } else if m[0].config.name == k {
    } else if spec_str_lt(k, m[0].config.name) {
        assert forall|i: int| 0 <= i < m.len() implies (#[trigger] m[i]).config.name != k by {
            if i > 0 {
                lemma_str_lt_trans(k, m[0].config.name, m[i].config.name);
            }
            lemma_str_lt_irrefl(k);
            if m[i].config.name == k {
                assert(spec_str_lt(k, k));
            }
        }
        lemma_reg_get_none(m, k);
    } else {
        assert(forall|i: int, j: int|
            0 <= i < j < m.skip(1).len() ==> spec_str_lt(
                (#[trigger] m.skip(1)[i]).config.name,
                (#[trigger] m.skip(1)[j]).config.name,
            ));
        lemma_reg_insert_len(m.skip(1), inst);
        assert(reg_get(m, k) == reg_get(m.skip(1), k));
    }
}

/// Launching the same configuration twice before a stop overwrites the
/// record rather than duplicating it: the second insert alone decides what
/// the registry holds under that name.
pub proof fn lemma_reg_insert_overwrites(m: Seq<InstanceView>, a: InstanceView, b: InstanceView)
    requires
        reg_sorted(m),
        a.config.name == b.config.name,
    ensures
        reg_insert(reg_insert(m, a), b) == reg_insert(m, b),
        reg_insert(reg_insert(m, a), b).len() == reg_insert(m, a).len(),
    decreases m.len(),
{
    let k = a.config.name;
    let r1 = reg_insert(m, a);
    lemma_reg_insert_sorted(m, a);
    lemma_reg_insert_len(m, a);
    lemma_reg_insert_len(r1, b);
    lemma_reg_insert_get(m, a, k);
    if m.len() == 0 {
        assert(r1 == seq![a]);
        assert(r1[0].config.name == k);
        assert(reg_insert(r1, b) == seq![b] + r1.skip(1));
        assert(seq![b] + r1.skip(1) =~= seq![b]);
        assert(reg_insert(m, b) == seq![b]);
    } else if m[0].config.name == k {
        assert(r1 == seq![a] + m.skip(1));
        assert(r1[0] == a);
        assert(reg_insert(r1, b) == seq![b] + r1.skip(1));
        assert(r1.skip(1) =~= m.skip(1));
        assert(reg_insert(m, b) == seq![b] + m.skip(1));
    } else if spec_str_lt(k, m[0].config.name) {
        assert(r1 == seq![a] + m);
        assert(r1[0] == a);
        assert(reg_insert(r1, b) == seq![b] + r1.skip(1));
        assert(r1.skip(1) =~= m);
        assert(reg_insert(m, b) == seq![b] + m);
    } else {
        assert(forall|i: int, j: int|
            0 <= i < j < m.skip(1).len() ==> spec_str_lt(
                (#[trigger] m.skip(1)[i]).config.name,
                (#[trigger] m.skip(1)[j]).config.name,
            ));
        lemma_reg_insert_overwrites(m.skip(1), a, b);
        assert(r1 == seq![m[0]] + reg_insert(m.skip(1), a));
        assert(r1[0] == m[0]);
        assert(r1.skip(1) =~= reg_insert(m.skip(1), a));
        assert(reg_insert(r1, b) == seq![m[0]] + reg_insert(reg_insert(m.skip(1), a), b));
        assert(reg_insert(m, b) == seq![m[0]] + reg_insert(m.skip(1), b));
    }
}

/// Removing keeps the ascending name order.
pub proof fn lemma_reg_remove_sorted(m: Seq<InstanceView>, name: Seq<char>)
    requires
        reg_sorted(m),
    ensures
        reg_sorted(reg_remove(m, name)),
        reg_remove(m, name).len() <= m.len(),
    decreases m.len(),
{
    let r = reg_remove(m, name);
    if m.len() == 0 {
    } else if m[0].config.name == name {
        assert(forall|i: int, j: int|
            0 <= i < j < m.skip(1).len() ==> spec_str_lt(
                (#[trigger] m.skip(1)[i]).config.name,
                (#[trigger] m.skip(1)[j]).config.name,
            ));
    } else {
        assert(forall|i: int, j: int|
            0 <= i < j < m.skip(1).len() ==> spec_str_lt(
                (#[trigger] m.skip(1)[i]).config.name,
                (#[trigger] m.skip(1)[j]).config.name,
            ));
        lemma_reg_remove_sorted(m.skip(1), name);
        let t = reg_remove(m.skip(1), name);
        lemma_reg_remove_subset(m.skip(1), name);
        assert forall|i: int, j: int| 0 <= i < j < r.len() implies spec_str_lt(
            r[i].config.name,
            r[j].config.name,
        ) by {
            if i == 0 {
                assert(r[j] == t[j - 1]);
            } else {
                assert(r[i] == t[i - 1] && r[j] == t[j - 1]);
            }
        }
    }
}

/// Every record that survives a removal stood in the registry before it.
proof fn lemma_reg_remove_subset(m: Seq<InstanceView>, name: Seq<char>)
    ensures
        forall|i: int|
            0 <= i < reg_remove(m, name).len() ==> exists|j: int|
                0 <= j < m.len() && m[j] == #[trigger] reg_remove(m, name)[i],
    decreases m.len(),
{
    let r = reg_remove(m, name);
    if m.len() == 0 {
    } else if m[0].config.name == name {
        assert forall|i: int| 0 <= i < r.len() implies exists|j: int|
            0 <= j < m.len() && m[j] == #[trigger] r[i] by {
            assert(m[i + 1] == r[i]);
        }
    } else {
        lemma_reg_remove_subset(m.skip(1), name);
        let t = reg_remove(m.skip(1), name);
        assert forall|i: int| 0 <= i < r.len() implies exists|j: int|
            0 <= j < m.len() && m[j] == #[trigger] r[i] by {
            if i == 0 {
                assert(m[0] == r[0]);
            } else {
                assert(r[i] == t[i - 1]);
                let jj = choose|jj: int| 0 <= jj < m.skip(1).len() && m.skip(1)[jj] == t[i - 1];
                assert(m[jj + 1] == r[i]);
            }
        }
    }
}

/// The running-instance registry, in ascending configuration-name order.
pub struct InstanceRegistry {
    pub items: Vec<McpInstance>,
}

impl View for InstanceRegistry {
    type V = Seq<InstanceView>;

    open spec fn view(&self) -> Seq<InstanceView> {
        Seq::new(self.items@.len(), |i: int| self.items@[i]@)
    }
}

impl InstanceRegistry {
    /// The registry's invariant: names strictly ascend.
    pub open spec fn wf(&self) -> bool {
        reg_sorted(self@)
    }

    /// An empty registry.
    pub fn new() -> (r: InstanceRegistry)
        ensures
            r@ == Seq::<InstanceView>::empty(),
            r.wf(),
    {
        let r = InstanceRegistry { items: Vec::new() };
        proof {
            assert(r@ =~= Seq::<InstanceView>::empty());
        }
        r
    }

    /// Number of records.
    pub fn len(&self) -> (r: usize)
        ensures
            r == self@.len(),
    {
        self.items.len()
    }

    /// The record at a position, in ascending name order.
    pub fn get_at(&self, i: usize) -> (r: &McpInstance)
        requires
            i < self@.len(),
        ensures
            r@ == self@[i as int],
    {
        &self.items[i]
    }

    /// Insert a record under its configuration name, replacing any prior
    /// record of that name and keeping the ascending name order.
    pub fn insert(&mut self, inst: McpInstance)
        requires
            old(self).wf(),
        ensures
            final(self)@ == reg_insert(old(self)@, inst@),
            final(self).wf(),
    {
        let ghost iv: InstanceView = inst@;
        let n = self.items.len();
        let mut i: usize = 0;
        while i < n && str_lt(self.items[i].config.name.as_str(), inst.config.name.as_str())
            invariant
                i <= n,
                n == self@.len(),
                self == old(self),
                iv == inst@,
                forall|j: int|
                    0 <= j < i ==> spec_str_lt((#[trigger] self@[j]).config.name, iv.config.name),
            decreases n - i,
        {
            proof {
                assert(self@[i as int].config.name == self.items@[i as int].config.name@);
                assert(iv.config.name == inst.config.name@);
            }
            i += 1;
        }
        proof {
            lemma_reg_insert_take_skip(old(self)@, iv, i as int);
            lemma_reg_insert_sorted(old(self)@, iv);
        }
        if i == n {
            proof {
                assert(old(self)@.skip(n as int) =~= Seq::<InstanceView>::empty());
                assert(old(self)@.take(n as int) =~= old(self)@);
            }
            self.items.push(inst);
            proof {
                assert(self@ =~= old(self)@ + seq![iv]);
                assert(self@ =~= reg_insert(old(self)@, iv));
            }
        } else {
            proof {
                assert(old(self)@.skip(i as int)[0] == old(self)@[i as int]);
                assert(old(self)@.skip(i as int).skip(1) =~= old(self)@.skip(i + 1));
            }
            if str_eq(self.items[i].config.name.as_str(), inst.config.name.as_str()) {
                proof {
                    assert(old(self)@.skip(i as int)[0].config.name == iv.config.name);
                    assert(reg_insert(old(self)@.skip(i as int), iv) == seq![iv] + old(
                        self,
                    )@.skip(i as int).skip(1));
                }
                self.items.set(i, inst);
                proof {
                    assert(self@ =~= old(self)@.take(i as int) + (seq![iv] + old(self)@.skip(
                        i + 1,
                    )));
                    assert(self@ =~= reg_insert(old(self)@, iv));
                }
            } else {
                proof {
                    lemma_str_lt_connex(iv.config.name, old(self)@[i as int].config.name);
                    assert(old(self)@.skip(i as int)[0].config.name != iv.config.name);
                    assert(spec_str_lt(
                        iv.config.name,
                        old(self)@.skip(i as int)[0].config.name,
                    ));
                    assert(reg_insert(old(self)@.skip(i as int), iv) == seq![iv] + old(
                        self,
                    )@.skip(i as int));
                }
                self.items.insert(i, inst);
                proof {
                    assert(self@ =~= old(self)@.take(i as int) + (seq![iv] + old(self)@.skip(
                        i as int,
                    )));
                    assert(self@ =~= reg_insert(old(self)@, iv));
                }
            }
        }
    }

    /// Remove the record under a name, if one exists.
    pub fn remove_name(&mut self, name: &str)
        requires
            old(self).wf(),
        ensures
            final(self)@ == reg_remove(old(self)@, name@),
            final(self).wf(),
    {
        let n = self.items.len();
        let mut i: usize = 0;
        proof {
            lemma_reg_remove_sorted(old(self)@, name@);
        }
        while i < n && !str_eq(self.items[i].config.name.as_str(), name)
            invariant
                i <= n,
                n == self@.len(),
                self == old(self),
                forall|j: int| 0 <= j < i ==> (#[trigger] self@[j]).config.name != name@,
            decreases n - i,
        {
            i += 1;
        }
        proof {
            lemma_reg_remove_take_skip(old(self)@, name@, i as int);
        }
        if i == n {
            proof {
                assert(old(self)@.skip(n as int) =~= Seq::<InstanceView>::empty());
                assert(old(self)@.take(n as int) =~= old(self)@);
                assert(self@ =~= reg_remove(old(self)@, name@));
            }
        } else {
            proof {
                assert(old(self)@.skip(i as int)[0] == old(self)@[i as int]);
                assert(old(self)@.skip(i as int)[0].config.name == name@);
                assert(reg_remove(old(self)@.skip(i as int), name@) == old(self)@.skip(
                    i as int,
                ).skip(1));
                assert(old(self)@.skip(i as int).skip(1) =~= old(self)@.skip(i + 1));
            }
            self.items.remove(i);
            proof {
                assert(self@ =~= old(self)@.take(i as int) + old(self)@.skip(i + 1));
                assert(self@ =~= reg_remove(old(self)@, name@));
            }
        }
    }
}

/// If the first `i` names all order below the inserted name, the insert
/// splits: the prefix stays and the insert happens in the rest.
proof fn lemma_reg_insert_take_skip(m: Seq<InstanceView>, inst: InstanceView, i: int)
    requires
        0 <= i <= m.len(),
        forall|j: int| 0 <= j < i ==> spec_str_lt((#[trigger] m[j]).config.name, inst.config.name),
    ensures
        reg_insert(m, inst) == m.take(i) + reg_insert(m.skip(i), inst),
    decreases i,
{
    let k = inst.config.name;
    if i == 0 {
        assert(m.take(0) =~= Seq::<InstanceView>::empty());
        assert(m.skip(0) =~= m);
        assert(m.take(0) + reg_insert(m.skip(0), inst) =~= reg_insert(m, inst));
    } else {
        assert(m.len() > 0);
        assert(spec_str_lt(m[0].config.name, k));
        lemma_str_lt_irrefl(k);
        if spec_str_lt(k, m[0].config.name) {
            lemma_str_lt_trans(k, m[0].config.name, k);
            assert(false);
        }
        assert(reg_insert(m, inst) == seq![m[0]] + reg_insert(m.skip(1), inst));
        assert(forall|j: int| 0 <= j < m.skip(1).len() ==> m.skip(1)[j] == m[j + 1]);
        lemma_reg_insert_take_skip(m.skip(1), inst, i - 1);
        assert(m.skip(1).take(i - 1) =~= m.take(i).skip(1));
        assert(m.skip(1).skip(i - 1) =~= m.skip(i));
        assert(seq![m[0]] + (m.take(i).skip(1) + reg_insert(m.skip(i), inst)) =~= m.take(i)
            + reg_insert(m.skip(i), inst));
    }
}

/// If the first `i` names all differ from the removed name, the removal
/// splits: the prefix stays and the removal happens in the rest.
proof fn lemma_reg_remove_take_skip(m: Seq<InstanceView>, name: Seq<char>, i: int)
    requires
        0 <= i <= m.len(),
        forall|j: int| 0 <= j < i ==> (#[trigger] m[j]).config.name != name,
    ensures
        reg_remove(m, name) == m.take(i) + reg_remove(m.skip(i), name),
    decreases i,
{
    if i == 0 {
        assert(m.take(0) =~= Seq::<InstanceView>::empty());
        assert(m.skip(0) =~= m);
        assert(m.take(0) + reg_remove(m.skip(0), name) =~= reg_remove(m, name));
    } else {
        assert(m.len() > 0);
        assert(reg_remove(m, name) == seq![m[0]] + reg_remove(m.skip(1), name));
        assert(forall|j: int| 0 <= j < m.skip(1).len() ==> m.skip(1)[j] == m[j + 1]);
        lemma_reg_remove_take_skip(m.skip(1), name, i - 1);
        assert(m.skip(1).take(i - 1) =~= m.take(i).skip(1));
        assert(m.skip(1).skip(i - 1) =~= m.skip(i));
        assert(seq![m[0]] + (m.take(i).skip(1) + reg_remove(m.skip(i), name)) =~= m.take(i)
            + reg_remove(m.skip(i), name));
    }
}

} // verus!
