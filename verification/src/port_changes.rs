//! How the set of open ports changed between two scans.
use std::collections::BTreeSet;
use vstd::prelude::*;
use vstd::std_specs::cmp::OrdSpec;
use vstd::std_specs::iter::IteratorSpec;

verus! {

broadcast use {vstd::std_specs::btree::group_btree_axioms, vstd::laws_cmp::group_laws_cmp};

proof fn lemma_take_next_contains(keys: Seq<u16>, i: int, p: u16)
    requires
        0 <= i < keys.len(),
    ensures
        keys.take(i + 1).contains(p) <==> (keys.take(i).contains(p) || keys[i] == p),
{
    let t1 = keys.take(i + 1);
    let t0 = keys.take(i);
    if t1.contains(p) {
        let k = choose|k: int| 0 <= k < t1.len() && t1[k] == p;
        if k < i {
            assert(keys.take(i)[k] == p);
        }
    }
    if t0.contains(p) {
        let k = choose|k: int| 0 <= k < t0.len() && t0[k] == p;
        assert(keys.take(i + 1)[k] == p);
    }
    if keys[i] == p {
        assert(keys.take(i + 1)[i] == p);
    }
}

/// The ports of `a` that are in `b` (when `want_in_b`) or not in `b`.
fn filter_by(a: &BTreeSet<u16>, b: &BTreeSet<u16>, want_in_b: bool) -> (r: BTreeSet<u16>)
    ensures
        forall|p: u16| r@.contains(p) <==> (a@.contains(p) && b@.contains(p) == want_in_b),
{
    let mut r: BTreeSet<u16> = BTreeSet::new();
    let ghost keys = vstd::std_specs::btree::spec_btree_keys_iter(a).remaining().unref();
    for x in it: a.iter()
        invariant
            it.seq().unref() == keys,
            keys.to_set() == a@,
            forall|p: u16|
                r@.contains(p) <==> (keys.take(it.index()).contains(p) && b@.contains(p)
                    == want_in_b),
    {
        let ghost old_r = r@;
        let ghost i = it.index();
        let inside = b.contains(x);
        if inside == want_in_b {
            r.insert(*x);
        }
        assert(keys[i] == *x);
        assert forall|p: u16|
            r@.contains(p) <==> (keys.take(i + 1).contains(p) && b@.contains(p) == want_in_b) by {
            lemma_take_next_contains(keys, i, p);
        }
    }
    assert forall|p: u16| r@.contains(p) <==> (a@.contains(p) && b@.contains(p) == want_in_b) by {
        assert(keys.take(keys.len() as int) =~= keys);
        if a@.contains(p) {
            assert(keys.to_set().contains(p));
        }
    }
    r
}

/// The ports of `a` that are also in `b`.
pub fn intersection(a: &BTreeSet<u16>, b: &BTreeSet<u16>) -> (r: BTreeSet<u16>)
    ensures
        r@ == a@.intersect(b@),
{
    let r = filter_by(a, b, true);
    assert(r@ =~= a@.intersect(b@));
    r
}

/// The ports of `a` that are not in `b`.
pub fn difference(a: &BTreeSet<u16>, b: &BTreeSet<u16>) -> (r: BTreeSet<u16>)
    ensures
        r@ == a@.difference(b@),
{
    let r = filter_by(a, b, false);
    assert(r@ =~= a@.difference(b@));
    r
}

/// Whether a list of ports is in strictly increasing order.
pub open spec fn strictly_increasing(v: Seq<u16>) -> bool {
    forall|i: int, j: int| 0 <= i < j < v.len() ==> v[i] < v[j]
}

proof fn lemma_iteration_increasing(s: &BTreeSet<u16>)
    ensures
        strictly_increasing(vstd::std_specs::btree::spec_btree_keys_iter(s).remaining().unref()),
        vstd::std_specs::btree::spec_btree_keys_iter(s).remaining().unref().len() == s@.len(),
{
    let rem = vstd::std_specs::btree::spec_btree_keys_iter(s).remaining();
    let keys = rem.unref();
    vstd::std_specs::btree::axiom_spec_btree_keys_iter(s);
    assert(vstd::std_specs::btree::increasing_seq(rem));
    assert(vstd::laws_cmp::obeys_cmp::<&u16>());
    vstd::std_specs::btree::axiom_increasing_seq_meaning(rem);
    assert forall|i: int, j: int| 0 <= i < j < keys.len() implies keys[i] < keys[j] by {
        let a = rem[i];
        let b = rem[j];
        assert((&a).cmp_spec(&b) is Less);
    }
}

/// The ports of a set in increasing order, as iterating a `BTreeSet` yields them.
pub fn sorted_ports(s: &BTreeSet<u16>) -> (r: Vec<u16>)
    ensures
        r@.to_set() == s@,
        strictly_increasing(r@),
        r@.len() == s@.len(),
{
    let mut r: Vec<u16> = Vec::new();
    let ghost keys = vstd::std_specs::btree::spec_btree_keys_iter(s).remaining().unref();
    proof {
        lemma_iteration_increasing(s);
    }
    for x in it: s.iter()
        invariant
            it.seq().unref() == keys,
            keys.to_set() == s@,
            strictly_increasing(keys),
            r@ == keys.take(it.index()),
    {
        let ghost i = it.index();
        assert(keys[i] == *x);
        r.push(*x);
        assert(r@ =~= keys.take(i + 1));
    }
    assert(keys.take(keys.len() as int) =~= keys);
    r
}

/// How the open ports differ between two scans.
#[derive(Debug)]
pub struct PortChanges {
    pub added: BTreeSet<u16>,
    pub removed: BTreeSet<u16>,
    pub ports_known: BTreeSet<u16>,
}

impl PortChanges {
    /// Whether nothing was added or removed.
    pub fn is_equal(&self) -> (b: bool)
        ensures
            b == (self.added@.is_empty() && self.removed@.is_empty()),
    {
        self.added.is_empty() && self.removed.is_empty()
    }

    /// The changes from the `previous` scan to the `current` one.
    pub fn compare_ports(previous: &BTreeSet<u16>, current: &BTreeSet<u16>) -> (c: PortChanges)
        ensures
            c.added@ == current@.difference(previous@),
            c.removed@ == previous@.difference(current@),
            c.ports_known@ == current@,
    {
        PortChanges {
            added: difference(current, previous),
            removed: difference(previous, current),
            ports_known: current.clone(),
        }
    }
}

/// The changes between two scans, applied to the first, give the second; no
/// port is both added and removed; and there are no changes exactly when the
/// scans agree.
pub proof fn lemma_changes_apply(previous: Set<u16>, current: Set<u16>)
    ensures
        previous.union(current.difference(previous)).difference(previous.difference(current))
            == current,
        current.difference(previous).disjoint(previous.difference(current)),
        (current.difference(previous).is_empty() && previous.difference(current).is_empty())
            <==> previous == current,
{
    assert(previous.union(current.difference(previous)).difference(previous.difference(current))
        =~= current);
    if current.difference(previous).is_empty() && previous.difference(current).is_empty() {
        assert forall|p: u16| previous.contains(p) <==> current.contains(p) by {
            if previous.contains(p) && !current.contains(p) {
                assert(previous.difference(current).contains(p));
            }
            if current.contains(p) && !previous.contains(p) {
                assert(current.difference(previous).contains(p));
            }
        }
        assert(previous =~= current);
    }
    if previous == current {
        assert(current.difference(previous) =~= Set::<u16>::empty());
        assert(previous.difference(current) =~= Set::<u16>::empty());
    }
}

} // verus!
