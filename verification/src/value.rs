//! Generic configuration value trees and the structural, depth-bounded merge.
use vstd::prelude::*;

verus! {

broadcast use vstd::std_specs::vec::group_vec_axioms;

/// A heterogeneous configuration value: a table of string-keyed entries,
/// an array, or a scalar. Scalars that the merge never interprets (floats,
/// datetimes) are carried by their textual form.
#[derive(Debug, PartialEq)]
pub enum ValueTree {
    Table(Vec<(String, ValueTree)>),
    Array(Vec<ValueTree>),
    Str(String),
    Int(i64),
    Bool(bool),
    Float(String),
    Datetime(String),
}

/// The mathematical model of a `ValueTree`.
#[verifier::ext_equal]
pub enum TreeModel {
    Table(Seq<(Seq<char>, TreeModel)>),
    Array(Seq<TreeModel>),
    Str(Seq<char>),
    Int(int),
    Bool(bool),
    Float(Seq<char>),
    Datetime(Seq<char>),
}

/// Model of a table's entry list: each key as its character sequence,
/// each value as its model.
pub open spec fn entries_model(es: Seq<(String, ValueTree)>) -> Seq<(Seq<char>, TreeModel)>
    decreases es,
{
    if es.len() == 0 {
        Seq::empty()
    } else {
        seq![(es[0].0@, es[0].1.model())] + entries_model(es.drop_first())
    }
}

/// Model of an array's element list.
pub open spec fn elems_model(es: Seq<ValueTree>) -> Seq<TreeModel>
    decreases es,
{
    if es.len() == 0 {
        Seq::empty()
    } else {
        seq![es[0].model()] + elems_model(es.drop_first())
    }
}

impl ValueTree {
    pub open spec fn model(self) -> TreeModel
        decreases self,
    {
        match self {
            ValueTree::Table(es) => TreeModel::Table(entries_model(es@)),
            ValueTree::Array(es) => TreeModel::Array(elems_model(es@)),
            ValueTree::Str(s) => TreeModel::Str(s@),
            ValueTree::Int(i) => TreeModel::Int(i as int),
            ValueTree::Bool(b) => TreeModel::Bool(b),
            ValueTree::Float(s) => TreeModel::Float(s@),
            ValueTree::Datetime(s) => TreeModel::Datetime(s@),
        }
    }
}

impl View for ValueTree {
    type V = TreeModel;

    open spec fn view(&self) -> TreeModel {
        self.model()
    }
}

pub proof fn lemma_entries_model(es: Seq<(String, ValueTree)>)
    ensures
        entries_model(es).len() == es.len(),
        forall|i: int|
            0 <= i < es.len() ==> #[trigger] entries_model(es)[i] == (es[i].0@, es[i].1.model()),
    decreases es,
{
    if es.len() > 0 {
        lemma_entries_model(es.drop_first());
    }
}

pub proof fn lemma_elems_model(es: Seq<ValueTree>)
    ensures
        elems_model(es).len() == es.len(),
        forall|i: int| 0 <= i < es.len() ==> #[trigger] elems_model(es)[i] == es[i].model(),
    decreases es,
{
    if es.len() > 0 {
        lemma_elems_model(es.drop_first());
    }
}

/// The value bound to the first occurrence of key `k` in an entry list,
/// if any.
pub open spec fn lookup_entry<T>(es: Seq<(Seq<char>, T)>, k: Seq<char>) -> Option<T>
    decreases es,
{
    if es.len() == 0 {
        None
    } else if es[0].0 == k {
        Some(es[0].1)
    } else {
        lookup_entry(es.drop_first(), k)
    }
}

/// Whether an entry list binds key `k`.
pub open spec fn has_key<T>(es: Seq<(Seq<char>, T)>, k: Seq<char>) -> bool {
    lookup_entry(es, k) is Some
}

/// The base side of a merged table: every entry of `ae` in order, its value
/// merged at depth `d` with the overlay's value when the overlay also binds
/// the key.
pub open spec fn merge_base(
    ae: Seq<(Seq<char>, TreeModel)>,
    be: Seq<(Seq<char>, TreeModel)>,
    d: nat,
) -> Seq<(Seq<char>, TreeModel)>
    decreases ae,
{
    if ae.len() == 0 {
        Seq::empty()
    } else {
        let merged_head = match lookup_entry(be, ae[0].0) {
            Some(bv) => (ae[0].0, merge_tree(ae[0].1, bv, d)),
            None => ae[0],
        };
        seq![merged_head] + merge_base(ae.drop_first(), be, d)
    }
}

/// The overlay entries whose keys the base does not bind, in overlay order.
pub open spec fn extra_entries<T>(be: Seq<(Seq<char>, T)>, ae: Seq<(Seq<char>, T)>) -> Seq<
    (Seq<char>, T),
>
    decreases be,
{
    if be.len() == 0 {
        Seq::empty()
    } else if has_key(ae, be[0].0) {
        extra_entries(be.drop_first(), ae)
    } else {
        seq![be[0]] + extra_entries(be.drop_first(), ae)
    }
}

/// The structural, depth-bounded merge of two value trees. Two tables merge
/// key by key while depth remains; in every other case — depth exhausted,
/// either side not a table — the overlay replaces the base outright.
pub open spec fn merge_tree(a: TreeModel, b: TreeModel, d: nat) -> TreeModel
    decreases a,
{
    match (a, b) {
        (TreeModel::Table(ae), TreeModel::Table(be)) => {
            if d > 0 {
                TreeModel::Table(merge_base(ae, be, (d - 1) as nat) + extra_entries(be, ae))
            } else {
                b
            }
        },
        _ => b,
    }
}

pub proof fn lemma_merge_base(
    ae: Seq<(Seq<char>, TreeModel)>,
    be: Seq<(Seq<char>, TreeModel)>,
    d: nat,
)
    ensures
        merge_base(ae, be, d).len() == ae.len(),
        forall|i: int|
            0 <= i < ae.len() ==> #[trigger] merge_base(ae, be, d)[i] == (match lookup_entry(
                be,
                ae[i].0,
            ) {
                Some(bv) => (ae[i].0, merge_tree(ae[i].1, bv, d)),
                None => ae[i],
            }),
    decreases ae,
{
    if ae.len() > 0 {
        lemma_merge_base(ae.drop_first(), be, d);
    }
}

pub proof fn lemma_entries_model_push(es: Seq<(String, ValueTree)>, e: (String, ValueTree))
    ensures
        entries_model(es.push(e)) == entries_model(es).push((e.0@, e.1.model())),
{
    lemma_entries_model(es.push(e));
    lemma_entries_model(es);
    assert(entries_model(es.push(e)) =~= entries_model(es).push((e.0@, e.1.model())));
}

pub proof fn lemma_lookup_entry_at<T>(es: Seq<(Seq<char>, T)>, k: Seq<char>, j: int)
    requires
        0 <= j < es.len(),
        es[j].0 == k,
        forall|t: int| 0 <= t < j ==> #[trigger] es[t].0 != k,
    ensures
        lookup_entry(es, k) == Some(es[j].1),
    decreases es,
{
    if j > 0 {
        lemma_lookup_entry_at(es.drop_first(), k, j - 1);
    }
}

pub proof fn lemma_lookup_entry_none<T>(es: Seq<(Seq<char>, T)>, k: Seq<char>)
    requires
        forall|t: int| 0 <= t < es.len() ==> #[trigger] es[t].0 != k,
    ensures
        lookup_entry(es, k) is None,
    decreases es,
{
    if es.len() > 0 {
        lemma_lookup_entry_none(es.drop_first(), k);
    }
}

/// The index of the first entry whose key reads as `k`, if any.
#[verifier::loop_isolation(false)]
pub fn find_key<T>(es: &Vec<(String, T)>, k: &String) -> (r: Option<usize>)
    ensures
        match r {
            Some(j) => {
                &&& j < es@.len()
                &&& es@[j as int].0@ == k@
                &&& forall|t: int| 0 <= t < j ==> #[trigger] es@[t].0@ != k@
            },
            None => forall|t: int| 0 <= t < es@.len() ==> #[trigger] es@[t].0@ != k@,
        },
{
    let mut j: usize = 0;
    while j < es.len()
        invariant
            j <= es@.len(),
            forall|t: int| 0 <= t < j ==> #[trigger] es@[t].0@ != k@,
        decreases es@.len() - j,
    {
        if es[j].0.eq(k) {
            return Some(j);
        }
        j += 1;
    }
    None
}

impl ValueTree {
    /// A structurally identical copy of the tree.
    #[verifier::loop_isolation(false)]
    pub fn duplicate(&self) -> (r: ValueTree)
        ensures
            r@ == self@,
        decreases *self,
    {
        match self {
            ValueTree::Table(es) => {
                let mut out: Vec<(String, ValueTree)> = Vec::new();
                let mut i: usize = 0;
                while i < es.len()
                    invariant
                        i <= es@.len(),
                        out@.len() == i,
                        forall|t: int|
                            0 <= t < i ==> #[trigger] out@[t].0@ == es@[t].0@ && out@[t].1.model()
                                == es@[t].1.model(),
                    decreases es@.len() - i,
                {
                    let k = es[i].0.clone();
                    proof {
                        let t = *self;
                        assert(decreases_to!(t => es@[i as int].1)) by {
                            assert(decreases_to!(t => t->Table_0));
                            assert(decreases_to!(t->Table_0 => t->Table_0[i as int]));
                            assert(decreases_to!(t->Table_0[i as int] => t->Table_0[i as int].1));
                            assert(t->Table_0 == *es);
                        }
                    }
                    let v = es[i].1.duplicate();
                    out.push((k, v));
                    i += 1;
                }
                proof {
                    lemma_entries_model(out@);
                    lemma_entries_model(es@);
                    assert(entries_model(out@) =~= entries_model(es@));
                }
                ValueTree::Table(out)
            },
            ValueTree::Array(es) => {
                let mut out: Vec<ValueTree> = Vec::new();
                let mut i: usize = 0;
                while i < es.len()
                    invariant
                        i <= es@.len(),
                        out@.len() == i,
                        forall|t: int| 0 <= t < i ==> #[trigger] out@[t].model() == es@[t].model(),
                    decreases es@.len() - i,
                {
                    proof {
                        let t = *self;
                        assert(decreases_to!(t => es@[i as int])) by {
                            assert(decreases_to!(t => t->Array_0));
                            assert(decreases_to!(t->Array_0 => t->Array_0[i as int]));
                            assert(t->Array_0 == *es);
                        }
                    }
                    let v = es[i].duplicate();
                    out.push(v);
                    i += 1;
                }
                proof {
                    lemma_elems_model(out@);
                    lemma_elems_model(es@);
                    assert(elems_model(out@) =~= elems_model(es@));
                }
                ValueTree::Array(out)
            },
            ValueTree::Str(s) => ValueTree::Str(s.clone()),
            ValueTree::Int(i) => ValueTree::Int(*i),
            ValueTree::Bool(b) => ValueTree::Bool(*b),
            ValueTree::Float(s) => ValueTree::Float(s.clone()),
            ValueTree::Datetime(s) => ValueTree::Datetime(s.clone()),
        }
    }
}

/// Push lemma for `extra_entries` on the overlay side.
pub proof fn lemma_extra_entries_push<T>(
    be: Seq<(Seq<char>, T)>,
    e: (Seq<char>, T),
    ae: Seq<(Seq<char>, T)>,
)
    ensures
        extra_entries(be.push(e), ae) == if has_key(ae, e.0) {
            extra_entries(be, ae)
        } else {
            extra_entries(be, ae).push(e)
        },
    decreases be,
{
    let s1 = be.push(e);
    if be.len() == 0 {
        assert(s1[0] == e);
        assert(s1.drop_first() =~= Seq::empty());
        assert(extra_entries(Seq::<(Seq<char>, T)>::empty(), ae) =~= Seq::<(Seq<char>, T)>::empty());
        assert(be =~= Seq::empty());
        if has_key(ae, e.0) {
            assert(extra_entries(s1, ae) =~= extra_entries(be, ae));
        } else {
            assert(extra_entries(s1, ae) =~= extra_entries(be, ae).push(e));
        }
    } else {
        assert(s1[0] == be[0]);
        assert(s1.drop_first() =~= be.drop_first().push(e));
        lemma_extra_entries_push(be.drop_first(), e, ae);
        if has_key(ae, be[0].0) {
            assert(extra_entries(s1, ae) == extra_entries(be.drop_first().push(e), ae));
            assert(extra_entries(be, ae) == extra_entries(be.drop_first(), ae));
        } else {
            assert(extra_entries(s1, ae) == seq![be[0]] + extra_entries(
                be.drop_first().push(e),
                ae,
            ));
            assert(extra_entries(be, ae) == seq![be[0]] + extra_entries(be.drop_first(), ae));
            if !has_key(ae, e.0) {
                assert(seq![be[0]] + extra_entries(be.drop_first(), ae).push(e) =~= (seq![be[0]]
                    + extra_entries(be.drop_first(), ae)).push(e));
            }
        }
    }
}

/// Merge two owned value trees at the given maximum table depth.
pub fn merge_toml_values(left: ValueTree, right: ValueTree, merge_depth: usize) -> (r: ValueTree)
    ensures
        r@ == merge_tree(left@, right@, merge_depth as nat),
{
    merge_trees(&left, &right, merge_depth)
}

/// Merge two borrowed value trees at the given maximum table depth.
#[verifier::loop_isolation(false)]
pub fn merge_trees(a: &ValueTree, b: &ValueTree, d: usize) -> (r: ValueTree)
    ensures
        r@ == merge_tree(a@, b@, d as nat),
    decreases *a,
{
    if d == 0 {
        return b.duplicate();
    }
    match (a, b) {
        (ValueTree::Table(ae), ValueTree::Table(be)) => {
            let ghost am = entries_model(ae@);
            let ghost bm = entries_model(be@);
            let ghost dm = (d - 1) as nat;
            proof {
                lemma_entries_model(ae@);
                lemma_entries_model(be@);
                lemma_merge_base(am, bm, dm);
            }
            let mut out: Vec<(String, ValueTree)> = Vec::new();
            let mut i: usize = 0;
            while i < ae.len()
                invariant
                    i <= ae@.len(),
                    out@.len() == i,
                    forall|t: int|
                        0 <= t < i ==> (#[trigger] out@[t].0@, out@[t].1.model()) == merge_base(
                            am,
                            bm,
                            dm,
                        )[t],
                decreases ae@.len() - i,
            {
                let ghost ta = *a;
                proof {
                    assert(decreases_to!(ta => ta->Table_0[i as int].1)) by {
                        assert(decreases_to!(ta => ta->Table_0));
                        assert(decreases_to!(ta->Table_0 => ta->Table_0[i as int]));
                        assert(ta->Table_0 == *ae);
                    }
                }
                let fk = find_key(be, &ae[i].0);
                proof {
                    match fk {
                        Some(j) => lemma_lookup_entry_at(bm, ae@[i as int].0@, j as int),
                        None => lemma_lookup_entry_none(bm, ae@[i as int].0@),
                    }
                }
                let merged_v = match fk {
                    Some(j) => merge_trees(&ae[i].1, &be[j].1, d - 1),
                    None => ae[i].1.duplicate(),
                };
                out.push((ae[i].0.clone(), merged_v));
                i += 1;
            }
            let ghost base_part = merge_base(am, bm, dm);
            proof {
                lemma_entries_model(out@);
                assert(entries_model(out@) =~= base_part);
            }
            let mut j: usize = 0;
            while j < be.len()
                invariant
                    j <= be@.len(),
                    entries_model(out@) == base_part + extra_entries(bm.take(j as int), am),
                decreases be@.len() - j,
            {
                let ghost before = out@;
                let ghost taken = bm.take(j as int);
                let present = find_key(ae, &be[j].0);
                proof {
                    match present {
                        Some(t) => lemma_lookup_entry_at(am, be@[j as int].0@, t as int),
                        None => lemma_lookup_entry_none(am, be@[j as int].0@),
                    }
                }
                if present.is_none() {
                    let e = (be[j].0.clone(), be[j].1.duplicate());
                    proof {
                        lemma_entries_model_push(before, e);
                    }
                    out.push(e);
                }
                proof {
                    assert(bm.take(j + 1) =~= taken.push(bm[j as int]));
                    lemma_extra_entries_push(taken, bm[j as int], am);
                    assert(entries_model(out@) =~= base_part + extra_entries(
                        bm.take(j + 1),
                        am,
                    ));
                }
                j += 1;
            }
            proof {
                assert(bm.take(be@.len() as int) =~= bm);
            }
            ValueTree::Table(out)
        },
        _ => b.duplicate(),
    }
}

pub proof fn lemma_lookup_in_concat<T>(xs: Seq<(Seq<char>, T)>, ys: Seq<(Seq<char>, T)>, k: Seq<char>)
    ensures
        lookup_entry(xs + ys, k) == if has_key(xs, k) {
            lookup_entry(xs, k)
        } else {
            lookup_entry(ys, k)
        },
    decreases xs,
{
    if xs.len() == 0 {
        assert(xs + ys =~= ys);
    } else {
        assert((xs + ys)[0] == xs[0]);
        assert((xs + ys).drop_first() =~= xs.drop_first() + ys);
        lemma_lookup_in_concat(xs.drop_first(), ys, k);
    }
}

proof fn lemma_merge_base_lookup(
    ae: Seq<(Seq<char>, TreeModel)>,
    be: Seq<(Seq<char>, TreeModel)>,
    d: nat,
    k: Seq<char>,
)
    ensures
        lookup_entry(merge_base(ae, be, d), k) == (match lookup_entry(ae, k) {
            Some(av) => match lookup_entry(be, k) {
                Some(bv) => Some(merge_tree(av, bv, d)),
                None => Some(av),
            },
            None => None::<TreeModel>,
        }),
    decreases ae,
{
    if ae.len() > 0 {
        lemma_merge_base_lookup(ae.drop_first(), be, d, k);
        let m = merge_base(ae, be, d);
        assert(m.drop_first() =~= merge_base(ae.drop_first(), be, d));
    }
}

pub proof fn lemma_extra_entries_lookup<T>(
    be: Seq<(Seq<char>, T)>,
    ae: Seq<(Seq<char>, T)>,
    k: Seq<char>,
)
    ensures
        lookup_entry(extra_entries(be, ae), k) == if has_key(ae, k) {
            None::<T>
        } else {
            lookup_entry(be, k)
        },
    decreases be,
{
    if be.len() > 0 {
        lemma_extra_entries_lookup(be.drop_first(), ae, k);
        if !has_key(ae, be[0].0) {
            let ex = extra_entries(be, ae);
            assert(ex[0] == be[0]);
            assert(ex.drop_first() =~= extra_entries(be.drop_first(), ae));
        }
    }
}

/// Law: at depth zero — and whenever either side is not a table — the
/// overlay replaces the base outright.
pub proof fn lemma_merge_overlay_wins(a: TreeModel, b: TreeModel, d: nat)
    requires
        d == 0 || !(a is Table) || !(b is Table),
    ensures
        merge_tree(a, b, d) == b,
{
}

/// Law: merging two tables at positive depth binds exactly the union of the
/// two key sets; a key both sides bind is bound to the recursive merge of
/// the two values, and a key one side binds keeps that side's value.
pub proof fn lemma_merge_key_union(a: TreeModel, b: TreeModel, d: nat, k: Seq<char>)
    requires
        a is Table,
        b is Table,
        d >= 1,
    ensures
        merge_tree(a, b, d) is Table,
        ({
            let me = merge_tree(a, b, d)->Table_0;
            let ae = a->Table_0;
            let be = b->Table_0;
            &&& (has_key(me, k) <==> has_key(ae, k) || has_key(be, k))
            &&& (has_key(ae, k) && has_key(be, k) ==> lookup_entry(me, k) == Some(
                merge_tree(
                    lookup_entry(ae, k)->Some_0,
                    lookup_entry(be, k)->Some_0,
                    (d - 1) as nat,
                ),
            ))
            &&& (has_key(ae, k) && !has_key(be, k) ==> lookup_entry(me, k) == lookup_entry(ae, k))
            &&& (!has_key(ae, k) ==> lookup_entry(me, k) == lookup_entry(be, k))
        }),
{
    let ae = a->Table_0;
    let be = b->Table_0;
    let dm = (d - 1) as nat;
    lemma_merge_base(ae, be, dm);
    lemma_merge_base_lookup(ae, be, dm, k);
    lemma_extra_entries_lookup(be, ae, k);
    lemma_lookup_in_concat(merge_base(ae, be, dm), extra_entries(be, ae), k);
}

} // verus!
