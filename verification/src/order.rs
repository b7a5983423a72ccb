//! The deterministic subgraph order.  Composition stable-sorts its input by
//! subgraph name before anything else, so that enum-value order and
//! directive-application order in the output do not depend on the order the
//! caller supplied.

use vstd::prelude::*;
use crate::document::Subgraph;
use crate::document::SubgraphV;
use crate::text::lex_le;
use crate::text::str_le;
use crate::text::lemma_lex_le_total;
use crate::text::lemma_lex_le_antisymmetric;

verus! {

/// Stable insertion of `x` behind every element whose name is at most its
/// own.
pub open spec fn insert_sorted(s: Seq<SubgraphV>, x: SubgraphV) -> Seq<SubgraphV>
    decreases s.len(),
{
    if s.len() == 0 {
        seq![x]
    } else if lex_le(s.last().name, x.name) {
        s.push(x)
    } else {
        insert_sorted(s.drop_last(), x).push(s.last())
    }
}

/// Stable insertion sort of subgraphs by name.
pub open spec fn sort_by_name(s: Seq<SubgraphV>) -> Seq<SubgraphV>
    decreases s.len(),
{
    if s.len() == 0 {
        Seq::empty()
    } else {
        insert_sorted(sort_by_name(s.drop_last()), s.last())
    }
}

/// Where the insertion point is known, `insert_sorted` is a splice.
proof fn lemma_insert_sorted_at(s: Seq<SubgraphV>, x: SubgraphV, j: int)
    requires
        0 <= j <= s.len(),
        forall|k: int| j <= k < s.len() ==> !lex_le(#[trigger] s[k].name, x.name),
        j > 0 ==> lex_le(s[j - 1].name, x.name),
    ensures
        insert_sorted(s, x) == s.subrange(0, j) + seq![x] + s.subrange(j, s.len() as int),
    decreases s.len(),
{
    if s.len() == 0 {
        assert(insert_sorted(s, x) =~= s.subrange(0, j) + seq![x] + s.subrange(
            j,
            s.len() as int,
        ));
    } else if j == s.len() {
        assert(lex_le(s.last().name, x.name));
        assert(insert_sorted(s, x) =~= s.subrange(0, j) + seq![x] + s.subrange(
            j,
            s.len() as int,
        ));
    } else {
        assert(!lex_le(s.last().name, x.name));
        lemma_insert_sorted_at(s.drop_last(), x, j);
        assert(insert_sorted(s.drop_last(), x).push(s.last()) =~= s.subrange(0, j) + seq![x]
            + s.subrange(j, s.len() as int));
    }
}

/// Sorts the subgraphs by name, stably, returning references in sorted
/// order.
pub fn sort_subgraphs<'a>(subgraphs: &'a Vec<Subgraph>) -> (r: Vec<&'a Subgraph>)
    ensures
        r.deep_view() == sort_by_name(subgraphs.deep_view()),
{
    let n = subgraphs.len();
    let mut out: Vec<&'a Subgraph> = Vec::new();
    let mut i: usize = 0;
    while i < n
        invariant
            0 <= i <= n,
            n == subgraphs.len(),
            out.deep_view() == sort_by_name(subgraphs.deep_view().take(i as int)),
        decreases n - i,
    {
        let s = &subgraphs[i];
        let ghost out_dv = out.deep_view();
        let mut j: usize = out.len();
        while j > 0 && !str_le(out[j - 1].name.as_str(), s.name.as_str())
            invariant
                0 <= j <= out.len(),
                out.deep_view() == out_dv,
                forall|k: int|
                    j <= k < out_dv.len() ==> !lex_le(#[trigger] out_dv[k].name, s.deep_view().name),
            decreases j,
        {
            j = j - 1;
        }
        out.insert(j, s);
        proof {
            lemma_insert_sorted_at(out_dv, s.deep_view(), j as int);
            assert(out.deep_view() =~= out_dv.subrange(0, j as int) + seq![s.deep_view()]
                + out_dv.subrange(j as int, out_dv.len() as int));
            assert(subgraphs.deep_view().take(i + 1).drop_last() =~= subgraphs.deep_view().take(
                i as int,
            ));
            assert(subgraphs.deep_view().take(i + 1).last() == s.deep_view());
        }
        i = i + 1;
    }
    proof {
        assert(subgraphs.deep_view().take(n as int) =~= subgraphs.deep_view());
    }
    out
}

/// Every pair of a sorted-by-name sequence is ordered.
pub open spec fn sorted_by_name_holds(s: Seq<SubgraphV>) -> bool {
    forall|i: int, j: int| 0 <= i < j < s.len() ==> lex_le(#[trigger] s[i].name, #[trigger] s[j].name)
}

proof fn lemma_insert_sorted_multiset(s: Seq<SubgraphV>, x: SubgraphV)
    ensures
        insert_sorted(s, x).to_multiset() == s.to_multiset().insert(x),
    decreases s.len(),
{
    broadcast use vstd::seq_lib::group_to_multiset_ensures;

    if s.len() == 0 {
        assert(insert_sorted(s, x) =~= Seq::empty().push(x));
        assert(s =~= Seq::<SubgraphV>::empty());
    } else if lex_le(s.last().name, x.name) {
    } else {
        lemma_insert_sorted_multiset(s.drop_last(), x);
        assert(s.drop_last().push(s.last()) =~= s);
        assert(insert_sorted(s.drop_last(), x).push(s.last()).to_multiset() == insert_sorted(
            s.drop_last(),
            x,
        ).to_multiset().insert(s.last()));
        assert(s.drop_last().to_multiset().insert(x).insert(s.last()) == s.drop_last()
            .to_multiset().insert(s.last()).insert(x));
    }
}

/// Sorting keeps exactly the given subgraphs.
pub proof fn lemma_sort_by_name_multiset(s: Seq<SubgraphV>)
    ensures
        sort_by_name(s).to_multiset() == s.to_multiset(),
    decreases s.len(),
{
    broadcast use vstd::seq_lib::group_to_multiset_ensures;

    if s.len() > 0 {
        lemma_sort_by_name_multiset(s.drop_last());
        lemma_insert_sorted_multiset(sort_by_name(s.drop_last()), s.last());
        assert(s.drop_last().push(s.last()) =~= s);
    }
}

proof fn lemma_insert_sorted_ordered(s: Seq<SubgraphV>, x: SubgraphV)
    requires
        sorted_by_name_holds(s),
    ensures
        sorted_by_name_holds(insert_sorted(s, x)),
    decreases s.len(),
{
    if s.len() == 0 {
    } else if lex_le(s.last().name, x.name) {
        assert forall|i: int, j: int| 0 <= i < j < s.push(x).len() implies lex_le(
            #[trigger] s.push(x)[i].name,
            #[trigger] s.push(x)[j].name,
        ) by {
            if j == s.len() {
                if i < s.len() - 1 {
                    assert(lex_le(s[i].name, s.last().name));
                    crate::text::lemma_lex_le_transitive(s[i].name, s.last().name, x.name);
                }
            }
        }
    } else {
        lemma_insert_sorted_ordered(s.drop_last(), x);
        let t = insert_sorted(s.drop_last(), x);
        lemma_insert_sorted_members(s.drop_last(), x);
        assert forall|i: int, j: int| 0 <= i < j < t.push(s.last()).len() implies lex_le(
            #[trigger] t.push(s.last())[i].name,
            #[trigger] t.push(s.last())[j].name,
        ) by {
            if j == t.len() {
                let e = t[i];
                assert(s.drop_last().contains(e) || e == x);
                if e == x {
                    lemma_lex_le_total(x.name, s.last().name);
                } else {
                    let k = choose|k: int| 0 <= k < s.drop_last().len() && s.drop_last()[k] == e;
                    assert(s[k] == e);
                    assert(lex_le(s[k].name, s.last().name));
                }
            }
        }
    }
}

/// Everything in `insert_sorted(s, x)` is `x` or from `s`.
proof fn lemma_insert_sorted_members(s: Seq<SubgraphV>, x: SubgraphV)
    ensures
        forall|i: int|
            0 <= i < insert_sorted(s, x).len() ==> (s.contains(#[trigger] insert_sorted(s, x)[i])
                || insert_sorted(s, x)[i] == x),
    decreases s.len(),
{
    if s.len() == 0 {
    } else if lex_le(s.last().name, x.name) {
    } else {
        lemma_insert_sorted_members(s.drop_last(), x);
        assert forall|i: int| 0 <= i < insert_sorted(s, x).len() implies (s.contains(
            #[trigger] insert_sorted(s, x)[i],
        ) || insert_sorted(s, x)[i] == x) by {
            let t = insert_sorted(s.drop_last(), x);
            if i < t.len() {
                assert(t[i] == insert_sorted(s, x)[i]);
                if t[i] != x {
                    assert(s.drop_last().contains(t[i]));
                    let k = choose|k: int|
                        0 <= k < s.drop_last().len() && s.drop_last()[k] == t[i];
                    assert(s[k] == t[i]);
                }
            } else {
                assert(insert_sorted(s, x)[i] == s.last());
                assert(s.contains(s.last()));
            }
        }
    }
}

/// The sort's result is ordered by name.
pub proof fn lemma_sort_by_name_ordered(s: Seq<SubgraphV>)
    ensures
        sorted_by_name_holds(sort_by_name(s)),
    decreases s.len(),
{
    if s.len() > 0 {
        lemma_sort_by_name_ordered(s.drop_last());
        lemma_insert_sorted_ordered(sort_by_name(s.drop_last()), s.last());
    }
}

/// Pairwise distinct subgraph names.
pub open spec fn names_distinct(s: Seq<SubgraphV>) -> bool {
    forall|i: int, j: int| 0 <= i < j < s.len() ==> #[trigger] s[i].name != #[trigger] s[j].name
}

/// Two name-sorted sequences of the same subgraphs, with no name repeated,
/// are the same sequence.
pub proof fn lemma_sorted_distinct_unique(s1: Seq<SubgraphV>, s2: Seq<SubgraphV>)
    requires
        sorted_by_name_holds(s1),
        sorted_by_name_holds(s2),
        names_distinct(s1),
        s1.to_multiset() == s2.to_multiset(),
    ensures
        s1 == s2,
    decreases s1.len(),
{
    broadcast use vstd::seq_lib::group_to_multiset_ensures;

    if s1.len() == 0 {
        assert(s2.to_multiset().len() == 0);
        assert(s2 =~= s1);
    } else {
        assert(s1.to_multiset().contains(s1[0]));
        assert(s2.to_multiset().contains(s1[0]));
        assert(s2.contains(s1[0]));
        let k2 = choose|k: int| 0 <= k < s2.len() && s2[k] == s1[0];
        assert(s2.len() > 0);
        assert(s1.to_multiset().contains(s2[0]));
        assert(s1.contains(s2[0]));
        let k1 = choose|k: int| 0 <= k < s1.len() && s1[k] == s2[0];
        assert(lex_le(s2[0].name, s1[0].name)) by {
            lemma_lex_le_total(s2[0].name, s2[0].name);
            if k2 > 0 {
                assert(lex_le(s2[0].name, s2[k2].name));
            }
        }
        assert(lex_le(s1[0].name, s2[0].name)) by {
            lemma_lex_le_total(s1[0].name, s1[0].name);
            if k1 > 0 {
                assert(lex_le(s1[0].name, s1[k1].name));
            }
        }
        lemma_lex_le_antisymmetric(s1[0].name, s2[0].name);
        assert(s1[k1].name == s1[0].name);
        assert(k1 == 0) by {
            if k1 != 0 {
                assert(s1[0].name != s1[k1].name);
            }
        }
        assert(s1[0] == s2[0]);
        let t1 = s1.drop_first();
        let t2 = s2.drop_first();
        assert(seq![s1[0]] + t1 =~= s1);
        assert(seq![s2[0]] + t2 =~= s2);
        vstd::seq_lib::lemma_multiset_commutative(seq![s1[0]], t1);
        vstd::seq_lib::lemma_multiset_commutative(seq![s2[0]], t2);
        assert(seq![s1[0]].to_multiset() == seq![s2[0]].to_multiset());
        assert(t1.to_multiset() == t2.to_multiset()) by {
            assert forall|e: SubgraphV| #[trigger] t1.to_multiset().count(e) == t2.to_multiset()
                .count(e) by {
                assert(s1.to_multiset().count(e) == seq![s1[0]].to_multiset().count(e)
                    + t1.to_multiset().count(e));
                assert(s2.to_multiset().count(e) == seq![s2[0]].to_multiset().count(e)
                    + t2.to_multiset().count(e));
            }
            assert(t1.to_multiset() =~= t2.to_multiset());
        }
        assert(sorted_by_name_holds(t1)) by {
            assert(forall|i: int, j: int|
                0 <= i < j < t1.len() ==> lex_le(#[trigger] t1[i].name, #[trigger] t1[j].name));
        }
        assert(sorted_by_name_holds(t2)) by {
            assert(forall|i: int, j: int|
                0 <= i < j < t2.len() ==> lex_le(#[trigger] t2[i].name, #[trigger] t2[j].name));
        }
        assert(names_distinct(t1)) by {
            assert(forall|i: int, j: int|
                0 <= i < j < t1.len() ==> #[trigger] t1[i].name != #[trigger] t1[j].name);
        }
        lemma_sorted_distinct_unique(t1, t2);
        assert(s1 =~= s2);
    }
}

} // verus!
