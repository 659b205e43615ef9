//! With sorting, a walk's index files do not depend on the order in which
//! the entries of a directory are found.

use vstd::prelude::*;
use vstd::multiset::Multiset;
use vstd::seq_lib::{
    lemma_multiset_commutative, to_multiset_build, to_multiset_insert, to_multiset_remove,
};
use crate::codegen::{IndexFileView, MakerView, exposed_through, index_file};
use crate::index_laws::lemma_sorted_text_ignores_order;
use crate::statement::{ImportView, exposed_name};
use crate::tree::{EntryView, NodeView, below, is_visited, stem, walk, walked};

verus! {

/// How the entries of a directory, and of the directories in it, are
/// found in another order.
pub struct Reordering {
    /// For each entry, the place at which it is found.
    pub places: Seq<int>,
    /// For each entry, how what it holds is found.
    pub inside: Seq<Reordering>,
}

/// Whether `b` holds what `a` holds, found in the order that `how` tells:
/// whether, for every directory, `how.places` names each place once, and
/// what stands at the place named for an entry is called as that entry and
/// holds what it holds, found as `how.inside` tells.
pub open spec fn reordered(how: Reordering, a: NodeView, b: NodeView) -> bool
    decreases a,
{
    match a {
        NodeView::Directory(ea) => {
            &&& b is Directory
            &&& how.places.len() == ea.len()
            &&& how.inside.len() == ea.len()
            &&& b->Directory_0.len() == ea.len()
            &&& how.places.no_duplicates()
            &&& forall|i: int|
                0 <= i < ea.len() ==> {
                    &&& 0 <= #[trigger] how.places[i] < ea.len()
                    &&& b->Directory_0[how.places[i]].name == ea[i].name
                    &&& reordered(how.inside[i], ea[i].node, b->Directory_0[how.places[i]].node)
                }
        },
        _ => a == b,
    }
}

/// A multiset of statements and a multiset of index files.
pub struct Gain {
    pub statements: Multiset<ImportView>,
    pub written: Multiset<IndexFileView>,
}

/// Two gains taken together.
pub open spec fn plus(a: Gain, b: Gain) -> Gain {
    Gain { statements: a.statements.add(b.statements), written: a.written.add(b.written) }
}

/// The gains of a sequence taken together.
pub open spec fn sum(gains: Seq<Gain>) -> Gain
    decreases gains.len(),
{
    if gains.len() == 0 {
        Gain { statements: Multiset::empty(), written: Multiset::empty() }
    } else {
        plus(sum(gains.drop_last()), gains.last())
    }
}

/// What a successful walk gains from one entry of a package: the
/// statements that the package exposes through it, and the index files
/// written below it.
pub open spec fn gain(maker: MakerView, entry: EntryView) -> Gain {
    if is_visited(entry) {
        let under = walk(below(maker, entry), entry.node);
        match under.result {
            Ok(found) => Gain {
                statements: if entry.node is Directory && found.len() == 0 {
                    Multiset::empty()
                } else {
                    exposed_through(stem(entry), found).to_multiset()
                },
                written: under.written.to_multiset(),
            },
            Err(_) => Gain { statements: Multiset::empty(), written: Multiset::empty() },
        }
    } else {
        Gain { statements: Multiset::empty(), written: Multiset::empty() }
    }
}

/// The gains from the first `count` entries of a package, in order.
pub open spec fn gains(maker: MakerView, entries: Seq<EntryView>, count: nat) -> Seq<Gain> {
    Seq::new(count, |i: int| gain(maker, entries[i]))
}

/// Whether the walk of `entry` does not fail.
pub open spec fn succeeds(maker: MakerView, entry: EntryView) -> bool {
    is_visited(entry) ==> walk(below(maker, entry), entry.node).result is Ok
}

proof fn lemma_plus_laws(a: Gain, b: Gain, c: Gain)
    ensures
        plus(plus(a, b), c) == plus(plus(a, c), b),
        plus(a, Gain { statements: Multiset::empty(), written: Multiset::empty() }) == a,
{
    assert(a.statements.add(b.statements).add(c.statements) =~= a.statements.add(
        c.statements,
    ).add(b.statements));
    assert(a.written.add(b.written).add(c.written) =~= a.written.add(c.written).add(b.written));
    assert(a.statements.add(Multiset::empty()) =~= a.statements);
    assert(a.written.add(Multiset::empty()) =~= a.written);
}

proof fn lemma_sum_without(g: Seq<Gain>, j: int)
    requires
        0 <= j < g.len(),
    ensures
        sum(g) == plus(sum(g.remove(j)), g[j]),
    decreases g.len(),
{
    if j < g.len() - 1 {
        lemma_sum_without(g.drop_last(), j);
        assert(g.remove(j).drop_last() =~= g.drop_last().remove(j));
        lemma_plus_laws(sum(g.drop_last().remove(j)), g[j], g.last());
    }
}

proof fn lemma_sum_rearranged(ga: Seq<Gain>, gb: Seq<Gain>, p: Seq<int>)
    requires
        p.len() == ga.len(),
        gb.len() == ga.len(),
        p.no_duplicates(),
        forall|i: int| 0 <= i < ga.len() ==> 0 <= #[trigger] p[i] < gb.len() && gb[p[i]] == ga[i],
    ensures
        sum(ga) == sum(gb),
    decreases ga.len(),
{
    if ga.len() > 0 {
        let n = ga.len() - 1;
        let j = p[n];
        let q = Seq::new(
            n as nat,
            |i: int|
                if p[i] < j {
                    p[i]
                } else {
                    p[i] - 1
                },
        );
        assert forall|i: int| 0 <= i < n implies 0 <= #[trigger] q[i] < gb.remove(j).len()
            && gb.remove(j)[q[i]] == ga.drop_last()[i] by {
            assert(p[i] != p[n]);
        }
        assert forall|i1: int, i2: int| 0 <= i1 < n && 0 <= i2 < n && i1 != i2 implies q[i1]
            != q[i2] by {
            assert(p[i1] != p[i2] && p[i1] != p[n] && p[i2] != p[n]);
        }
        lemma_sum_rearranged(ga.drop_last(), gb.remove(j), q);
        lemma_sum_without(gb, j);
    }
}

/// Where no entry among the first `count` fails, the walk through them
/// succeeds, and what it returns and has written is what it gains from
/// them, taken together.
proof fn lemma_walked_sums(maker: MakerView, entries: Seq<EntryView>, count: nat)
    requires
        count <= entries.len(),
        forall|i: int| 0 <= i < count ==> succeeds(maker, #[trigger] entries[i]),
    ensures
        walked(maker, entries, count).result is Ok,
        walked(maker, entries, count).result->Ok_0.to_multiset() == sum(
            gains(maker, entries, count),
        ).statements,
        walked(maker, entries, count).written.to_multiset() == sum(
            gains(maker, entries, count),
        ).written,
    decreases count,
{
    broadcast use vstd::seq_lib::group_to_multiset_ensures;

    if count > 0 {
        lemma_walked_sums(maker, entries, (count - 1) as nat);
        let before = walked(maker, entries, (count - 1) as nat);
        let entry = entries[count - 1];
        let all = gains(maker, entries, count);
        assert(all.drop_last() =~= gains(maker, entries, (count - 1) as nat));
        lemma_plus_laws(sum(all.drop_last()), all.last(), all.last());
        if is_visited(entry) {
            let under = walk(below(maker, entry), entry.node);
            let found = under.result->Ok_0;
            lemma_multiset_commutative(before.written, under.written);
            if !(entry.node is Directory && found.len() == 0) {
                lemma_multiset_commutative(
                    before.result->Ok_0,
                    exposed_through(stem(entry), found),
                );
            }
        }
    }
}

/// A walk through entries that succeeds has not failed at any of them.
proof fn lemma_walked_succeeds(maker: MakerView, entries: Seq<EntryView>, count: nat, i: int)
    requires
        count <= entries.len(),
        walked(maker, entries, count).result is Ok,
        0 <= i < count,
    ensures
        succeeds(maker, entries[i]),
    decreases count,
{
    if i < count - 1 {
        lemma_walked_succeeds(maker, entries, (count - 1) as nat, i);
    }
}

/// Sequences that hold the same values as often are mapped to sequences
/// that do.
proof fn lemma_map_keeps_multiset<A, B>(a: Seq<A>, b: Seq<A>, f: spec_fn(A) -> B)
    requires
        a.to_multiset() == b.to_multiset(),
    ensures
        a.map_values(f).to_multiset() == b.map_values(f).to_multiset(),
    decreases a.len(),
{
    broadcast use vstd::seq_lib::group_to_multiset_ensures;

    if a.len() == 0 {
        assert(b.to_multiset().len() == b.len());
    } else {
        let x = a.last();
        assert(b.to_multiset().contains(x));
        let j = choose|j: int| 0 <= j < b.len() && b[j] == x;
        to_multiset_remove(b, j);
        to_multiset_remove(a, a.len() - 1);
        lemma_map_keeps_multiset(a.drop_last(), b.remove(j), f);
        assert(a.map_values(f) =~= a.drop_last().map_values(f).push(f(x)));
        assert(b.map_values(f) =~= b.remove(j).map_values(f).insert(j, f(x)));
        to_multiset_build(a.drop_last().map_values(f), f(x));
        to_multiset_insert(b.remove(j).map_values(f), j, f(x));
    }
}

/// With sorting, a walk's index files depend on what the tree holds, not on
/// the order in which the entries of its directories are found: where the
/// walk of a tree succeeds, so does the walk of the same tree in another
/// order; it returns the same statements as often, and has the same index
/// files written, with the same text.
pub proof fn lemma_sorted_walk_ignores_order(
    maker: MakerView,
    how: Reordering,
    a: NodeView,
    b: NodeView,
)
    requires
        maker.sort_imports,
        reordered(how, a, b),
        walk(maker, a).result is Ok,
    ensures
        walk(maker, b).result is Ok,
        walk(maker, b).result->Ok_0.to_multiset() == walk(maker, a).result->Ok_0.to_multiset(),
        walk(maker, b).written.to_multiset() == walk(maker, a).written.to_multiset(),
    decreases a,
{
    broadcast use vstd::seq_lib::group_to_multiset_ensures;

    match a {
        NodeView::Directory(ea) => {
            let eb = b->Directory_0;
            let p = how.places;
            let n = ea.len();
            let ga = gains(maker, ea, n);
            let gb = gains(maker, eb, n);
            assert forall|i: int| 0 <= i < n implies succeeds(maker, #[trigger] ea[i]) by {
                lemma_walked_succeeds(maker, ea, n, i);
            }
            assert forall|i: int| 0 <= i < n implies 0 <= #[trigger] p[i] < n && gb[p[i]]
                == ga[i] && succeeds(maker, eb[p[i]]) by {
                let x = ea[i];
                let y = eb[p[i]];
                assert(reordered(how.inside[i], x.node, y.node));
                if is_visited(x) {
                    lemma_sorted_walk_ignores_order(
                        below(maker, x),
                        how.inside[i],
                        x.node,
                        y.node,
                    );
                    let fx = walk(below(maker, x), x.node).result->Ok_0;
                    let fy = walk(below(maker, y), y.node).result->Ok_0;
                    vstd::seq_lib::to_multiset_len(fx);
                    vstd::seq_lib::to_multiset_len(fy);
                    let lift = |s: ImportView| ImportView::FromImport(stem(x), exposed_name(s));
                    lemma_map_keeps_multiset(fx, fy, lift);
                    lemma_multiset_commutative(
                        seq![ImportView::Import(stem(x))],
                        fx.map_values(lift),
                    );
                    lemma_multiset_commutative(
                        seq![ImportView::Import(stem(x))],
                        fy.map_values(lift),
                    );
                }
            }
            assert forall|k: int| 0 <= k < n implies succeeds(maker, #[trigger] eb[k]) by {
                lemma_reaches(p, k);
            }
            lemma_walked_sums(maker, ea, n);
            lemma_walked_sums(maker, eb, n);
            lemma_sum_rearranged(ga, gb, p);
            let sa = walked(maker, ea, n).result->Ok_0;
            let sb = walked(maker, eb, n).result->Ok_0;
            vstd::seq_lib::to_multiset_len(sa);
            vstd::seq_lib::to_multiset_len(sb);
            if sa.len() > 0 {
                lemma_sorted_text_ignores_order(sa, sb);
                let file = index_file(maker, sa)->Some_0;
                to_multiset_build(walked(maker, ea, n).written, file);
                to_multiset_build(walked(maker, eb, n).written, file);
            }
        },
        _ => {},
    }
}

/// A sequence of `n` different places among `n` names every place.
proof fn lemma_reaches(p: Seq<int>, k: int)
    requires
        p.no_duplicates(),
        forall|i: int| 0 <= i < p.len() ==> 0 <= #[trigger] p[i] < p.len(),
        0 <= k < p.len(),
    ensures
        exists|i: int| 0 <= i < p.len() && p[i] == k,
{
    let places = Set::new(|x: int| 0 <= x < p.len());
    let named = p.to_set();
    p.unique_seq_to_set();
    vstd::set_lib::lemma_int_range(0, p.len() as int);
    assert(places =~= vstd::set_lib::set_int_range(0, p.len() as int));
    vstd::set_lib::lemma_subset_equality(named, places);
    assert(named.contains(k));
}

} // verus!
