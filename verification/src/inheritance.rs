//! What the evaluation order of a file's declarations guarantees: where no
//! inheritance is cyclic, every declaration comes after the parent it names.

use vstd::prelude::*;
use crate::diagnostics::ReportView;
use crate::order::{
    climb, collected, declared_names, first_index, lemma_first_index, mentions, ordered,
    picked_names, DeclarationView,
};
use crate::source::AtopileSource;

verus! {

/// No two declarations have the same name.
pub open spec fn distinct_names(declarations: Seq<DeclarationView>) -> bool {
    forall|i: int, j: int|
        0 <= i < j < declarations.len() ==> (#[trigger] declarations[i]).name != (
        #[trigger] declarations[j]).name
}

/// The position of the declaration that `child` names as its parent, if
/// the file declares it.
pub open spec fn parent_of(declarations: Seq<DeclarationView>, child: int) -> Option<int> {
    match declarations[child].parent {
        Some(name) => {
            let at = first_index(declared_names(declarations), name, 0);
            if at < declarations.len() {
                Some(at)
            } else {
                None
            }
        },
        None => None,
    }
}

/// Whether `order` holds the position `wanted` before position `before`.
pub open spec fn comes_earlier(order: Seq<usize>, wanted: int, before: int) -> bool {
    exists|j: int| 0 <= j < before && j < order.len() && #[trigger] order[j] == wanted
}

/// Every entry of `order` is the position of a declaration, and comes after
/// the parent it names.
spec fn parents_first(declarations: Seq<DeclarationView>, order: Seq<usize>) -> bool {
    &&& forall|k: int| 0 <= k < order.len() ==> (#[trigger] order[k]) < declarations.len()
    &&& forall|k: int|
        0 <= k < order.len() && parent_of(declarations, #[trigger] order[k] as int) is Some
            ==> comes_earlier(order, parent_of(declarations, order[k] as int)->0, k)
}

/// Each entry of `chain` names the next one as its parent.
spec fn linked(declarations: Seq<DeclarationView>, chain: Seq<usize>) -> bool {
    forall|m: int|
        0 <= m < chain.len() - 1 ==> parent_of(declarations, #[trigger] chain[m] as int) == Some(
            chain[m + 1] as int,
        )
}

/// The entries of `chain` are positions of declarations, no two the same,
/// none of a name that `sorted` holds.
spec fn fresh_chain(
    declarations: Seq<DeclarationView>,
    sorted: Seq<usize>,
    chain: Seq<usize>,
) -> bool {
    &&& forall|m: int| 0 <= m < chain.len() ==> (#[trigger] chain[m]) < declarations.len()
    &&& forall|m: int, n: int| 0 <= m < n < chain.len() ==> chain[m] != chain[n]
    &&& forall|m: int|
        0 <= m < chain.len() ==> !mentions(
            picked_names(declarations, sorted),
            declarations[#[trigger] chain[m] as int].name,
        )
}

/// The parent that `child` names, if the file declares it, has a name that
/// `sorted` holds.
spec fn parent_sorted(declarations: Seq<DeclarationView>, sorted: Seq<usize>, child: int) -> bool {
    parent_of(declarations, child) is Some ==> mentions(
        picked_names(declarations, sorted),
        declarations[parent_of(declarations, child)->0].name,
    )
}

/// As many different numbers below `bound` as there are is at most `bound`.
proof fn lemma_pigeonhole(s: Seq<usize>, bound: nat)
    requires
        forall|m: int| 0 <= m < s.len() ==> (#[trigger] s[m]) < bound,
        forall|m: int, n: int| 0 <= m < n < s.len() ==> s[m] != s[n],
    ensures
        s.len() <= bound,
    decreases bound,
{
    if bound == 0 {
        if s.len() > 0 {
            assert(s[0] < bound);
        }
    } else if exists|p: int| 0 <= p < s.len() && s[p] == bound - 1 {
        let p = choose|p: int| 0 <= p < s.len() && s[p] == bound - 1;
        let rest = s.remove(p);
        assert forall|m: int| 0 <= m < rest.len() implies (#[trigger] rest[m]) < bound - 1 by {
            let at = if m < p { m } else { m + 1 };
            assert(rest[m] == s[at]);
            assert(s[at] < bound);
            if at < p {
                assert(s[at] != s[p]);
            } else {
                assert(s[p] != s[at]);
            }
        }
        assert forall|m: int, n: int| 0 <= m < n < rest.len() implies rest[m] != rest[n] by {
            let a = if m < p { m } else { m + 1 };
            let b = if n < p { n } else { n + 1 };
            assert(rest[m] == s[a]);
            assert(rest[n] == s[b]);
        }
        lemma_pigeonhole(rest, (bound - 1) as nat);
    } else {
        assert forall|m: int| 0 <= m < s.len() implies (#[trigger] s[m]) < bound - 1 by {
            assert(s[m] < bound);
        }
        lemma_pigeonhole(s, (bound - 1) as nat);
    }
}

/// A name that the picked declarations hold is the name of one of them.
proof fn lemma_mentioned(declarations: Seq<DeclarationView>, picked: Seq<usize>, name: Seq<char>)
    ensures
        mentions(picked_names(declarations, picked), name) <==> exists|q: int|
            0 <= q < picked.len() && declarations[#[trigger] picked[q] as int].name == name,
{
    let names = picked_names(declarations, picked);
    lemma_first_index(names, name, 0);
    let at = first_index(names, name, 0);
    if at < names.len() {
        assert(declarations[picked[at] as int].name == name);
    }
    if exists|q: int| 0 <= q < picked.len() && declarations[#[trigger] picked[q] as int].name == name {
        let q = choose|q: int|
            0 <= q < picked.len() && declarations[#[trigger] picked[q] as int].name == name;
        assert(names[q] == name);
        if at > q {
            assert(names[q] != name);
        }
    }
}

/// Where no inheritance is cyclic, climbing from `current` extends a fresh
/// linked chain to a fresh linked chain whose last entry names no parent
/// that is still to be sorted.
proof fn lemma_climb(
    declarations: Seq<DeclarationView>,
    sorted: Seq<usize>,
    chain: Seq<usize>,
    current: usize,
)
    requires
        distinct_names(declarations),
        declarations.len() <= usize::MAX,
        current < declarations.len(),
        fresh_chain(declarations, sorted, chain),
        linked(declarations, chain),
        chain.len() > 0 ==> parent_of(declarations, chain.last() as int) == Some(current as int),
        climb(declarations, sorted, chain, current).1 is None,
    ensures
        ({
            let full = climb(declarations, sorted, chain, current).0;
            &&& chain.len() <= full.len()
            &&& full.take(chain.len() as int) == chain
            &&& fresh_chain(declarations, sorted, full)
            &&& linked(declarations, full)
            &&& full.len() > 0 ==> parent_sorted(declarations, sorted, full.last() as int)
            &&& full.len() > chain.len() ==> full[chain.len() as int] == current
            &&& full.len() == chain.len() ==> mentions(
                picked_names(declarations, sorted),
                declarations[current as int].name,
            )
        }),
    decreases declarations.len() - chain.len(),
{
    let name = declarations[current as int].name;
    let full = climb(declarations, sorted, chain, current).0;
    assert(chain.take(chain.len() as int) =~= chain);
    if mentions(picked_names(declarations, sorted), name) {
    } else if mentions(picked_names(declarations, chain), name) {
    } else {
        lemma_mentioned(declarations, chain, name);
        let longer = chain.push(current);
        assert forall|m: int, n: int| 0 <= m < n < longer.len() implies longer[m] != longer[n] by {
            if n == chain.len() {
                assert(declarations[chain[m] as int].name != name);
            }
        }
        assert(forall|m: int| 0 <= m < longer.len() ==> (#[trigger] longer[m]) < declarations.len());
        lemma_pigeonhole(longer, declarations.len());
        assert(fresh_chain(declarations, sorted, longer));
        assert forall|m: int| 0 <= m < longer.len() - 1 implies parent_of(
            declarations,
            #[trigger] longer[m] as int,
        ) == Some(longer[m + 1] as int) by {
            if m < chain.len() - 1 {
                assert(longer[m] == chain[m]);
                assert(longer[m + 1] == chain[m + 1]);
            }
        }
        match parent_of(declarations, current as int) {
            Some(at) => {
                lemma_first_index(
                    declared_names(declarations),
                    declarations[current as int].parent->0,
                    0,
                );
                lemma_climb(declarations, sorted, longer, at as usize);
                assert(full.take(chain.len() as int) =~= full.take(longer.len() as int).take(
                    chain.len() as int,
                ));
                assert(full[chain.len() as int] == full.take(longer.len() as int)[chain.len() as int]);
            },
            None => {
                assert(longer.take(chain.len() as int) =~= chain);
            },
        }
    }
}

/// Where no inheritance among the first `upto` declarations is cyclic,
/// their order puts every declaration after the parent it names, and holds
/// each of them.
proof fn lemma_ordered(declarations: Seq<DeclarationView>, upto: int)
    requires
        distinct_names(declarations),
        declarations.len() <= usize::MAX,
        0 <= upto <= declarations.len(),
        ordered(declarations, upto).1.len() == 0,
    ensures
        parents_first(declarations, ordered(declarations, upto).0),
        forall|i: int|
            0 <= i < upto ==> comes_earlier(
                ordered(declarations, upto).0,
                i,
                ordered(declarations, upto).0.len() as int,
            ),
    decreases upto,
{
    if upto > 0 {
        let (sorted, cycles) = ordered(declarations, upto - 1);
        let current = (upto - 1) as usize;
        let (chain, cycle) = climb(declarations, sorted, Seq::empty(), current);
        assert(cycle is None && cycles.len() == 0) by {
            if cycle is Some {
                assert(ordered(declarations, upto).1 == cycles.push(cycle->0));
            }
        }
        lemma_ordered(declarations, upto - 1);
        lemma_climb(declarations, sorted, Seq::empty(), current);
        let back = chain.reverse();
        let order = sorted + back;
        assert(order == ordered(declarations, upto).0);
        assert forall|k: int| 0 <= k < order.len() implies (#[trigger] order[k])
            < declarations.len() by {
            if k >= sorted.len() {
                assert(order[k] == chain[chain.len() - 1 - (k - sorted.len())]);
            }
        }
        assert forall|k: int|
            0 <= k < order.len() && parent_of(
                declarations,
                #[trigger] order[k] as int,
            ) is Some implies comes_earlier(
            order,
            parent_of(declarations, order[k] as int)->0,
            k,
        ) by {
            let parent = parent_of(declarations, order[k] as int)->0;
            lemma_first_index(
                declared_names(declarations),
                declarations[order[k] as int].parent->0,
                0,
            );
            if k < sorted.len() {
                assert(order[k] == sorted[k]);
                let j = choose|j: int| 0 <= j < k && j < sorted.len() && #[trigger] sorted[j] == parent;
                assert(order[j] == parent);
            } else {
                let m = chain.len() - 1 - (k - sorted.len());
                assert(order[k] == chain[m]);
                if m < chain.len() - 1 {
                    let j = sorted.len() + (chain.len() - 1 - (m + 1));
                    assert(order[j] == chain[m + 1]);
                } else {
                    lemma_mentioned(declarations, sorted, declarations[parent].name);
                    let q = choose|q: int|
                        0 <= q < sorted.len() && declarations[#[trigger] sorted[q] as int].name
                            == declarations[parent].name;
                    assert(sorted[q] < declarations.len());
                    if (sorted[q] as int) < parent {
                        assert(declarations[sorted[q] as int].name != declarations[parent].name);
                    } else if (sorted[q] as int) > parent {
                        assert(declarations[parent].name != declarations[sorted[q] as int].name);
                    }
                    assert(order[q] == parent);
                }
            }
        }
        assert forall|i: int| 0 <= i < upto implies comes_earlier(order, i, order.len() as int) by {
            if i < upto - 1 {
                assert(comes_earlier(sorted, i, sorted.len() as int));
                let j = choose|j: int|
                    0 <= j < sorted.len() && j < sorted.len() && #[trigger] sorted[j] == i;
                assert(order[j] == i);
            } else if chain.len() > 0 {
                let j = sorted.len() + chain.len() - 1;
                assert(order[j] == chain[0]);
            } else {
                lemma_mentioned(declarations, sorted, declarations[i].name);
                let q = choose|q: int|
                    0 <= q < sorted.len() && declarations[#[trigger] sorted[q] as int].name
                        == declarations[i].name;
                assert(sorted[q] < declarations.len());
                if (sorted[q] as int) < i {
                    assert(declarations[sorted[q] as int].name != declarations[i].name);
                } else if (sorted[q] as int) > i {
                    assert(declarations[i].name != declarations[sorted[q] as int].name);
                }
                assert(order[q] == i);
            }
        }
    }
}

/// Inheritance ordering. Where the declarations of a file have different
/// names and no inheritance among them is cyclic, the evaluation order
/// holds every declaration, and holds the parent that a declaration names
/// before the declaration itself, in whatever order the file declares
/// them.
pub proof fn lemma_parents_come_first(declarations: Seq<DeclarationView>, k: int)
    requires
        distinct_names(declarations),
        declarations.len() <= usize::MAX,
        ordered(declarations, declarations.len() as int).1.len() == 0,
        0 <= k < ordered(declarations, declarations.len() as int).0.len(),
    ensures
        ({
            let order = ordered(declarations, declarations.len() as int).0;
            &&& order[k] < declarations.len()
            &&& parent_of(declarations, order[k] as int) is Some ==> comes_earlier(
                order,
                parent_of(declarations, order[k] as int)->0,
                k,
            )
            &&& forall|i: int|
                0 <= i < declarations.len() ==> comes_earlier(order, i, order.len() as int)
        }),
{
    lemma_ordered(declarations, declarations.len() as int);
}

/// The declarations collected from a file have different names: a block
/// whose name an earlier block has is left out.
pub proof fn lemma_collected_names_differ(source: &AtopileSource, report: ReportView, upto: int)
    ensures
        distinct_names(collected(source, report, upto).0),
    decreases upto,
{
    if upto > 0 {
        lemma_collected_names_differ(source, report, upto - 1);
        let before = collected(source, report, upto - 1).0;
        let after = collected(source, report, upto).0;
        if after.len() > before.len() {
            let name = after.last().name;
            lemma_first_index(declared_names(before), name, 0);
            assert forall|i: int, j: int| 0 <= i < j < after.len() implies (#[trigger] after[i]).name
                != (#[trigger] after[j]).name by {
                if j == before.len() {
                    assert(declared_names(before)[i] == before[i].name);
                } else {
                    assert(after[i] == before[i]);
                    assert(after[j] == before[j]);
                }
            }
        }
    }
}

} // verus!
