//! The annotator: walks a module, tracking whether it is inside a function
//! body, and marks each eligible top-level call-like expression once.

use vstd::prelude::*;
use crate::ledger::{
    annotated, lemma_annotated_empty, lemma_annotated_union, lemma_markers_prepended_refl,
    lemma_markers_prepended_trans, markers_prepended, Ledger,
};
use crate::policy::{call_eligible, classify, PurityPolicy};
use crate::tree::{Module, Node};

verus! {

broadcast use vstd::std_specs::vec::axiom_vec_decreases_to_view;

/// The offsets that annotating `nodes` at top level marks: the start of each
/// eligible call-like expression outside every function body.
pub open spec fn targets_seq(nodes: Seq<Node>, p: PurityPolicy) -> Set<u32>
    decreases nodes,
{
    if nodes.len() == 0 {
        Set::empty()
    } else {
        targets_seq(nodes.drop_last(), p).union(targets_item(nodes.last(), p))
    }
}

pub open spec fn targets_item(n: Node, p: PurityPolicy) -> Set<u32>
    decreases n,
{
    match n {
        Node::Call { start, callee, n_args, children } => (if call_eligible(
            callee,
            n_args as int,
            p,
        ) {
            set![start]
        } else {
            Set::empty()
        }).union(targets_seq(children@, p)),
        Node::New { start, children } => set![start].union(targets_seq(children@, p)),
        Node::Body { .. } => Set::empty(),
    }
}

/// The offsets that annotating `m` marks.
pub open spec fn targets(m: Module, p: PurityPolicy) -> Set<u32> {
    targets_seq(m.items@, p)
}

fn annotate_nodes(nodes: &Vec<Node>, top_level: bool, policy: &PurityPolicy, ledger: &mut Ledger)
    ensures
        annotated(
            old(ledger)@,
            final(ledger)@,
            if top_level {
                targets_seq(nodes@, *policy)
            } else {
                Set::empty()
            },
        ),
        markers_prepended(old(ledger)@, final(ledger)@),
    decreases nodes@,
{
    let ghost l0 = ledger@;
    proof {
        lemma_annotated_empty(l0);
        lemma_markers_prepended_refl(l0);
        assert(nodes@.subrange(0, 0).len() == 0);
    }
    let mut i: usize = 0;
    while i < nodes.len()
        invariant
            0 <= i <= nodes@.len(),
            annotated(
                l0,
                ledger@,
                if top_level {
                    targets_seq(nodes@.subrange(0, i as int), *policy)
                } else {
                    Set::empty()
                },
            ),
            markers_prepended(l0, ledger@),
        decreases nodes@.len() - i,
    {
        let ghost l1 = ledger@;
        let ghost before = if top_level {
            targets_seq(nodes@.subrange(0, i as int), *policy)
        } else {
            Set::<u32>::empty()
        };
        annotate_node(&nodes[i], top_level, policy, ledger);
        proof {
            let item = if top_level {
                targets_item(nodes@[i as int], *policy)
            } else {
                Set::<u32>::empty()
            };
            lemma_annotated_union(l0, l1, ledger@, before, item);
            lemma_markers_prepended_trans(l0, l1, ledger@);
            let next = nodes@.subrange(0, i + 1);
            assert(next.drop_last() =~= nodes@.subrange(0, i as int));
            assert(next.last() == nodes@[i as int]);
            if top_level {
                assert(before.union(item) =~= targets_seq(next, *policy));
            } else {
                assert(before.union(item) =~= Set::<u32>::empty());
            }
        }
        i = i + 1;
    }
    assert(nodes@.subrange(0, nodes@.len() as int) =~= nodes@);
}

fn annotate_node(node: &Node, top_level: bool, policy: &PurityPolicy, ledger: &mut Ledger)
    ensures
        annotated(
            old(ledger)@,
            final(ledger)@,
            if top_level {
                targets_item(*node, *policy)
            } else {
                Set::empty()
            },
        ),
        markers_prepended(old(ledger)@, final(ledger)@),
    decreases *node,
{
    let ghost l0 = ledger@;
    match node {
        Node::Call { start, children, .. } | Node::New { start, children } => {
            let mark = top_level && classify(node, policy);
            let ghost here = if mark {
                set![*start]
            } else {
                Set::<u32>::empty()
            };
            if mark {
                ledger.mark_pure(*start);
            } else {
                proof {
                    lemma_annotated_empty(l0);
                    lemma_markers_prepended_refl(l0);
                }
            }
            let ghost l1 = ledger@;
            annotate_nodes(children, top_level, policy, ledger);
            proof {
                let inner = if top_level {
                    targets_seq(children@, *policy)
                } else {
                    Set::<u32>::empty()
                };
                lemma_annotated_union(l0, l1, ledger@, here, inner);
                lemma_markers_prepended_trans(l0, l1, ledger@);
                if top_level {
                    assert(here.union(inner) =~= targets_item(*node, *policy));
                } else {
                    assert(here.union(inner) =~= Set::<u32>::empty());
                }
            }
        },
        Node::Body { children } => {
            annotate_nodes(children, false, policy, ledger);
        },
    }
}

/// Marks pure every eligible call-like expression of `module` that is not
/// inside a function body: a `/*#__PURE__*/` comment goes before the comments
/// already at its start offset, unless one of those carries a marker already.
/// The new markers are the first entries of the ledger; the old entries follow
/// in their order.
pub fn annotate(module: &Module, policy: &PurityPolicy, ledger: &mut Ledger)
    ensures
        annotated(old(ledger)@, final(ledger)@, targets(*module, *policy)),
        markers_prepended(old(ledger)@, final(ledger)@),
{
    annotate_nodes(&module.items, true, policy, ledger);
}

} // verus!
