//! Properties of the annotator that relate several calls or hold for every
//! input, stated over the spec functions that the contracts use.

use vstd::prelude::*;
use vstd::utf8::encode_utf8;
use crate::annotate::{targets, targets_item, targets_seq};
use crate::helper::{
    all_digits, dollar, is_digit, has_no_dollar, helper_bases, is_helper_base, is_helper_name,
    is_integer_text,
};
use crate::ledger::{
    annotated, comments_at, has_marker, is_marker_text, lemma_marker_is_marker, pure_marker,
    CommentView,
};
use crate::policy::{call_eligible, node_eligible, PolicyMode, PurityPolicy};
use crate::tree::{reach_item, reach_seq, start_of, CalleeShape, Module, Node};

verus! {

broadcast use vstd::std_specs::vec::axiom_vec_decreases_to_view;

/// Annotating the result of an annotation again, with the same targets,
/// changes no offset's comments: no anchor gets a second marker.
pub proof fn lemma_annotate_idempotent(
    m: Module,
    p: PurityPolicy,
    l0: Seq<(u32, CommentView)>,
    l1: Seq<(u32, CommentView)>,
    l2: Seq<(u32, CommentView)>,
)
    requires
        annotated(l0, l1, targets(m, p)),
        annotated(l1, l2, targets(m, p)),
    ensures
        forall|q: u32| #[trigger] comments_at(l2, q) == comments_at(l1, q),
{
    let s = targets(m, p);
    assert forall|q: u32| #[trigger] comments_at(l2, q) == comments_at(l1, q) by {
        let c0 = comments_at(l0, q);
        let c1 = comments_at(l1, q);
        if s.contains(q) && !has_marker(c0) {
            lemma_marker_is_marker();
            assert(c1[0] == pure_marker());
            assert(is_marker_text(c1[0].1));
        }
    }
}

proof fn lemma_reach_targets_seq(nodes: Seq<Node>, p: PurityPolicy, n: Node)
    requires
        reach_seq(nodes).contains(n),
        node_eligible(n, p),
    ensures
        targets_seq(nodes, p).contains(start_of(n)),
    decreases nodes,
{
    if nodes.len() > 0 {
        if reach_seq(nodes.drop_last()).contains(n) {
            lemma_reach_targets_seq(nodes.drop_last(), p, n);
        } else {
            lemma_reach_targets_item(nodes.last(), p, n);
        }
    }
}

proof fn lemma_reach_targets_item(m: Node, p: PurityPolicy, n: Node)
    requires
        reach_item(m).contains(n),
        node_eligible(n, p),
    ensures
        targets_item(m, p).contains(start_of(n)),
    decreases m,
{
    match m {
        Node::Call { children, .. } => {
            if n != m {
                lemma_reach_targets_seq(children@, p, n);
            }
        },
        Node::New { children, .. } => {
            if n != m {
                lemma_reach_targets_seq(children@, p, n);
            }
        },
        Node::Body { .. } => {},
    }
}

/// Each eligible call-like expression outside every function body ends up
/// with a marker in front of it. Where the offset had no marker before, the
/// marker is the first comment and no other comment there carries one; where
/// it had one, its comments are left as they were.
pub proof fn lemma_eligible_marked_once(
    m: Module,
    p: PurityPolicy,
    l0: Seq<(u32, CommentView)>,
    l1: Seq<(u32, CommentView)>,
    n: Node,
)
    requires
        reach_seq(m.items@).contains(n),
        node_eligible(n, p),
        annotated(l0, l1, targets(m, p)),
    ensures
        has_marker(comments_at(l1, start_of(n))),
        has_marker(comments_at(l0, start_of(n))) ==> comments_at(l1, start_of(n)) == comments_at(
            l0,
            start_of(n),
        ),
        !has_marker(comments_at(l0, start_of(n))) ==> {
            let c = comments_at(l1, start_of(n));
            &&& c == seq![pure_marker()] + comments_at(l0, start_of(n))
            &&& forall|i: int| 1 <= i < c.len() ==> !is_marker_text(#[trigger] c[i].1)
        },
{
    let q = start_of(n);
    lemma_reach_targets_seq(m.items@, p, n);
    let c0 = comments_at(l0, q);
    let c1 = comments_at(l1, q);
    if !has_marker(c0) {
        lemma_marker_is_marker();
        assert(c1[0] == pure_marker());
        assert(is_marker_text(c1[0].1));
        assert forall|i: int| 1 <= i < c1.len() implies !is_marker_text(#[trigger] c1[i].1) by {
            assert(c1[i] == c0[i - 1]);
        }
    }
}

/// Under the blocklist policy, a call outside every function body whose
/// callee is an identifier that is not an interop helper gets exactly one
/// marker, first among the comments at its start.
pub proof fn lemma_plain_call_marked(
    m: Module,
    p: PurityPolicy,
    l0: Seq<(u32, CommentView)>,
    l1: Seq<(u32, CommentView)>,
    n: Node,
)
    requires
        p.mode == PolicyMode::Blocklist,
        reach_seq(m.items@).contains(n),
        n matches Node::Call { callee: CalleeShape::Ident(name), .. } && !is_helper_name(
            encode_utf8(name@),
        ),
        annotated(l0, l1, targets(m, p)),
        !has_marker(comments_at(l0, start_of(n))),
    ensures
        ({
            let c = comments_at(l1, start_of(n));
            &&& c == seq![pure_marker()] + comments_at(l0, start_of(n))
            &&& forall|i: int| 1 <= i < c.len() ==> !is_marker_text(#[trigger] c[i].1)
        }),
{
    lemma_eligible_marked_once(m, p, l0, l1, n);
}

/// Every `new` expression outside every function body ends up with a marker
/// in front of it, under either policy; where its offset had no marker
/// before, that marker is the only one there and comes first.
pub proof fn lemma_new_marked(
    m: Module,
    p: PurityPolicy,
    l0: Seq<(u32, CommentView)>,
    l1: Seq<(u32, CommentView)>,
    n: Node,
)
    requires
        reach_seq(m.items@).contains(n),
        n is New,
        annotated(l0, l1, targets(m, p)),
    ensures
        has_marker(comments_at(l1, start_of(n))),
        !has_marker(comments_at(l0, start_of(n))) ==> {
            let c = comments_at(l1, start_of(n));
            &&& c == seq![pure_marker()] + comments_at(l0, start_of(n))
            &&& forall|i: int| 1 <= i < c.len() ==> !is_marker_text(#[trigger] c[i].1)
        },
{
    lemma_eligible_marked_once(m, p, l0, l1, n);
}

pub proof fn lemma_targets_concat(a: Seq<Node>, b: Seq<Node>, p: PurityPolicy)
    ensures
        targets_seq(a + b, p) == targets_seq(a, p).union(targets_seq(b, p)),
    decreases b.len(),
{
    if b.len() == 0 {
        assert(a + b =~= a);
        assert(targets_seq(a, p).union(Set::empty()) =~= targets_seq(a, p));
    } else {
        lemma_targets_concat(a, b.drop_last(), p);
        assert((a + b).drop_last() =~= a + b.drop_last());
        assert((a + b).last() == b.last());
        assert(targets_seq(a + b, p) =~= targets_seq(a, p).union(targets_seq(b, p)));
    }
}

/// A function body contributes no target, whatever it holds and wherever it
/// stands among the nodes: calls inside it are never marked.
pub proof fn lemma_nested_never_marked(nodes: Seq<Node>, i: int, body: Node, p: PurityPolicy)
    requires
        0 <= i <= nodes.len(),
        body is Body,
    ensures
        targets_seq(nodes.insert(i, body), p) == targets_seq(nodes, p),
{
    let a = nodes.subrange(0, i);
    let b = nodes.subrange(i, nodes.len() as int);
    assert(nodes.insert(i, body) =~= a + (seq![body] + b));
    assert(nodes =~= a + b);
    lemma_targets_concat(a, seq![body] + b, p);
    lemma_targets_concat(seq![body], b, p);
    lemma_targets_concat(a, b, p);
    assert(seq![body].drop_last() =~= Seq::<Node>::empty());
    assert(seq![body].last() == body);
    assert(targets_item(body, p) == Set::<u32>::empty());
    assert(targets_seq(Seq::<Node>::empty(), p) == Set::<u32>::empty());
    assert(targets_seq(seq![body], p) =~= Set::empty());
    assert(targets_seq(nodes.insert(i, body), p) =~= targets_seq(nodes, p));
}

proof fn lemma_helper_base_has_no_dollar(base: Seq<u8>)
    requires
        is_helper_base(base),
    ensures
        has_no_dollar(base),
{
    let k = choose|k: int| 0 <= k < helper_bases().len() && helper_bases()[k] == base;
    assert(has_no_dollar(helper_bases()[0]));
    assert(has_no_dollar(helper_bases()[1]));
    assert(has_no_dollar(helper_bases()[2]));
    assert(has_no_dollar(helper_bases()[3]));
}

/// A helper name followed by `$` and a suffix without `$` is a helper name
/// exactly when the suffix is the text of an integer; the bare helper name is
/// one too.
pub proof fn lemma_helper_suffix(base: Seq<u8>, suffix: Seq<u8>)
    requires
        is_helper_base(base),
        has_no_dollar(suffix),
    ensures
        is_helper_name(base),
        is_helper_name(base + seq![dollar()] + suffix) == is_integer_text(suffix),
{
    lemma_helper_base_has_no_dollar(base);
    let name = base + seq![dollar()] + suffix;
    let k = base.len() as int;
    assert(name[k] == dollar());
    assert(name.subrange(0, k) =~= base);
    assert(name.subrange(k + 1, name.len() as int) =~= suffix);
    assert forall|m: int|
        0 <= m < name.len() && name[m] == dollar() && #[trigger] has_no_dollar(
            name.subrange(0, m),
        ) implies m == k by {
        if m < k {
            assert(name[m] == base[m]);
        } else if m > k {
            assert(name.subrange(0, m)[k] == dollar());
        }
    }
    assert(!has_no_dollar(name));
}

/// Under either policy a call of a helper name, bare or followed by `$` and
/// a run of digits of any length, is never marked.
pub proof fn lemma_helper_call_not_marked(
    name: String,
    n_args: int,
    p: PurityPolicy,
    base: Seq<u8>,
    digits: Seq<u8>,
)
    requires
        is_helper_base(base),
        digits.len() > 0,
        all_digits(digits),
        encode_utf8(name@) == base || encode_utf8(name@) == base + seq![dollar()] + digits,
    ensures
        !call_eligible(CalleeShape::Ident(name), n_args, p),
{
    assert forall|i: int| 0 <= i < digits.len() implies digits[i] != dollar() by {
        assert(is_digit(digits[i]));
    }
    assert(digits.len() > 0 && (digits[0] == ('-' as u8) || digits[0] == ('+' as u8)) ==> false);
    lemma_helper_suffix(base, digits);
}

/// Under the blocklist policy a helper name followed by `$` and a suffix that
/// is not the text of an integer is no helper: its call is marked like any
/// other.
pub proof fn lemma_helper_with_other_suffix_marked(
    name: String,
    n_args: int,
    p: PurityPolicy,
    base: Seq<u8>,
    suffix: Seq<u8>,
)
    requires
        p.mode == PolicyMode::Blocklist,
        is_helper_base(base),
        has_no_dollar(suffix),
        !is_integer_text(suffix),
        encode_utf8(name@) == base + seq![dollar()] + suffix,
    ensures
        call_eligible(CalleeShape::Ident(name), n_args, p),
{
    lemma_helper_suffix(base, suffix);
}

} // verus!
