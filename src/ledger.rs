//! The comment ledger: comments anchored at byte offsets of the source, in
//! order, with the two operations the annotator needs.

use vstd::prelude::*;
use vstd::utf8::encode_utf8;
use crate::bytes::{contains_bytes, find_bytes};

verus! {

#[derive(Clone, Copy, Debug, PartialEq, Eq, Structural)]
pub enum CommentKind {
    Line,
    Block,
}

/// A comment: its kind and its text without delimiters.
#[derive(Debug)]
pub struct Comment {
    pub kind: CommentKind,
    pub text: String,
}

pub type CommentView = (CommentKind, Seq<char>);

impl View for Comment {
    type V = CommentView;

    open spec fn view(&self) -> CommentView {
        (self.kind, self.text@)
    }
}

/// A comment anchored at a byte offset.
#[derive(Debug)]
pub struct Anchored {
    pub pos: u32,
    pub comment: Comment,
}

/// All anchored comments of one module, in order. Among the comments anchored
/// at one offset, the earlier ones come first in the printed text.
#[derive(Debug)]
pub struct Ledger {
    pub entries: Vec<Anchored>,
}

impl View for Ledger {
    type V = Seq<(u32, CommentView)>;

    open spec fn view(&self) -> Seq<(u32, CommentView)> {
        self.entries@.map_values(|a: Anchored| (a.pos, a.comment@))
    }
}

/// The comments anchored at `p`, in order.
pub open spec fn comments_at(l: Seq<(u32, CommentView)>, p: u32) -> Seq<CommentView>
    decreases l.len(),
{
    if l.len() == 0 {
        Seq::empty()
    } else {
        let rest = comments_at(l.drop_first(), p);
        if l[0].0 == p {
            seq![l[0].1] + rest
        } else {
            rest
        }
    }
}

/// The annotation marker's text.
pub open spec fn marker_text() -> Seq<char> {
    "#__PURE__"@
}

/// The marker in its annotation-tag form.
pub open spec fn tag_marker_text() -> Seq<char> {
    "@__PURE__"@
}

/// The comment that the annotator inserts: a block comment `/*#__PURE__*/`.
pub open spec fn pure_marker() -> CommentView {
    (CommentKind::Block, marker_text())
}

/// A comment text that carries either form of the pure marker.
pub open spec fn is_marker_text(t: Seq<char>) -> bool {
    contains_bytes(encode_utf8(t), encode_utf8(marker_text())) || contains_bytes(
        encode_utf8(t),
        encode_utf8(tag_marker_text()),
    )
}

/// Some comment of `cs` carries a pure marker.
pub open spec fn has_marker(cs: Seq<CommentView>) -> bool {
    exists|i: int| 0 <= i < cs.len() && is_marker_text(#[trigger] cs[i].1)
}

/// `after` is `before` with one marker put in front of the comments at each
/// offset of `targets` that had none.
pub open spec fn annotated(
    before: Seq<(u32, CommentView)>,
    after: Seq<(u32, CommentView)>,
    targets: Set<u32>,
) -> bool {
    forall|p: u32| #[trigger]
        comments_at(after, p) == if targets.contains(p) && !has_marker(comments_at(before, p)) {
            seq![pure_marker()] + comments_at(before, p)
        } else {
            comments_at(before, p)
        }
}

/// `after` is `before` with pure markers put in front of it.
pub open spec fn markers_prepended(
    before: Seq<(u32, CommentView)>,
    after: Seq<(u32, CommentView)>,
) -> bool {
    let k = after.len() - before.len();
    &&& before.len() <= after.len()
    &&& after.subrange(k, after.len() as int) == before
    &&& forall|i: int| 0 <= i < k ==> (#[trigger] after[i]).1 == pure_marker()
}

pub proof fn lemma_markers_prepended_refl(l: Seq<(u32, CommentView)>)
    ensures
        markers_prepended(l, l),
{
    assert(l.subrange(0, l.len() as int) == l);
}

pub proof fn lemma_markers_prepended_trans(
    l0: Seq<(u32, CommentView)>,
    l1: Seq<(u32, CommentView)>,
    l2: Seq<(u32, CommentView)>,
)
    requires
        markers_prepended(l0, l1),
        markers_prepended(l1, l2),
    ensures
        markers_prepended(l0, l2),
{
    let k1 = l1.len() - l0.len();
    let k2 = l2.len() - l1.len();
    assert(l2.subrange(k2 + k1, l2.len() as int) == l1.subrange(k1, l1.len() as int));
    assert forall|i: int| 0 <= i < k1 + k2 implies (#[trigger] l2[i]).1 == pure_marker() by {
        if i >= k2 {
            assert(l2[i] == l2.subrange(k2, l2.len() as int)[i - k2]);
        }
    }
}

pub proof fn lemma_marker_is_marker()
    ensures
        is_marker_text(marker_text()),
{
    let b = encode_utf8(marker_text());
    assert(b.subrange(0, b.len() as int) == b);
    assert(crate::bytes::occurs_at(b, b, 0));
}

proof fn lemma_comments_at_front(x: (u32, CommentView), l: Seq<(u32, CommentView)>, p: u32)
    ensures
        comments_at(seq![x] + l, p) == if x.0 == p {
            seq![x.1] + comments_at(l, p)
        } else {
            comments_at(l, p)
        },
{
    assert((seq![x] + l).drop_first() == l);
}

proof fn lemma_comments_at_push(l: Seq<(u32, CommentView)>, x: (u32, CommentView), p: u32)
    ensures
        comments_at(l.push(x), p) == if x.0 == p {
            comments_at(l, p).push(x.1)
        } else {
            comments_at(l, p)
        },
    decreases l.len(),
{
    if l.len() == 0 {
        assert(l.push(x).drop_first() == l);
    } else {
        assert(l.push(x).drop_first() == l.drop_first().push(x));
        lemma_comments_at_push(l.drop_first(), x, p);
        if l[0].0 == p {
            assert(seq![l[0].1] + comments_at(l.drop_first(), p).push(x.1) == (seq![l[0].1]
                + comments_at(l.drop_first(), p)).push(x.1));
        }
    }
}

/// A marker among the comments at `p` is a marker entry anchored at `p`.
proof fn lemma_has_marker_at(l: Seq<(u32, CommentView)>, p: u32)
    ensures
        has_marker(comments_at(l, p)) <==> exists|i: int|
            0 <= i < l.len() && l[i].0 == p && is_marker_text(#[trigger] l[i].1.1),
    decreases l.len(),
{
    if l.len() > 0 {
        let t = l.drop_first();
        lemma_has_marker_at(t, p);
        let rest = comments_at(t, p);
        if l[0].0 == p {
            let cs = seq![l[0].1] + rest;
            if has_marker(cs) {
                let i = choose|i: int| 0 <= i < cs.len() && is_marker_text(#[trigger] cs[i].1);
                if i > 0 {
                    assert(rest[i - 1] == cs[i]);
                    let j = choose|j: int|
                        0 <= j < t.len() && t[j].0 == p && is_marker_text(#[trigger] t[j].1.1);
                    assert(l[j + 1] == t[j]);
                }
            }
            if exists|i: int| 0 <= i < l.len() && l[i].0 == p && is_marker_text(#[trigger] l[i].1.1) {
                let i = choose|i: int|
                    0 <= i < l.len() && l[i].0 == p && is_marker_text(#[trigger] l[i].1.1);
                if i > 0 {
                    assert(t[i - 1] == l[i]);
                    let j = choose|j: int| 0 <= j < rest.len() && is_marker_text(#[trigger] rest[j].1);
                    assert(cs[j + 1] == rest[j]);
                } else {
                    assert(cs[0] == l[0].1);
                }
            }
        } else {
            if exists|i: int| 0 <= i < l.len() && l[i].0 == p && is_marker_text(#[trigger] l[i].1.1) {
                let i = choose|i: int|
                    0 <= i < l.len() && l[i].0 == p && is_marker_text(#[trigger] l[i].1.1);
                assert(t[i - 1] == l[i]);
            }
            if has_marker(rest) {
                let j = choose|j: int|
                    0 <= j < t.len() && t[j].0 == p && is_marker_text(#[trigger] t[j].1.1);
                assert(l[j + 1] == t[j]);
            }
        }
    }
}

/// Annotating with no targets changes nothing.
pub proof fn lemma_annotated_empty(l: Seq<(u32, CommentView)>)
    ensures
        annotated(l, l, Set::empty()),
{
}

/// Annotating with `s1` and then with `s2` is annotating with their union.
pub proof fn lemma_annotated_union(
    l0: Seq<(u32, CommentView)>,
    l1: Seq<(u32, CommentView)>,
    l2: Seq<(u32, CommentView)>,
    s1: Set<u32>,
    s2: Set<u32>,
)
    requires
        annotated(l0, l1, s1),
        annotated(l1, l2, s2),
    ensures
        annotated(l0, l2, s1.union(s2)),
{
    assert forall|p: u32| #[trigger]
        comments_at(l2, p) == if s1.union(s2).contains(p) && !has_marker(comments_at(l0, p)) {
            seq![pure_marker()] + comments_at(l0, p)
        } else {
            comments_at(l0, p)
        } by {
        let c0 = comments_at(l0, p);
        let c1 = comments_at(l1, p);
        if s1.contains(p) && !has_marker(c0) {
            lemma_marker_is_marker();
            assert(c1[0] == pure_marker());
            assert(is_marker_text(c1[0].1));
            assert(has_marker(c1));
        } else {
            assert(c1 == c0);
        }
    }
}

impl Ledger {
    pub fn new() -> (r: Ledger)
        ensures
            r@ == Seq::<(u32, CommentView)>::empty(),
    {
        Ledger { entries: Vec::new() }
    }

    /// Appends a comment at `pos`, after those already anchored there.
    pub fn push(&mut self, pos: u32, comment: Comment)
        ensures
            final(self)@ == old(self)@.push((pos, comment@)),
            forall|p: u32| #[trigger]
                comments_at(final(self)@, p) == if p == pos {
                    comments_at(old(self)@, p).push(comment@)
                } else {
                    comments_at(old(self)@, p)
                },
    {
        let ghost c = comment@;
        self.entries.push(Anchored { pos, comment });
        assert(self@ == old(self)@.push((pos, c)));
        assert forall|p: u32| #[trigger]
            comments_at(self@, p) == if p == pos {
                comments_at(old(self)@, p).push(c)
            } else {
                comments_at(old(self)@, p)
            } by {
            lemma_comments_at_push(old(self)@, (pos, c), p);
        }
    }

    /// Whether a comment anchored at `pos` carries either form of the pure
    /// marker.
    pub fn has_pure_marker(&self, pos: u32) -> (r: bool)
        ensures
            r == has_marker(comments_at(self@, pos)),
    {
        let hash = "#__PURE__".as_bytes();
        let tag = "@__PURE__".as_bytes();
        let mut i: usize = 0;
        while i < self.entries.len()
            invariant
                0 <= i <= self@.len(),
                self@.len() == self.entries@.len(),
                hash@ == encode_utf8(marker_text()),
                tag@ == encode_utf8(tag_marker_text()),
                forall|j: int|
                    0 <= j < i ==> !(self@[j].0 == pos && is_marker_text(#[trigger] self@[j].1.1)),
            decreases self.entries@.len() - i,
        {
            let a = &self.entries[i];
            assert(self@[i as int] == (a.pos, a.comment@));
            if a.pos == pos {
                let t = a.comment.text.as_str().as_bytes();
                if find_bytes(t, hash) || find_bytes(t, tag) {
                    assert(is_marker_text(self@[i as int].1.1));
                    proof {
                        lemma_has_marker_at(self@, pos);
                    }
                    return true;
                }
            }
            i = i + 1;
        }
        proof {
            lemma_has_marker_at(self@, pos);
        }
        false
    }

    /// Puts `comment` at `pos`, before every comment already anchored there.
    pub fn insert_leading(&mut self, pos: u32, comment: Comment)
        ensures
            final(self)@ == seq![(pos, comment@)] + old(self)@,
            forall|p: u32| #[trigger]
                comments_at(final(self)@, p) == if p == pos {
                    seq![comment@] + comments_at(old(self)@, p)
                } else {
                    comments_at(old(self)@, p)
                },
    {
        let ghost c = comment@;
        self.entries.insert(0, Anchored { pos, comment });
        assert(self@ == seq![(pos, c)] + old(self)@);
        assert forall|p: u32| #[trigger]
            comments_at(self@, p) == if p == pos {
                seq![c] + comments_at(old(self)@, p)
            } else {
                comments_at(old(self)@, p)
            } by {
            lemma_comments_at_front((pos, c), old(self)@, p);
        }
    }

    /// Marks `pos` pure: puts a `/*#__PURE__*/` comment before the comments at
    /// `pos`, unless one of them already carries a marker.
    pub fn mark_pure(&mut self, pos: u32)
        ensures
            annotated(old(self)@, final(self)@, set![pos]),
            markers_prepended(old(self)@, final(self)@),
    {
        if !self.has_pure_marker(pos) {
            let text = "#__PURE__".to_owned();
            self.insert_leading(pos, Comment { kind: CommentKind::Block, text });
            assert(self@.subrange(1, self@.len() as int) == old(self)@);
        } else {
            proof {
                lemma_markers_prepended_refl(self@);
            }
        }
    }
}

} // verus!
