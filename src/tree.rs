//! The part of a module's syntax tree that the annotator reads: call and
//! constructor expressions, and the function bodies that open nested scopes.

use vstd::prelude::*;

verus! {

/// The shape of a call's callee.
#[derive(Debug)]
pub enum CalleeShape {
    /// A bare identifier.
    Ident(String),
    /// A member access `object.property`; each side is given when it is a
    /// plain identifier.
    Member { object: Option<String>, property: Option<String> },
    /// An arrow-function literal.
    Arrow,
    /// Any other expression.
    Other,
    /// `super` or `import`, which are no expressions: never marked.
    Special,
}

/// A call-like expression or a function body, with the call-like
/// expressions and bodies found inside it, in source order.
#[derive(Debug)]
pub enum Node {
    /// `callee(args)`, starting at byte offset `start`.
    Call { start: u32, callee: CalleeShape, n_args: usize, children: Vec<Node> },
    /// `new callee(args)`, starting at byte offset `start`.
    New { start: u32, children: Vec<Node> },
    /// The body of a function or an arrow function.
    Body { children: Vec<Node> },
}

/// A module: its top-level call-like expressions and function bodies.
#[derive(Debug)]
pub struct Module {
    pub items: Vec<Node>,
}

pub open spec fn start_of(n: Node) -> u32 {
    match n {
        Node::Call { start, .. } => start,
        Node::New { start, .. } => start,
        Node::Body { .. } => 0,
    }
}

/// The call-like expressions of `nodes` that sit at the same scope as
/// `nodes` themselves: reached without entering a function body.
pub open spec fn reach_seq(nodes: Seq<Node>) -> Set<Node>
    decreases nodes,
{
    if nodes.len() == 0 {
        Set::empty()
    } else {
        reach_seq(nodes.drop_last()).union(reach_item(nodes.last()))
    }
}

/// The call-like expressions of `n` at the scope of `n` itself.
pub open spec fn reach_item(n: Node) -> Set<Node>
    decreases n,
{
    match n {
        Node::Call { children, .. } => set![n].union(reach_seq(children@)),
        Node::New { children, .. } => set![n].union(reach_seq(children@)),
        Node::Body { .. } => Set::empty(),
    }
}

} // verus!
