//! The purity classifier: which call-like expressions at module top level may
//! be marked pure, under a configured policy.

use vstd::prelude::*;
use vstd::utf8::encode_utf8;
use crate::helper::{is_helper_name, is_tslib_helper_name};
use crate::tree::{CalleeShape, Node};

verus! {

#[derive(Clone, Copy, Debug, PartialEq, Eq, Structural)]
pub enum PolicyMode {
    /// Mark every call but known-impure interop helpers and immediately
    /// invoked arrow functions that take arguments.
    Blocklist,
    /// Mark calls of bare identifiers that are not interop helpers, and
    /// member calls on a curated list; nothing else.
    Allowlist,
}

/// A dotted callee name `object.property`.
#[derive(Debug)]
pub struct DottedName {
    pub object: String,
    pub property: String,
}

#[derive(Debug)]
pub struct PurityPolicy {
    pub mode: PolicyMode,
    /// Member callees that the allowlist policy accepts.
    pub allowed_callees: Vec<DottedName>,
}

/// `object.property` is on the policy's list.
pub open spec fn is_allowed(p: PurityPolicy, object: Seq<char>, property: Seq<char>) -> bool {
    exists|i: int|
        0 <= i < p.allowed_callees@.len() && (#[trigger] p.allowed_callees@[i]).object@ == object
            && p.allowed_callees@[i].property@ == property
}

/// A top-level call with this callee and this many arguments may be marked.
pub open spec fn call_eligible(callee: CalleeShape, n_args: int, p: PurityPolicy) -> bool {
    match p.mode {
        PolicyMode::Blocklist => match callee {
            CalleeShape::Arrow => n_args == 0,
            CalleeShape::Ident(name) => !is_helper_name(encode_utf8(name@)),
            CalleeShape::Special => false,
            _ => true,
        },
        PolicyMode::Allowlist => match callee {
            CalleeShape::Ident(name) => !is_helper_name(encode_utf8(name@)),
            CalleeShape::Member { object: Some(o), property: Some(q) } => is_allowed(p, o@, q@),
            _ => false,
        },
    }
}

/// A top-level node that may be marked: an eligible call, or any `new`.
pub open spec fn node_eligible(n: Node, p: PurityPolicy) -> bool {
    match n {
        Node::Call { callee, n_args, .. } => call_eligible(callee, n_args as int, p),
        Node::New { .. } => true,
        Node::Body { .. } => false,
    }
}

impl PurityPolicy {
    /// The default-allow policy.
    pub fn blocklist() -> (r: PurityPolicy)
        ensures
            r.mode == PolicyMode::Blocklist,
            r.allowed_callees@.len() == 0,
    {
        PurityPolicy { mode: PolicyMode::Blocklist, allowed_callees: Vec::new() }
    }

    /// The default-deny policy, accepting the member callees in `allowed`.
    pub fn allowlist(allowed: Vec<DottedName>) -> (r: PurityPolicy)
        ensures
            r.mode == PolicyMode::Allowlist,
            r.allowed_callees == allowed,
    {
        PurityPolicy { mode: PolicyMode::Allowlist, allowed_callees: allowed }
    }

    /// Whether `object.property` is on the list.
    pub fn allows(&self, object: &String, property: &String) -> (r: bool)
        ensures
            r == is_allowed(*self, object@, property@),
    {
        let mut i: usize = 0;
        while i < self.allowed_callees.len()
            invariant
                0 <= i <= self.allowed_callees@.len(),
                forall|j: int|
                    0 <= j < i ==> !((#[trigger] self.allowed_callees@[j]).object@ == object@
                        && self.allowed_callees@[j].property@ == property@),
            decreases self.allowed_callees@.len() - i,
        {
            let d = &self.allowed_callees[i];
            if d.object == *object && d.property == *property {
                return true;
            }
            i = i + 1;
        }
        false
    }
}

/// Whether a top-level call with this callee and argument count may be marked
/// pure under `policy`.
pub fn is_pure_candidate(callee: &CalleeShape, n_args: usize, policy: &PurityPolicy) -> (r: bool)
    ensures
        r == call_eligible(*callee, n_args as int, *policy),
{
    match policy.mode {
        PolicyMode::Blocklist => match callee {
            CalleeShape::Arrow => n_args == 0,
            CalleeShape::Ident(name) => !is_tslib_helper_name(name.as_str()),
            CalleeShape::Special => false,
            _ => true,
        },
        PolicyMode::Allowlist => match callee {
            CalleeShape::Ident(name) => !is_tslib_helper_name(name.as_str()),
            CalleeShape::Member { object: Some(o), property: Some(q) } => policy.allows(o, q),
            _ => false,
        },
    }
}

/// Whether `node`, at module top level, may be marked pure under `policy`.
pub fn classify(node: &Node, policy: &PurityPolicy) -> (r: bool)
    ensures
        r == node_eligible(*node, *policy),
{
    match node {
        Node::Call { callee, n_args, .. } => is_pure_candidate(callee, *n_args, policy),
        Node::New { .. } => true,
        Node::Body { .. } => false,
    }
}

} // verus!
