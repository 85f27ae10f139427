//! The host bridge: the same decision made on a generic node description,
//! for hosts that hold their own syntax tree.

use vstd::prelude::*;
use vstd::utf8::encode_utf8;
use crate::bytes::text_eq;
use crate::helper::{is_helper_name, is_tslib_helper_name};

verus! {

/// A node's callee as the host describes it; a field is `None` when the
/// host's object lacks that key.
#[derive(Debug)]
pub struct HostCallee {
    pub node_type: Option<String>,
    pub name: Option<String>,
}

/// A node as the host describes it: its `type`, its `callee` and the length
/// of its `arguments`, each `None` when the key is absent.
#[derive(Debug)]
pub struct HostNode {
    pub node_type: Option<String>,
    pub callee: Option<HostCallee>,
    pub arguments: Option<usize>,
}

/// The key that a node description lacks.
#[derive(Clone, Copy, Debug, PartialEq, Eq, Structural)]
pub enum Field {
    Type,
    Callee,
    CalleeType,
    Name,
    Arguments,
}

#[derive(Clone, Copy, Debug, PartialEq, Eq, Structural)]
pub enum AdapterError {
    MissingField(Field),
}

/// The decision on a call node: `false` for an identifier callee that is an
/// interop helper, else whether it takes no arguments.
pub open spec fn call_result(n: HostNode) -> Result<bool, AdapterError> {
    match n.callee {
        None => Err(AdapterError::MissingField(Field::Callee)),
        Some(c) => match c.node_type {
            None => Err(AdapterError::MissingField(Field::CalleeType)),
            Some(ct) => if ct@ == "Identifier"@ && c.name is None {
                Err(AdapterError::MissingField(Field::Name))
            } else {
                match n.arguments {
                    None => Err(AdapterError::MissingField(Field::Arguments)),
                    Some(k) => if ct@ == "Identifier"@ && is_helper_name(encode_utf8(c.name->0@)) {
                        Ok(false)
                    } else {
                        Ok(k == 0)
                    },
                }
            },
        },
    }
}

/// What the bridge answers for `n`.
pub open spec fn plugin_result(n: HostNode) -> Result<bool, AdapterError> {
    match n.node_type {
        None => Err(AdapterError::MissingField(Field::Type)),
        Some(t) => if t@ == "CallExpression"@ {
            call_result(n)
        } else if t@ == "NewExpression"@ {
            Ok(true)
        } else {
            Ok(false)
        },
    }
}

/// Whether the host may mark `node` pure. The host calls it only for nodes at
/// module top level. A `new` expression is always accepted; a call is
/// accepted when it has no arguments and its callee is not an interop helper;
/// any other node is refused.
pub fn create_plugin(node: &HostNode) -> (r: Result<bool, AdapterError>)
    ensures
        r == plugin_result(*node),
{
    let t = match &node.node_type {
        None => return Err(AdapterError::MissingField(Field::Type)),
        Some(t) => t,
    };
    if text_eq(t.as_str(), "CallExpression") {
        let callee = match &node.callee {
            None => return Err(AdapterError::MissingField(Field::Callee)),
            Some(c) => c,
        };
        let ct = match &callee.node_type {
            None => return Err(AdapterError::MissingField(Field::CalleeType)),
            Some(ct) => ct,
        };
        let is_ident = text_eq(ct.as_str(), "Identifier");
        if is_ident && callee.name.is_none() {
            return Err(AdapterError::MissingField(Field::Name));
        }
        let k = match node.arguments {
            None => return Err(AdapterError::MissingField(Field::Arguments)),
            Some(k) => k,
        };
        match &callee.name {
            Some(name) if is_ident => {
                if is_tslib_helper_name(name.as_str()) {
                    return Ok(false);
                }
            },
            _ => {},
        }
        Ok(k == 0)
    } else if text_eq(t.as_str(), "NewExpression") {
        Ok(true)
    } else {
        Ok(false)
    }
}

} // verus!
