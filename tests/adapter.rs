use pure_annotator::adapter::{create_plugin, AdapterError, Field, HostCallee, HostNode};

fn node(t: &str, callee: Option<(&str, Option<&str>)>, args: Option<usize>) -> HostNode {
    HostNode {
        node_type: Some(t.to_string()),
        callee: callee.map(|(ct, name)| HostCallee {
            node_type: Some(ct.to_string()),
            name: name.map(|n| n.to_string()),
        }),
        arguments: args,
    }
}

#[test]
fn test_create_plugin_node_js_integration() {
    let cases = vec![
        (node("CallExpression", Some(("Identifier", Some("foo"))), Some(0)), true),
        (node("CallExpression", Some(("Identifier", Some("__importStar"))), Some(0)), false),
        (node("CallExpression", Some(("Identifier", Some("bar"))), Some(1)), false),
        (node("NewExpression", Some(("Identifier", Some("MyClass"))), None), true),
    ];
    for (input, expected) in cases {
        assert_eq!(create_plugin(&input), Ok(expected));
    }
}

#[test]
fn other_node_types_are_refused() {
    assert_eq!(create_plugin(&node("Identifier", None, None)), Ok(false));
    assert_eq!(create_plugin(&node("callexpression", None, None)), Ok(false));
}

#[test]
fn member_callee_without_arguments_is_accepted() {
    let n = node("CallExpression", Some(("MemberExpression", None)), Some(0));
    assert_eq!(create_plugin(&n), Ok(true));
    let n = node("CallExpression", Some(("MemberExpression", None)), Some(2));
    assert_eq!(create_plugin(&n), Ok(false));
}

#[test]
fn missing_fields_are_reported() {
    let missing = |f: Field| Err(AdapterError::MissingField(f));
    let no_type = HostNode { node_type: None, callee: None, arguments: Some(0) };
    assert_eq!(create_plugin(&no_type), missing(Field::Type));
    assert_eq!(create_plugin(&node("CallExpression", None, Some(0))), missing(Field::Callee));
    let no_callee_type = HostNode {
        node_type: Some("CallExpression".to_string()),
        callee: Some(HostCallee { node_type: None, name: Some("foo".to_string()) }),
        arguments: Some(0),
    };
    assert_eq!(create_plugin(&no_callee_type), missing(Field::CalleeType));
    let no_name = node("CallExpression", Some(("Identifier", None)), Some(0));
    assert_eq!(create_plugin(&no_name), missing(Field::Name));
    let no_args = node("CallExpression", Some(("Identifier", Some("foo"))), None);
    assert_eq!(create_plugin(&no_args), missing(Field::Arguments));
    let helper_no_args = node("CallExpression", Some(("Identifier", Some("__importStar$3"))), None);
    assert_eq!(create_plugin(&helper_no_args), missing(Field::Arguments));
}
