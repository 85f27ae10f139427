use pure_annotator::annotate::annotate;
use pure_annotator::ledger::{Comment, CommentKind, Ledger};
use pure_annotator::policy::{DottedName, PurityPolicy};
use pure_annotator::tree::{CalleeShape, Module, Node};

fn ident(s: &str) -> CalleeShape {
    CalleeShape::Ident(s.to_string())
}

fn member(o: &str, p: &str) -> CalleeShape {
    CalleeShape::Member { object: Some(o.to_string()), property: Some(p.to_string()) }
}

fn call(start: u32, callee: CalleeShape, n_args: usize) -> Node {
    Node::Call { start, callee, n_args, children: Vec::new() }
}

fn body(children: Vec<Node>) -> Node {
    Node::Body { children }
}

fn run(items: Vec<Node>, policy: &PurityPolicy) -> Ledger {
    let mut ledger = Ledger::new();
    annotate(&Module { items }, policy, &mut ledger);
    ledger
}

fn is_marker(c: &Comment) -> bool {
    c.kind == CommentKind::Block && c.text == "#__PURE__"
}

fn markers_at(ledger: &Ledger, pos: u32) -> usize {
    ledger.entries.iter().filter(|a| a.pos == pos && a.comment.text.contains("__PURE__")).count()
}

// "Object.create({});", "Math.abs(-5);", "Number(42);", "String(123);"
#[test]
fn test_transform_top_level_calls() {
    let cases = vec![
        call(0, member("Object", "create"), 1),
        call(0, member("Math", "abs"), 1),
        call(0, ident("Number"), 1),
        call(0, ident("String"), 1),
    ];
    for node in cases {
        let ledger = run(vec![node], &PurityPolicy::blocklist());
        assert_eq!(ledger.entries.len(), 1);
        assert_eq!(ledger.entries[0].pos, 0);
        assert!(is_marker(&ledger.entries[0].comment));
    }
}

// "function test() { foo(); }", "class Test { method() { bar(); } }"
#[test]
fn test_transform_nested_calls() {
    let cases = vec![
        body(vec![call(18, ident("foo"), 0)]),
        body(vec![call(24, ident("bar"), 0)]),
    ];
    for node in cases {
        let ledger = run(vec![node], &PurityPolicy::blocklist());
        assert_eq!(ledger.entries.len(), 0);
    }
}

// "__importStar(module);", "__createBinding(exports, module, 'key');"
#[test]
fn test_transform_tslib_helpers() {
    let cases = vec![call(0, ident("__importStar"), 1), call(0, ident("__createBinding"), 3)];
    for node in cases {
        let ledger = run(vec![node], &PurityPolicy::blocklist());
        assert_eq!(ledger.entries.len(), 0);
    }
}

// "foo();"
#[test]
fn blocklist_marks_plain_call() {
    let ledger = run(vec![call(0, ident("foo"), 0)], &PurityPolicy::blocklist());
    assert_eq!(ledger.entries.len(), 1);
    assert!(is_marker(&ledger.entries[0].comment));
    assert!(ledger.has_pure_marker(0));
}

// "__importStar(module);" under the allowlist policy
#[test]
fn allowlist_refuses_helper_calls() {
    let items = vec![call(0, ident("__importStar"), 1), call(30, ident("__importDefault$4"), 1)];
    let ledger = run(items, &PurityPolicy::allowlist(Vec::new()));
    assert_eq!(ledger.entries.len(), 0);
}

// "super(); import('m');"
#[test]
fn super_and_import_callees_are_never_marked() {
    let items = vec![call(0, CalleeShape::Special, 0), call(9, CalleeShape::Special, 1)];
    assert_eq!(run(items, &PurityPolicy::blocklist()).entries.len(), 0);
    let items = vec![call(0, CalleeShape::Special, 0)];
    assert_eq!(run(items, &PurityPolicy::allowlist(Vec::new())).entries.len(), 0);
}

// "Object.create({});\nfoo();\nfunction f(){ bar(); }"
#[test]
fn allowlist_scenario() {
    let allowed = vec![DottedName { object: "Object".to_string(), property: "create".to_string() }];
    let policy = PurityPolicy::allowlist(allowed);
    let items = vec![
        call(0, member("Object", "create"), 1),
        call(19, ident("foo"), 0),
        body(vec![call(40, ident("bar"), 0)]),
    ];
    let ledger = run(items, &policy);
    assert_eq!(markers_at(&ledger, 0), 1);
    assert_eq!(markers_at(&ledger, 19), 1);
    assert_eq!(markers_at(&ledger, 40), 0);
    assert_eq!(ledger.entries.len(), 2);
}

#[test]
fn allowlist_refuses_unlisted_member_and_other_callees() {
    let allowed = vec![DottedName { object: "Object".to_string(), property: "create".to_string() }];
    let policy = PurityPolicy::allowlist(allowed);
    let items = vec![
        call(0, member("Math", "abs"), 1),
        call(10, member("Object", "freeze"), 1),
        call(20, CalleeShape::Member { object: None, property: Some("create".to_string()) }, 0),
        call(30, CalleeShape::Other, 0),
        call(40, CalleeShape::Arrow, 0),
    ];
    let ledger = run(items, &policy);
    assert_eq!(ledger.entries.len(), 0);
}

// "/*#__PURE__*/ foo();"
#[test]
fn existing_marker_is_not_repeated() {
    let mut ledger = Ledger::new();
    ledger.push(14, Comment { kind: CommentKind::Block, text: "#__PURE__".to_string() });
    let module = Module { items: vec![call(14, ident("foo"), 0)] };
    annotate(&module, &PurityPolicy::blocklist(), &mut ledger);
    assert_eq!(ledger.entries.len(), 1);
}

#[test]
fn tag_form_marker_is_recognised() {
    let mut ledger = Ledger::new();
    ledger.push(3, Comment { kind: CommentKind::Block, text: "* @__PURE__ ".to_string() });
    assert!(ledger.has_pure_marker(3));
    assert!(!ledger.has_pure_marker(4));
    let module = Module { items: vec![call(3, ident("foo"), 0)] };
    annotate(&module, &PurityPolicy::blocklist(), &mut ledger);
    assert_eq!(ledger.entries.len(), 1);
}

#[test]
fn marker_goes_before_other_comments() {
    let mut ledger = Ledger::new();
    ledger.push(5, Comment { kind: CommentKind::Line, text: " note".to_string() });
    let module = Module { items: vec![call(5, ident("foo"), 0)] };
    annotate(&module, &PurityPolicy::blocklist(), &mut ledger);
    assert_eq!(ledger.entries.len(), 2);
    assert_eq!(ledger.entries[0].pos, 5);
    assert!(is_marker(&ledger.entries[0].comment));
    assert_eq!(ledger.entries[1].comment.text, " note");
}

#[test]
fn annotating_twice_adds_nothing() {
    let items = || {
        vec![
            call(0, ident("foo"), 0),
            Node::New { start: 7, children: Vec::new() },
            body(vec![call(30, ident("bar"), 0)]),
        ]
    };
    let mut ledger = Ledger::new();
    annotate(&Module { items: items() }, &PurityPolicy::blocklist(), &mut ledger);
    assert_eq!(ledger.entries.len(), 2);
    annotate(&Module { items: items() }, &PurityPolicy::blocklist(), &mut ledger);
    assert_eq!(ledger.entries.len(), 2);
    assert_eq!(markers_at(&ledger, 0), 1);
    assert_eq!(markers_at(&ledger, 7), 1);
}

#[test]
fn helper_with_digits_is_exempt_but_not_with_letters() {
    let items = vec![
        call(0, ident("__importStar$1"), 1),
        call(20, ident("__importStar$abc"), 1),
        call(40, ident("__importDefault"), 1),
        call(60, ident("__importStar$99999999999"), 1),
    ];
    let ledger = run(items, &PurityPolicy::blocklist());
    assert_eq!(ledger.entries.len(), 1);
    assert_eq!(ledger.entries[0].pos, 20);
}

#[test]
fn new_is_marked_only_at_top_level() {
    let inner_new = Node::New { start: 30, children: Vec::new() };
    let items = vec![
        Node::New { start: 0, children: vec![body(vec![inner_new])] },
        body(vec![Node::New { start: 50, children: Vec::new() }]),
    ];
    let ledger = run(items, &PurityPolicy::allowlist(Vec::new()));
    assert_eq!(ledger.entries.len(), 1);
    assert_eq!(ledger.entries[0].pos, 0);
}

// "(() => 1)(); ((x) => x)(2);"
#[test]
fn invoked_arrow_with_arguments_is_not_marked() {
    let items = vec![
        Node::Call { start: 0, callee: CalleeShape::Arrow, n_args: 0, children: vec![body(Vec::new())] },
        Node::Call { start: 13, callee: CalleeShape::Arrow, n_args: 1, children: vec![body(Vec::new())] },
    ];
    let ledger = run(items, &PurityPolicy::blocklist());
    assert_eq!(ledger.entries.len(), 1);
    assert_eq!(ledger.entries[0].pos, 0);
}

// "foo(bar(), function () { baz(); });"
#[test]
fn calls_in_arguments_are_top_level_but_function_bodies_are_not() {
    let items = vec![Node::Call {
        start: 0,
        callee: ident("foo"),
        n_args: 2,
        children: vec![call(4, ident("bar"), 0), body(vec![call(25, ident("baz"), 0)])],
    }];
    let ledger = run(items, &PurityPolicy::blocklist());
    assert_eq!(ledger.entries.len(), 2);
    assert_eq!(markers_at(&ledger, 0), 1);
    assert_eq!(markers_at(&ledger, 4), 1);
    assert_eq!(markers_at(&ledger, 25), 0);
}

// "foo()();": both calls start at offset 0; one marker only.
#[test]
fn one_marker_per_offset() {
    let items = vec![Node::Call {
        start: 0,
        callee: CalleeShape::Other,
        n_args: 0,
        children: vec![call(0, ident("foo"), 0)],
    }];
    let ledger = run(items, &PurityPolicy::blocklist());
    assert_eq!(ledger.entries.len(), 1);
}
