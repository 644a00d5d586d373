use sauron::diff::diff;
use sauron::node::{Attribute, Callback, Element, Node};
use sauron::patch::Patch;

fn el(tag: &str, attrs: Vec<Attribute>, children: Vec<Node>) -> Node {
    Node::element(tag, attrs, children)
}

fn div(attrs: Vec<Attribute>, children: Vec<Node>) -> Node {
    el("div", attrs, children)
}

fn span(attrs: Vec<Attribute>, children: Vec<Node>) -> Node {
    el("span", attrs, children)
}

fn b(attrs: Vec<Attribute>, children: Vec<Node>) -> Node {
    el("b", attrs, children)
}

fn i(attrs: Vec<Attribute>, children: Vec<Node>) -> Node {
    el("i", attrs, children)
}

fn strong(attrs: Vec<Attribute>, children: Vec<Node>) -> Node {
    el("strong", attrs, children)
}

fn input(attrs: Vec<Attribute>, children: Vec<Node>) -> Node {
    el("input", attrs, children)
}

fn text(s: &str) -> Node {
    Node::text(s)
}

fn attr(name: &str, value: &str) -> Attribute {
    Attribute::new(name, value)
}

fn class(v: &str) -> Attribute {
    attr("class", v)
}

fn id(v: &str) -> Attribute {
    attr("id", v)
}

fn key(v: &str) -> Attribute {
    attr("key", v)
}

fn on(event: &str, cb: Callback) -> Attribute {
    Attribute::handler(event, cb)
}

fn s(v: &str) -> String {
    v.to_string()
}

#[test]
fn test_macros() {
    let html = div(vec![class("class1"), class("class2")], vec![]);
    let attrs = html.get_attributes().unwrap();
    println!("attrs: {:#?}", attrs);
    assert_eq!(attrs.len(), 2);
}

#[test]
fn test_macros_trailing_commas() {
    let html = div(vec![class("class1"), class("class2")], vec![]);
    let attrs = html.get_attributes().unwrap();
    println!("attrs: {:#?}", attrs);
}

#[test]
fn test_macros_trailing_commas_in_attributes_only() {
    let html = div(vec![class("class1"), class("class2")], vec![]);
    let attrs = html.get_attributes().unwrap();
    println!("attrs: {:#?}", attrs);
}

#[test]
fn test_macros_trailing_commas_in_children_only() {
    let html = div(vec![class("class1"), class("class2")], vec![text("This is input")]);
    let attrs = html.get_attributes().unwrap();
    println!("attrs: {:#?}", attrs);
}

#[test]
fn test_macros_trailing_commas_in_children_and_params() {
    let html = div(vec![class("class1"), class("class2")], vec![text("This is input")]);
    let attrs = html.get_attributes().unwrap();
    println!("attrs: {:#?}", attrs);
}

#[test]
fn test_macros_trailing_commas_in_attribute_and_children() {
    let html = div(vec![class("class1"), class("class2")], vec![text("This is input")]);
    let attrs = html.get_attributes().unwrap();
    println!("attrs: {:#?}", attrs);
}

#[test]
fn test_macros_with_lines() {
    let html = div(
        vec![class("class1"), class("class2")],
        vec![input(vec![], vec![text("This is an input")])],
    );
    let attrs = html.get_attributes().unwrap();
    println!("attrs: {:#?}", attrs);
}

#[test]
fn simple_builder() {
    let mut div = Element::new(None, "div", vec![], vec![]);
    div.add_attributes(vec![attr("class", "some-class")]);
    let expected = Element::new(None, "div", vec![class("some-class")], vec![]);
    assert_eq!(div, expected);
}

#[test]
fn builder_with_event() {
    let cb = Callback { origin: 1 };
    let mut div = Element::new(None, "div", vec![], vec![]);
    div.add_attributes(vec![on("click", cb.clone())]);
    let expected = Element::new(None, "div", vec![on("click", cb)], vec![]);
    assert_eq!(div, expected, "Cloning a callback should only clone the reference");
}

#[test]
fn builder_with_children() {
    let mut div = Element::new(None, "div", vec![], vec![]);
    div.add_attributes(vec![attr("class", "some-class")]);
    div.add_children(vec![text("Hello")]);
    let expected = Element::new(None, "div", vec![class("some-class")], vec![text("Hello")]);
    assert_eq!(div, expected);
}

#[test]
fn replace_node() {
    let old = div(vec![], vec![]);
    let new = span(vec![], vec![]);
    assert_eq!(
        diff(&old, &new),
        vec![Patch::ReplaceNode { tag: Some(&s("div")), old_idx: 0, new_idx: 0, node: &span(vec![], vec![]) }],
        "ReplaceNode the root if the tag changed"
    );

    let old = div(vec![], vec![b(vec![], vec![])]);
    let new = div(vec![], vec![strong(vec![], vec![])]);
    assert_eq!(
        diff(&old, &new),
        vec![Patch::ReplaceNode { tag: Some(&s("b")), old_idx: 1, new_idx: 1, node: &strong(vec![], vec![]) }],
    );

    let old = div(vec![], vec![b(vec![], vec![text("1")]), b(vec![], vec![])]);
    let new = div(vec![], vec![i(vec![], vec![text("1")]), i(vec![], vec![])]);
    let patch = diff(&old, &new);
    assert_eq!(
        patch,
        vec![
            Patch::ReplaceNode { tag: Some(&s("b")), old_idx: 1, new_idx: 1, node: &i(vec![], vec![text("1")]) },
            Patch::ReplaceNode { tag: Some(&s("b")), old_idx: 3, new_idx: 3, node: &i(vec![], vec![]) },
        ],
    )
}

#[test]
fn add_children() {
    let old = div(vec![], vec![b(vec![], vec![])]);
    let new = div(vec![], vec![b(vec![], vec![]), el("new", vec![], vec![])]);
    assert_eq!(
        diff(&old, &new),
        vec![Patch::AppendChildren { tag: &s("div"), idx: 0, children: vec![(2, &el("new", vec![], vec![]))] }],
        "Added a new node to the root node",
    )
}

#[test]
fn remove_nodes() {
    let old = div(vec![], vec![b(vec![], vec![]), span(vec![], vec![])]);
    let new = div(vec![], vec![]);
    assert_eq!(
        diff(&old, &new),
        vec![
            Patch::RemoveNode { tag: Some(&s("b")), idx: 1 },
            Patch::RemoveNode { tag: Some(&s("span")), idx: 2 },
        ],
        "Remove all child nodes at and after child sibling index 1",
    );

    let old = div(
        vec![],
        vec![span(vec![], vec![b(vec![], vec![]), i(vec![], vec![])]), strong(vec![], vec![])],
    );
    let new = div(vec![], vec![span(vec![], vec![b(vec![], vec![])])]);
    assert_eq!(
        diff(&old, &new),
        vec![
            Patch::RemoveNode { tag: Some(&s("i")), idx: 3 },
            Patch::RemoveNode { tag: Some(&s("strong")), idx: 4 },
        ],
        "Remove a child and a grandchild node",
    );

    let old = div(
        vec![],
        vec![b(vec![], vec![i(vec![], vec![]), i(vec![], vec![])]), b(vec![], vec![])],
    );
    let new = div(vec![], vec![b(vec![], vec![i(vec![], vec![])]), i(vec![], vec![])]);
    assert_eq!(
        diff(&old, &new),
        vec![
            Patch::RemoveNode { tag: Some(&s("i")), idx: 3 },
            Patch::ReplaceNode { tag: Some(&s("b")), old_idx: 4, new_idx: 3, node: &i(vec![], vec![]) },
        ],
        "Removing child and change next node after parent",
    )
}

#[test]
fn add_attributes() {
    let old = div(vec![], vec![]);
    let new = div(vec![id("hello")], vec![]);
    assert_eq!(
        diff(&old, &new),
        vec![Patch::AddAttributes { tag: &s("div"), old_idx: 0, new_idx: 0, attrs: vec![&id("hello")] }],
        "Add attributes",
    );

    let old = div(vec![id("foobar")], vec![]);
    let new = div(vec![id("hello")], vec![]);
    assert_eq!(
        diff(&old, &new),
        vec![Patch::AddAttributes { tag: &s("div"), old_idx: 0, new_idx: 0, attrs: vec![&id("hello")] }],
        "Change attribute",
    );
}

#[test]
fn remove_attributes() {
    let old = div(vec![id("hey-there")], vec![]);
    let new = div(vec![], vec![]);
    assert_eq!(
        diff(&old, &new),
        vec![Patch::RemoveAttributes { tag: &s("div"), old_idx: 0, new_idx: 0, attrs: vec![&id("hey-there")] }],
        "Remove attributes",
    );
}

#[test]
fn remove_events() {
    let click = Callback { origin: 9 };
    let old = div(vec![on("click", click)], vec![]);
    let new = div(vec![], vec![]);
    assert_eq!(
        diff(&old, &new),
        vec![Patch::RemoveAttributes { tag: &s("div"), old_idx: 0, new_idx: 0, attrs: vec![&on("click", click)] }],
        "Remove events",
    );
}

#[test]
fn change_attribute() {
    let old = div(vec![id("hey-there")], vec![]);
    let new = div(vec![id("changed")], vec![]);
    assert_eq!(
        diff(&old, &new),
        vec![Patch::AddAttributes { tag: &s("div"), old_idx: 0, new_idx: 0, attrs: vec![&id("changed")] }],
        "Add attributes",
    );
}

#[test]
fn replace_text_node() {
    let old = text("Old");
    let new = text("New");
    assert_eq!(
        diff(&old, &new),
        vec![Patch::ChangeText { old_idx: 0, old: &s("Old"), new_idx: 0, new: &s("New") }],
        "ReplaceNode text node",
    );
}

fn sample_tree() -> Node {
    div(
        vec![class("app"), id("main"), on("click", Callback { origin: 3 })],
        vec![
            el("h1", vec![], vec![text("Lines")]),
            div(vec![key("k1"), class("row")], vec![text("one"), span(vec![], vec![text("x")])]),
            div(vec![key("k2")], vec![text("two")]),
            text("tail"),
        ],
    )
}

#[test]
fn diff_of_a_tree_with_itself_is_empty() {
    let t = sample_tree();
    let same = sample_tree();
    assert!(diff(&t, &same).is_empty());
    assert!(diff(&t, &t).is_empty());
    let leaf = text("only");
    assert!(diff(&leaf, &leaf).is_empty());
}

#[test]
fn tag_change_replaces_whole_subtree() {
    let old = div(vec![id("a")], vec![b(vec![], vec![text("x")]), text("y")]);
    let new = span(vec![id("b")], vec![i(vec![], vec![])]);
    let patches = diff(&old, &new);
    assert_eq!(patches, vec![Patch::ReplaceNode { tag: Some(&s("div")), old_idx: 0, new_idx: 0, node: &new }]);
}

#[test]
fn text_replaced_by_element_and_back() {
    let old = text("a");
    let new = div(vec![], vec![]);
    assert_eq!(diff(&old, &new), vec![Patch::ReplaceNode { tag: None, old_idx: 0, new_idx: 0, node: &new }]);
    assert_eq!(diff(&new, &old), vec![Patch::ReplaceNode { tag: Some(&s("div")), old_idx: 0, new_idx: 0, node: &old }]);
}

#[test]
fn attribute_changed_value_is_an_add() {
    let old = div(vec![id("x")], vec![]);
    let new = div(vec![id("y")], vec![]);
    assert_eq!(
        diff(&old, &new),
        vec![Patch::AddAttributes { tag: &s("div"), old_idx: 0, new_idx: 0, attrs: vec![&id("y")] }]
    );
}

#[test]
fn attribute_add_and_remove_in_one_element() {
    let old = div(vec![id("x"), attr("title", "t")], vec![]);
    let new = div(vec![id("x"), class("c")], vec![]);
    assert_eq!(
        diff(&old, &new),
        vec![
            Patch::AddAttributes { tag: &s("div"), old_idx: 0, new_idx: 0, attrs: vec![&class("c")] },
            Patch::RemoveAttributes { tag: &s("div"), old_idx: 0, new_idx: 0, attrs: vec![&attr("title", "t")] },
        ]
    );
}

#[test]
fn same_named_attributes_are_merged() {
    let old = div(vec![class("a"), class("b")], vec![]);
    let same = div(vec![class("a"), class("b")], vec![]);
    assert!(diff(&old, &same).is_empty());
    let new = div(vec![class("a"), class("c")], vec![]);
    assert_eq!(
        diff(&old, &new),
        vec![Patch::AddAttributes { tag: &s("div"), old_idx: 0, new_idx: 0, attrs: vec![&class("a"), &class("c")] }]
    );
}

#[test]
fn callbacks_compare_by_origin() {
    let cb = Callback { origin: 5 };
    let old = div(vec![on("click", cb)], vec![]);
    let same = div(vec![on("click", cb.clone())], vec![]);
    assert!(diff(&old, &same).is_empty());
    let other = div(vec![on("click", Callback { origin: 6 })], vec![]);
    assert_eq!(
        diff(&old, &other),
        vec![Patch::AddAttributes {
            tag: &s("div"),
            old_idx: 0,
            new_idx: 0,
            attrs: vec![&on("click", Callback { origin: 6 })]
        }]
    );
}

#[test]
fn append_one_child() {
    let old = div(vec![], vec![b(vec![], vec![])]);
    let new = div(vec![], vec![b(vec![], vec![]), el("new", vec![], vec![])]);
    let patches = diff(&old, &new);
    assert_eq!(patches.len(), 1);
    assert!(matches!(patches[0], Patch::AppendChildren { idx: 0, .. }));
}

#[test]
fn append_several_children_in_one_batch() {
    let old = div(vec![], vec![]);
    let new = div(vec![], vec![b(vec![], vec![text("t")]), span(vec![], vec![])]);
    assert_eq!(
        diff(&old, &new),
        vec![Patch::AppendChildren {
            tag: &s("div"),
            idx: 0,
            children: vec![(1, &b(vec![], vec![text("t")])), (3, &span(vec![], vec![]))]
        }]
    );
}

#[test]
fn keyed_swap_gives_no_patch() {
    let old = div(
        vec![],
        vec![
            div(vec![key("k1")], vec![text("first")]),
            div(vec![key("k2")], vec![text("second"), b(vec![], vec![])]),
        ],
    );
    let new = div(
        vec![],
        vec![
            div(vec![key("k2")], vec![text("second"), b(vec![], vec![])]),
            div(vec![key("k1")], vec![text("first")]),
        ],
    );
    assert!(diff(&old, &new).is_empty());
}

#[test]
fn keyed_match_recurses_with_old_index() {
    let old = div(vec![], vec![div(vec![key("k1")], vec![text("a")]), div(vec![key("k2")], vec![text("b")])]);
    let new = div(vec![], vec![div(vec![key("k2")], vec![text("B")]), div(vec![key("k1")], vec![text("a")])]);
    assert_eq!(
        diff(&old, &new),
        vec![Patch::ChangeText { old_idx: 4, old: &s("b"), new_idx: 2, new: &s("B") }]
    );
}

#[test]
fn keyed_insert_and_remove() {
    let old = div(vec![], vec![div(vec![key("k1")], vec![]), div(vec![key("k2")], vec![])]);
    let new = div(vec![], vec![div(vec![key("k2")], vec![]), div(vec![key("k3")], vec![])]);
    assert_eq!(
        diff(&old, &new),
        vec![
            Patch::InsertNode { tag: Some(&s("div")), idx: 2, node: &div(vec![key("k3")], vec![]) },
            Patch::RemoveNode { tag: Some(&s("div")), idx: 1 },
        ]
    );
}

#[test]
fn duplicate_keys_match_the_first() {
    let old = div(vec![], vec![div(vec![key("k")], vec![text("a")]), div(vec![key("k")], vec![text("b")])]);
    let new = div(vec![], vec![div(vec![key("k")], vec![text("c")])]);
    assert_eq!(
        diff(&old, &new),
        vec![Patch::ChangeText { old_idx: 2, old: &s("a"), new_idx: 2, new: &s("c") }]
    );
}

#[test]
fn unkeyed_children_match_by_position_among_unkeyed() {
    let old = div(vec![], vec![text("a"), div(vec![key("k")], vec![]), text("b")]);
    let new = div(vec![], vec![div(vec![key("k")], vec![]), text("a"), text("c")]);
    assert_eq!(
        diff(&old, &new),
        vec![Patch::ChangeText { old_idx: 3, old: &s("b"), new_idx: 3, new: &s("c") }]
    );
}

#[test]
fn nonempty_to_empty_is_only_removals() {
    let old = div(vec![], vec![b(vec![], vec![]), span(vec![], vec![])]);
    let new = div(vec![], vec![]);
    let patches = diff(&old, &new);
    assert_eq!(patches.len(), 2);
    assert!(patches.iter().all(|p| matches!(p, Patch::RemoveNode { .. })));
}

#[test]
fn text_change_reports_both_values() {
    let old = text("Old");
    let new = text("New");
    match &diff(&old, &new)[..] {
        [Patch::ChangeText { old, new, .. }] => {
            assert_eq!(old.as_str(), "Old");
            assert_eq!(new.as_str(), "New");
        },
        other => panic!("unexpected patches: {:?}", other),
    }
    let same = text("Old");
    assert!(diff(&old, &same).is_empty());
}

#[test]
fn diff_is_deterministic() {
    let old = sample_tree();
    let new = div(
        vec![class("app")],
        vec![div(vec![key("k2")], vec![text("two!")]), el("h1", vec![], vec![text("Lines")]), text("more")],
    );
    let first = diff(&old, &new);
    let second = diff(&old, &new);
    assert_eq!(first, second);
    assert_eq!(format!("{:?}", first), format!("{:?}", second));
}

#[test]
fn node_count_and_key() {
    let t = sample_tree();
    assert_eq!(t.count(), 10);
    assert_eq!(text("x").count(), 1);
    assert_eq!(div(vec![key("k9"), key("k8")], vec![]).key(), Some(&s("k9")));
    assert_eq!(div(vec![on("key", Callback { origin: 1 }), key("k8")], vec![]).key(), Some(&s("k8")));
    assert_eq!(div(vec![id("k")], vec![]).key(), None);
    assert_eq!(text("k").key(), None);
    assert_eq!(span(vec![], vec![]).tag(), Some(&s("span")));
    assert_eq!(text("k").tag(), None);
    assert!(text("k").get_attributes().is_none());
}

#[test]
fn duplicate_sibling_keys_can_patch_a_tree_against_itself() {
    let t = div(vec![], vec![div(vec![key("k")], vec![text("a")]), div(vec![key("k")], vec![text("b")])]);
    assert_eq!(
        diff(&t, &t),
        vec![Patch::ChangeText { old_idx: 2, old: &s("a"), new_idx: 4, new: &s("b") }]
    );
}
