use sauron::catalog::{eq_ignore_ascii_case, match_attribute, match_tag};
use sauron::node::{AttrValue, Attribute, Node};
use sauron::parser::{
    convert_document_to_syntax, convert_element, convert_html_to_syntax, convert_text, document_root, extract_attributes, is_blank,
    name_less, process_children, process_node, root_syntax, sort_attributes, ParsedNode,
};
use sauron::syntax::{is_number_text, write_node};

#[test]
fn simpe_test() {
    let input = r#"
        <div>content1</div>
        <div>content2</div>
            "#;

    let expected = r#"html!([],[
    div!([],[text("content1")]),
    div!([],[text("content2")]),
])"#;
    let syntax = convert_html_to_syntax(input, true);
    println!("syntax: {}", syntax);
    assert_eq!(expected, syntax);
}

#[test]
fn simple_svg_parse() {
    let input = r#"
<svg height="400" viewBox="0 0 600 400" width="600" xmlns="http://www.w3.org/2000/svg" xmlns:xlink="http://www.w3.org/1999/xlink">
    <defs>
        <filter id="shadow">
            <feDropShadow dx="2" dy="1" stdDeviation="0.2"></feDropShadow>
        </filter>
    </defs>
    <image height="400" xlink:href="data:image/jpeg;base64,/9j/4AAQSkZJRgABA" width="600" x="0" y="0"></image>
    <text fill="red" font-family="monospace" font-size="40" stroke="white" stroke-width="1" style="filter:url(#shadow);" x="65" y="55">John Smith</text>
    <text fill="white" font-family="monospace" font-size="20" style="filter:url(#shadow);" x="100" y="100">10101011</text>
    <text fill="red" font-family="monospace" font-size="50" style="filter:url(#shadow);" width="500" x="20" y="200">Happy birthday</text>
</svg>
"#;
    let expected = r#"html!([],[
    svg!([height(400),viewBox("0 0 600 400"),width(600),xmlns("http://www.w3.org/2000/svg"),],[
        defs!([],[
            filter!([id("shadow"),],[
                feDropShadow!([dx(2),dy(1),stdDeviation(0.2),],[]),
            ]),
        ]),
        image!([height(400),href("data:image/jpeg;base64,/9j/4AAQSkZJRgABA"),width(600),x(0),y(0),],[]),
        text!([fill("red"),font_family("monospace"),font_size(40),stroke("white"),stroke_width(1),style("filter:url(#shadow);"),x(65),y(55),],[text("John Smith")]),
        text!([fill("white"),font_family("monospace"),font_size(20),style("filter:url(#shadow);"),x(100),y(100),],[text("10101011")]),
        text!([fill("red"),font_family("monospace"),font_size(50),style("filter:url(#shadow);"),width(500),x(20),y(200),],[text("Happy birthday")]),
    ]),
])"#;
    let syntax = convert_html_to_syntax(input, true);
    println!("syntax: {}", syntax);
    assert_eq!(expected, syntax);
}

#[test]
fn function_syntax_and_attributes() {
    let syntax = convert_html_to_syntax(r#"<p class="x" TYPE="button" data-foo="1">hi</p>"#, false);
    assert_eq!(syntax, "html(vec![],vec![\n    p(vec![class(\"x\"),r#type(\"button\"),],vec![text(\"hi\")]),\n])");
}

#[test]
fn unknown_tags_are_dropped() {
    let syntax = convert_html_to_syntax("<div><blink>x</blink><b>y</b></div>", true);
    assert_eq!(syntax, "html!([],[\n    div!([],[\n        b!([],[text(\"y\")]),\n    ]),\n])");
}

#[test]
fn empty_input_gives_bare_root() {
    assert_eq!(convert_html_to_syntax("", true), "html!([],[])");
    assert_eq!(convert_html_to_syntax("   \n  ", true), "html!([],[])");
}

#[test]
fn tag_lookup() {
    assert_eq!(match_tag("DIV"), Some("div".to_string()));
    assert_eq!(match_tag("fedropshadow"), Some("feDropShadow".to_string()));
    assert_eq!(match_tag("use"), Some("r#use".to_string()));
    assert_eq!(match_tag("blink"), None);
    assert_eq!(match_tag(""), None);
}

#[test]
fn attribute_lookup() {
    assert_eq!(match_attribute("Class"), Some("class".to_string()));
    assert_eq!(match_attribute("type"), Some("r#type".to_string()));
    assert_eq!(match_attribute("font-family"), Some("font_family".to_string()));
    assert_eq!(match_attribute("viewbox"), Some("viewBox".to_string()));
    assert_eq!(match_attribute("data-foo"), None);
}

#[test]
fn case_insensitive_equality() {
    assert!(eq_ignore_ascii_case("HeLLo", "hello"));
    assert!(!eq_ignore_ascii_case("hello", "hell"));
    assert!(!eq_ignore_ascii_case("héllo", "hÉllo"));
    assert!(eq_ignore_ascii_case("", ""));
}

#[test]
fn numbers_are_written_bare() {
    assert!(is_number_text(&"400".to_string()));
    assert!(is_number_text(&"0.2".to_string()));
    assert!(!is_number_text(&"1.2.3".to_string()));
    assert!(!is_number_text(&".5".to_string()));
    assert!(!is_number_text(&"5.".to_string()));
    assert!(!is_number_text(&"".to_string()));
    assert!(!is_number_text(&"0 0".to_string()));
}

#[test]
fn blank_text() {
    assert!(is_blank(&"".to_string()));
    assert!(is_blank(&" \n\t\u{a0}\u{3000}".to_string()));
    assert!(!is_blank(&" a ".to_string()));
    assert_eq!(convert_text(" \n ".to_string()), None);
    assert_eq!(convert_text(" a ".to_string()), Some(Node::text(" a ")));
}

#[test]
fn attributes_extracted_in_order() {
    let parsed = vec![
        ("id".to_string(), "a".to_string()),
        ("bogus".to_string(), "b".to_string()),
        ("stroke-width".to_string(), "2".to_string()),
    ];
    let attrs = extract_attributes(&parsed);
    assert_eq!(attrs, vec![Attribute::new("id", "a"), Attribute::new("stroke_width", "2")]);
}

#[test]
fn element_conversion() {
    let e = convert_element("SPAN", vec![Attribute::new("id", "a")], vec![Node::text("t")]);
    assert_eq!(e, Some(Node::element("span", vec![Attribute::new("id", "a")], vec![Node::text("t")])));
    assert_eq!(convert_element("nope", vec![], vec![]), None);
}

#[test]
fn document_root_choice() {
    assert_eq!(document_root(vec![Node::text("a")]), Some(Node::text("a")));
    assert_eq!(document_root(vec![Node::text("a"), Node::text("b")]), Some(Node::text("b")));
    assert_eq!(document_root(vec![]), None);
    assert_eq!(document_root(vec![Node::text("a"), Node::text("b"), Node::text("c")]), None);
}

#[test]
fn root_rendering() {
    assert_eq!(root_syntax(None, true), "");
    assert_eq!(root_syntax(Some(Node::text("a")), true), "");
    let root = Node::element(
        "div",
        vec![Attribute::new("id", "x"), Attribute { name: "onclick".to_string(), value: AttrValue::Plain("1".to_string()) }],
        vec![Node::text("a"), Node::text("b")],
    );
    assert_eq!(root_syntax(Some(root), true), "div!([id(\"x\"),onclick(1),],[text(\"a\"),text(\"b\")])");
}

#[test]
fn nested_rendering_indents() {
    let tree = Node::element(
        "div",
        vec![],
        vec![Node::element("ul", vec![], vec![Node::element("li", vec![], vec![Node::text("1")])]), Node::text("t")],
    );
    let mut out = String::new();
    write_node(&tree, true, 0, &mut out);
    assert_eq!(
        out,
        "div!([],[\n    ul!([],[\n        li!([],[text(\"1\")]),\n    ]),\n    text(\"t\"),\n])"
    );
}

fn pel(tag: &str, attrs: Vec<(&str, &str)>, children: Vec<ParsedNode>) -> ParsedNode {
    ParsedNode::Element {
        tag: tag.to_string(),
        attrs: attrs.into_iter().map(|(k, v)| (k.to_string(), v.to_string())).collect(),
        children,
    }
}

fn ptext(s: &str) -> ParsedNode {
    ParsedNode::Text(s.to_string())
}

#[test]
fn walk_converts_a_parsed_tree() {
    let doc = ParsedNode::Document(vec![pel(
        "html",
        vec![],
        vec![ptext("\n  "), pel("DIV", vec![("ID", "a"), ("data-x", "1")], vec![ptext("content1")]), ParsedNode::Other],
    )]);
    assert_eq!(
        process_node(&doc),
        Some(Node::element(
            "html",
            vec![],
            vec![Node::element("div", vec![Attribute::new("id", "a")], vec![Node::text("content1")])]
        ))
    );
}

#[test]
fn walk_drops_other_nodes_and_unknown_tags() {
    assert_eq!(process_node(&ParsedNode::Other), None);
    assert_eq!(process_node(&pel("blink", vec![], vec![ptext("x")])), None);
    assert_eq!(process_node(&ptext("   ")), None);
    assert_eq!(process_node(&ParsedNode::Document(vec![])), None);
    assert_eq!(process_node(&ParsedNode::Document(vec![ptext("a"), ptext("b")])), Some(Node::text("b")));
}

#[test]
fn children_kept_in_source_order() {
    let ps = vec![pel("b", vec![], vec![]), ParsedNode::Other, ptext(" "), pel("span", vec![], vec![]), ptext("x")];
    assert_eq!(
        process_children(&ps),
        vec![Node::element("b", vec![], vec![]), Node::element("span", vec![], vec![]), Node::text("x")]
    );
}

#[test]
fn parse_errors_give_empty_output() {
    assert_eq!(convert_html_to_syntax("<div></span></div>", true), "");
}

#[test]
fn simple_html_parse() {
    let input = r#"<!DOCTYPE html>
<html lang="en">
<head>
    <meta charset="UTF-8">
    <meta name="viewport" content="width=device-width, initial-scale=1">
    <title>Interactive sauron app</title>
    <style type="text/css">
        body {
            font-family: "Fira Sans", "Courier New";
        }
    </style>
</head>
<body style='margin: 0; padding: 0; width: 100%; height: 100%;'>
  <div id="web-app" style='width: 100%; height: 100%;'>
      #HTML_INSERTED_HERE_BY_SERVER#
  </div>
  <!-- This is a comment -->
</body>
</html>
"#;
    let expected = r#"html!([lang("en"),],[
    head!([],[
        meta!([charset("UTF-8"),],[]),
        meta!([content("width=device-width, initial-scale=1"),name("viewport"),],[]),
        title!([],[text("Interactive sauron app")]),
        style!([r#type("text/css"),],[text("
        body {
            font-family: "Fira Sans", "Courier New";
        }
    ")]),
    ]),
    body!([style("margin: 0; padding: 0; width: 100%; height: 100%;"),],[
        div!([id("web-app"),style("width: 100%; height: 100%;"),],[text("
      #HTML_INSERTED_HERE_BY_SERVER#
  ")]),
    ]),
])"#;
    let syntax = convert_document_to_syntax(input, true);
    println!("syntax: {}", syntax);
    assert_eq!(expected, syntax);
}

#[test]
fn attributes_sorted_by_name() {
    let sorted = sort_attributes(vec![
        Attribute::new("name", "1"),
        Attribute::new("content", "2"),
        Attribute::new("class", "a"),
        Attribute::new("name", "3"),
        Attribute::new("Z", "4"),
    ]);
    assert_eq!(
        sorted,
        vec![
            Attribute::new("Z", "4"),
            Attribute::new("class", "a"),
            Attribute::new("content", "2"),
            Attribute::new("name", "1"),
            Attribute::new("name", "3"),
        ]
    );
    assert!(name_less("stroke", "stroke_width"));
    assert!(!name_less("style", "stroke_width"));
    assert!(!name_less("a", "a"));
}
