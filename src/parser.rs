//! Markup to builder syntax: html5ever parses a fragment, the parsed DOM
//! comes over as plain values, a verified walk turns it into a tree of this
//! library, and the tree is rendered as builder calls.

use vstd::prelude::*;
use std::rc::Rc;
use html5ever::tendril::TendrilSink;
use markup5ever_rcdom::{Node as DomNode, NodeData, RcDom};
use crate::node::{
    AttrValue, Attribute, Element, Node, NodeV, ValueV, attr_views, node_view, views, lemma_views_prefix,
};
use crate::catalog::{match_tag, match_attribute, lookup, attr_names, special_attrs, tag_names, special_tags};
use crate::syntax::{node_syntax, write_node};

verus! {

/// The longest markup, in characters, that is parsed: four bytes a
/// character stay within the `u32` length of html5ever's input buffers.
pub const MAX_MARKUP_CHARS: usize = 1073741823;

/// A parsed node as plain values: a document or an element with its
/// children, a text, or anything else (doctype, comment, instruction).
#[derive(Debug)]
pub enum ParsedNode {
    Document(Vec<ParsedNode>),
    Element { tag: String, attrs: Vec<(String, String)>, children: Vec<ParsedNode> },
    Text(String),
    Other,
}

#[verifier::external_type_specification]
#[verifier::external_body]
pub struct ExDomNode(DomNode);

/// What html5ever builds from `html` as a fragment in the context of an
/// element `context` of namespace `ns`.
pub uninterp spec fn fragment_of(html: Seq<char>, ns: Seq<char>, context: Seq<char>) -> ParsedNode;

/// How many parse errors html5ever reports on that fragment.
pub uninterp spec fn fragment_errors_of(html: Seq<char>, ns: Seq<char>, context: Seq<char>) -> nat;

/// Relies on html5ever::parse_fragment with an RcDom sink, fed the whole of
/// `html` through TendrilSink::one (tendril asserts a length of at most
/// u32::MAX bytes), in the context of an element `context` of namespace
/// `ns`: the document node, converted node for node into plain values, and
/// the number of errors recorded in the RcDom. html5ever's tree building
/// depends on its input alone.
#[verifier::external_body]
fn parse_fragment(html: &str, ns: &str, context: &str) -> (r: (ParsedNode, usize))
    requires
        html@.len() <= MAX_MARKUP_CHARS,
    ensures
        r.0 == fragment_of(html@, ns@, context@),
        r.1 as nat == fragment_errors_of(html@, ns@, context@),
{
    let name = html5ever::QualName::new(None, html5ever::Namespace::from(ns), html5ever::LocalName::from(context));
    let dom = html5ever::parse_fragment(RcDom::default(), Default::default(), name, vec![]).one(html);
    (parsed_of(&dom.document), dom.errors.len())
}

/// What html5ever builds from `html` as a whole document.
pub uninterp spec fn document_of(html: Seq<char>) -> ParsedNode;

/// How many parse errors html5ever reports on that document.
pub uninterp spec fn document_errors_of(html: Seq<char>) -> nat;

/// Relies on html5ever::parse_document with an RcDom sink, fed the whole of
/// `html` through TendrilSink::one (tendril asserts a length of at most
/// u32::MAX bytes): the document node, converted node for node into plain
/// values, and the number of errors recorded in the RcDom.
#[verifier::external_body]
fn parse_document(html: &str) -> (r: (ParsedNode, usize))
    requires
        html@.len() <= MAX_MARKUP_CHARS,
    ensures
        r.0 == document_of(html@),
        r.1 as nat == document_errors_of(html@),
{
    let dom = html5ever::parse_document(RcDom::default(), Default::default()).one(html);
    (parsed_of(&dom.document), dom.errors.len())
}

/// Reads markup5ever_rcdom's Node, for the two parses above: the node's
/// NodeData as a ParsedNode, one variant for one, with the local names of
/// the tag and attributes, the attribute values, the text, and the children
/// in order.
#[verifier::external_body]
fn parsed_of(h: &Rc<DomNode>) -> ParsedNode {
    let children = || h.children.borrow().iter().map(parsed_of).collect();
    match &h.data {
        NodeData::Document => ParsedNode::Document(children()),
        NodeData::Element { name, attrs, .. } => ParsedNode::Element {
            tag: name.local.to_string(),
            attrs: attrs.borrow().iter().map(|a| (a.name.local.to_string(), a.value.to_string())).collect(),
            children: children(),
        },
        NodeData::Text { contents } => ParsedNode::Text(contents.borrow().to_string()),
        _ => ParsedNode::Other,
    }
}

/// The characters that Unicode calls white space.
pub open spec fn is_white(c: char) -> bool {
    ||| '\u{9}' <= c <= '\u{d}'
    ||| c == ' '
    ||| c == '\u{85}'
    ||| c == '\u{a0}'
    ||| c == '\u{1680}'
    ||| '\u{2000}' <= c <= '\u{200a}'
    ||| c == '\u{2028}'
    ||| c == '\u{2029}'
    ||| c == '\u{202f}'
    ||| c == '\u{205f}'
    ||| c == '\u{3000}'
}

/// Text made of white space alone, or empty.
pub open spec fn blank(s: Seq<char>) -> bool {
    forall|i: int| 0 <= i < s.len() ==> is_white(#[trigger] s[i])
}

fn white(c: char) -> (r: bool)
    ensures
        r == is_white(c),
{
    ('\u{9}' <= c && c <= '\u{d}') || c == ' ' || c == '\u{85}' || c == '\u{a0}' || c == '\u{1680}'
        || ('\u{2000}' <= c && c <= '\u{200a}') || c == '\u{2028}' || c == '\u{2029}' || c == '\u{202f}'
        || c == '\u{205f}' || c == '\u{3000}'
}

/// Whether a text is blank.
pub fn is_blank(s: &String) -> (r: bool)
    ensures
        r == blank(s@),
{
    let t = s.as_str();
    let n = t.unicode_len();
    let mut i: usize = 0;
    while i < n
        invariant
            n == s@.len(),
            t@ == s@,
            0 <= i <= n,
            forall|k: int| 0 <= k < i ==> is_white(#[trigger] s@[k]),
        decreases n - i,
    {
        if !white(t.get_char(i)) {
            return false;
        }
        i = i + 1;
    }
    true
}

/// The number of parsed nodes in `t`.
pub open spec fn parsed_size(t: ParsedNode) -> nat
    decreases t, 0nat,
{
    match t {
        ParsedNode::Document(cs) => 1 + parsed_size_prefix(cs@, cs@.len() as int),
        ParsedNode::Element { children, .. } => 1 + parsed_size_prefix(children@, children@.len() as int),
        _ => 1,
    }
}

/// The number of parsed nodes in the first `k` trees of `ps`.
pub open spec fn parsed_size_prefix(ps: Seq<ParsedNode>, k: int) -> nat
    decreases ps, k,
{
    if k <= 0 || k > ps.len() {
        0
    } else {
        parsed_size_prefix(ps, k - 1) + parsed_size(ps[k - 1])
    }
}

proof fn lemma_parsed_size_mono(ps: Seq<ParsedNode>, i: int, k: int)
    requires
        0 <= i <= k <= ps.len(),
    ensures
        parsed_size_prefix(ps, i) <= parsed_size_prefix(ps, k),
    decreases k - i,
{
    if i < k {
        lemma_parsed_size_mono(ps, i, k - 1);
    }
}

/// The attributes among the first `k` parsed ones whose name the catalog
/// knows, under their builder names, with plain values, in order.
pub open spec fn known_attrs(attrs: Seq<(String, String)>, k: int) -> Seq<(Seq<char>, ValueV)>
    decreases k,
{
    if k <= 0 || k > attrs.len() {
        Seq::empty()
    } else {
        match lookup(attr_names(), special_attrs(), attrs[k - 1].0@) {
            Some(b) => known_attrs(attrs, k - 1).push((b, ValueV::Plain(attrs[k - 1].1@))),
            None => known_attrs(attrs, k - 1),
        }
    }
}

/// Whether `a` comes before `b`, character by character from `i` on.
pub open spec fn name_lt_from(a: Seq<char>, b: Seq<char>, i: int) -> bool
    decreases b.len() - i,
{
    if i < 0 || i >= b.len() {
        false
    } else if i >= a.len() {
        true
    } else if a[i] != b[i] {
        (a[i] as u32) < (b[i] as u32)
    } else {
        name_lt_from(a, b, i + 1)
    }
}

/// Whether the name `a` comes strictly before `b`, in the order of `str`.
pub open spec fn name_lt(a: Seq<char>, b: Seq<char>) -> bool {
    name_lt_from(a, b, 0)
}

/// `x` put into `s` after every attribute whose name does not come after its own.
pub open spec fn insert_by_name(s: Seq<(Seq<char>, ValueV)>, x: (Seq<char>, ValueV)) -> Seq<(Seq<char>, ValueV)>
    decreases s.len(),
{
    if s.len() == 0 {
        seq![x]
    } else if name_lt(x.0, s.last().0) {
        insert_by_name(s.drop_last(), x).push(s.last())
    } else {
        s.push(x)
    }
}

/// The first `k` attributes of `s`, ordered by name; equal names keep their order.
pub open spec fn sort_by_name(s: Seq<(Seq<char>, ValueV)>, k: int) -> Seq<(Seq<char>, ValueV)>
    decreases k,
{
    if k <= 0 || k > s.len() {
        Seq::empty()
    } else {
        insert_by_name(sort_by_name(s, k - 1), s[k - 1])
    }
}

/// What a parsed node becomes: a blank text nothing, another text itself;
/// an element whose tag the catalog knows an element under the tag's
/// builder, with its known attributes ordered by name and its children that become
/// something; a document its only such child, or the second of two;
/// anything else nothing.
pub open spec fn convert_model(t: ParsedNode) -> Option<NodeV>
    decreases t, 0nat,
{
    match t {
        ParsedNode::Text(s) => if blank(s@) { None } else { Some(NodeV::Text(s@)) },
        ParsedNode::Element { tag, attrs, children } => match lookup(tag_names(), special_tags(), tag@) {
            Some(b) => Some(NodeV::Element {
                tag: b,
                attrs: sort_by_name(
                    known_attrs(attrs@, attrs@.len() as int),
                    known_attrs(attrs@, attrs@.len() as int).len() as int,
                ),
                children: kept(children@, children@.len() as int),
            }),
            None => None,
        },
        ParsedNode::Document(cs) => {
            let ks = kept(cs@, cs@.len() as int);
            if ks.len() == 1 {
                Some(ks[0])
            } else if ks.len() == 2 {
                Some(ks[1])
            } else {
                None
            }
        },
        ParsedNode::Other => None,
    }
}

/// What the first `k` parsed nodes become, those that become something, in order.
pub open spec fn kept(ps: Seq<ParsedNode>, k: int) -> Seq<NodeV>
    decreases ps, k,
{
    if k <= 0 || k > ps.len() {
        Seq::empty()
    } else {
        match convert_model(ps[k - 1]) {
            Some(v) => kept(ps, k - 1).push(v),
            None => kept(ps, k - 1),
        }
    }
}

pub open spec fn opt_view(r: Option<Node>) -> Option<NodeV> {
    match r {
        Some(n) => Some(node_view(n)),
        None => None,
    }
}

/// The parsed attributes that the catalog knows, under their builder names,
/// with their values as plain values; the others are dropped.
pub fn extract_attributes(attrs: &Vec<(String, String)>) -> (r: Vec<Attribute>)
    ensures
        attr_views(r@) == known_attrs(attrs@, attrs@.len() as int),
{
    let mut r: Vec<Attribute> = Vec::new();
    let mut i: usize = 0;
    while i < attrs.len()
        invariant
            0 <= i <= attrs@.len(),
            attr_views(r@) == known_attrs(attrs@, i as int),
        decreases attrs@.len() - i,
    {
        let (key, value) = &attrs[i];
        if let Some(name) = match_attribute(key.as_str()) {
            let a = Attribute { name, value: AttrValue::Plain(value.clone()) };
            let ghost before = r@;
            r.push(a);
            assert(attr_views(r@) =~= attr_views(before).push((a.name@, ValueV::Plain(value@))));
        }
        i = i + 1;
    }
    r
}

/// Whether the name `a` comes strictly before `b`.
pub fn name_less(a: &str, b: &str) -> (r: bool)
    ensures
        r == name_lt(a@, b@),
{
    let na = a.unicode_len();
    let nb = b.unicode_len();
    let mut i: usize = 0;
    while i < nb
        invariant
            na == a@.len(),
            nb == b@.len(),
            0 <= i <= nb,
            name_lt(a@, b@) == name_lt_from(a@, b@, i as int),
        decreases nb - i,
    {
        if i >= na {
            return true;
        }
        let ca = a.get_char(i);
        let cb = b.get_char(i);
        if ca != cb {
            return (ca as u32) < (cb as u32);
        }
        i = i + 1;
    }
    false
}

proof fn lemma_insert_at(s: Seq<(Seq<char>, ValueV)>, x: (Seq<char>, ValueV), p: int)
    requires
        0 <= p <= s.len(),
        forall|j: int| p <= j < s.len() ==> name_lt(x.0, #[trigger] s[j].0),
        p > 0 ==> !name_lt(x.0, s[p - 1].0),
    ensures
        insert_by_name(s, x) == s.subrange(0, p).push(x) + s.subrange(p, s.len() as int),
    decreases s.len(),
{
    if s.len() == 0 {
        assert(insert_by_name(s, x) =~= s.subrange(0, p).push(x) + s.subrange(p, s.len() as int));
    } else if p < s.len() {
        assert(name_lt(x.0, s.last().0));
        lemma_insert_at(s.drop_last(), x, p);
        assert(insert_by_name(s, x) =~= s.subrange(0, p).push(x) + s.subrange(p, s.len() as int));
    } else {
        assert(insert_by_name(s, x) =~= s.subrange(0, p).push(x) + s.subrange(p, s.len() as int));
    }
}

/// The attributes ordered by name; equal names keep their order.
pub fn sort_attributes(attrs: Vec<Attribute>) -> (r: Vec<Attribute>)
    ensures
        attr_views(r@) == sort_by_name(attr_views(attrs@), attrs@.len() as int),
{
    let mut r: Vec<Attribute> = Vec::new();
    let mut attrs = attrs;
    let ghost src = attr_views(attrs@);
    let ghost n = attrs@.len();
    let mut k: usize = 0;
    assert(n == attrs.len() as nat);
    while attrs.len() > 0
        invariant
            n <= usize::MAX,
            src.len() == n,
            k + attrs@.len() == n,
            forall|j: int| 0 <= j < attrs@.len() ==> #[trigger] attr_views(attrs@)[j] == src[k + j],
            attr_views(r@) == sort_by_name(src, k as int),
        decreases attrs@.len(),
    {
        let ghost rest = attrs@;
        let a = attrs.remove(0);
        assert(attr_views(rest)[0] == src[k as int]);
        assert forall|j: int| 0 <= j < attrs@.len() implies #[trigger] attr_views(attrs@)[j] == src[k + 1 + j] by {
            assert(attrs@[j] == rest[j + 1]);
            assert(attr_views(rest)[j + 1] == src[k + (j + 1)]);
        }
        let ghost before = attr_views(r@);
        let mut p: usize = r.len();
        while p > 0 && name_less(a.name.as_str(), r[p - 1].name.as_str())
            invariant
                0 <= p <= r@.len(),
                before == attr_views(r@),
                forall|j: int| p <= j < r@.len() ==> name_lt(a.name@, #[trigger] before[j].0),
            decreases p,
        {
            p = p - 1;
        }
        proof {
            assert(src[k as int] == (a.name@, crate::node::value_view(a.value)));
            lemma_insert_at(before, src[k as int], p as int);
        }
        r.insert(p, a);
        assert(attr_views(r@) =~= before.subrange(0, p as int).push(src[k as int]) + before.subrange(p as int, before.len() as int));
        k = k + 1;
    }
    r
}

/// The node that a parsed text becomes: none where it is blank.
pub fn convert_text(t: String) -> (r: Option<Node>)
    ensures
        blank(t@) ==> r is None,
        !blank(t@) ==> r == Some(Node::Text(t)),
{
    if is_blank(&t) {
        None
    } else {
        Some(Node::Text(t))
    }
}

/// The node that a parsed element becomes: none where the catalog does not
/// know its tag, else an element under the tag's builder name.
pub fn convert_element(tag: &str, attrs: Vec<Attribute>, children: Vec<Node>) -> (r: Option<Node>)
    ensures
        lookup(tag_names(), special_tags(), tag@) is None ==> r is None,
        lookup(tag_names(), special_tags(), tag@) matches Some(b) ==> r matches Some(Node::Element(e))
            && e.namespace is None && e.tag@ == b && e.attrs == attrs && e.children == children,
{
    match match_tag(tag) {
        Some(builder) => Some(Node::Element(Element { namespace: None, tag: builder, attrs, children })),
        None => None,
    }
}

/// The root that a parsed document gives: its only child, or the second of
/// two, or none.
pub fn document_root(children: Vec<Node>) -> (r: Option<Node>)
    ensures
        children@.len() == 1 ==> r == Some(children@[0]),
        children@.len() == 2 ==> r == Some(children@[1]),
        children@.len() != 1 && children@.len() != 2 ==> r is None,
{
    let mut children = children;
    let n = children.len();
    if n == 1 {
        Some(children.remove(0))
    } else if n == 2 {
        Some(children.remove(1))
    } else {
        None
    }
}

/// Turns a parsed node into a node of this library.
pub fn process_node(t: &ParsedNode) -> (r: Option<Node>)
    ensures
        opt_view(r) == convert_model(*t),
    decreases parsed_size(*t), 1nat,
{
    match t {
        ParsedNode::Text(s) => convert_text(s.clone()),
        ParsedNode::Element { tag, attrs, children } => {
            let cs = process_children(children);
            let attributes = sort_attributes(extract_attributes(attrs));
            let r = convert_element(tag.as_str(), attributes, cs);
            proof {
                lemma_views_prefix(cs@, cs@.len() as int);
            }
            r
        },
        ParsedNode::Document(children) => {
            let cs = process_children(children);
            proof {
                lemma_views_prefix(cs@, cs@.len() as int);
            }
            document_root(cs)
        },
        ParsedNode::Other => None,
    }
}

/// The parsed nodes that become nodes of this library, converted, in order.
pub fn process_children(ps: &Vec<ParsedNode>) -> (r: Vec<Node>)
    ensures
        views(r@) == kept(ps@, ps@.len() as int),
    decreases parsed_size_prefix(ps@, ps@.len() as int) + 1, 0nat,
{
    let mut r: Vec<Node> = Vec::new();
    let mut i: usize = 0;
    while i < ps.len()
        invariant
            0 <= i <= ps@.len(),
            views(r@) == kept(ps@, i as int),
        decreases ps@.len() - i,
    {
        proof {
            lemma_parsed_size_mono(ps@, i + 1, ps@.len() as int);
        }
        assert(parsed_size(ps@[i as int]) <= parsed_size_prefix(ps@, ps@.len() as int));
        if let Some(n) = process_node(&ps[i]) {
            proof {
                crate::node::lemma_views_push(r@, n);
            }
            r.push(n);
        }
        i = i + 1;
    }
    r
}

/// The syntax of a root: that of an element at the outermost level; a text
/// root or none gives nothing.
pub open spec fn root_syntax_spec(root: Option<NodeV>, use_macro: bool) -> Seq<char> {
    match root {
        Some(NodeV::Element { .. }) => node_syntax(root->0, use_macro, 0),
        _ => Seq::empty(),
    }
}

/// The builder syntax of a root: that of an element at the outermost level;
/// a text root or none gives the empty string.
pub fn root_syntax(root: Option<Node>, use_macro: bool) -> (r: String)
    ensures
        r@ == root_syntax_spec(opt_view(root), use_macro),
{
    let mut out = String::new();
    match &root {
        Some(n) => {
            if let Node::Element(_) = n {
                write_node(n, use_macro, 0, &mut out);
            }
        },
        None => {},
    }
    out
}

/// Parses `html` as an HTML fragment in the context of a `div` and writes
/// the resulting tree as Rust builder calls, as macros or as functions.
/// Markup that html5ever reports errors on, or that gives no element root,
/// yields the empty string.
pub fn convert_html_to_syntax(html: &str, use_macro: bool) -> (r: String)
    requires
        html@.len() <= MAX_MARKUP_CHARS,
    ensures
        r@ == (if fragment_errors_of(html@, "http://www.w3.org/1999/xhtml"@, "div"@) > 0 {
            Seq::empty()
        } else {
            root_syntax_spec(
                convert_model(fragment_of(html@, "http://www.w3.org/1999/xhtml"@, "div"@)),
                use_macro,
            )
        }),
{
    let (document, errors) = parse_fragment(html, "http://www.w3.org/1999/xhtml", "div");
    if errors > 0 {
        return String::new();
    }
    let root = process_node(&document);
    root_syntax(root, use_macro)
}

/// Parses `html` as a whole HTML document and writes the resulting tree as
/// Rust builder calls. Markup that html5ever reports errors on, or that
/// gives no element root, yields the empty string.
pub fn convert_document_to_syntax(html: &str, use_macro: bool) -> (r: String)
    requires
        html@.len() <= MAX_MARKUP_CHARS,
    ensures
        r@ == (if document_errors_of(html@) > 0 {
            Seq::empty()
        } else {
            root_syntax_spec(convert_model(document_of(html@)), use_macro)
        }),
{
    let (document, errors) = parse_document(html);
    if errors > 0 {
        return String::new();
    }
    let root = process_node(&document);
    root_syntax(root, use_macro)
}

} // verus!
