//! Rendering a tree as Rust builder syntax: macro calls (`div!([...],[...])`)
//! or function calls (`div(vec![...],vec![...])`).

use vstd::prelude::*;
use vstd::string::StringExecFns;
use crate::node::{
    size, lemma_size_prefix_mono, size_prefix, AttrValue, Attribute, Node, NodeV, ValueV, value_view,
    attr_views, node_view, views, lemma_views_prefix,
};

verus! {

/// Four spaces for each level.
pub open spec fn indent(d: nat) -> Seq<char>
    decreases d,
{
    if d == 0 {
        Seq::empty()
    } else {
        indent((d - 1) as nat) + "    "@
    }
}

/// The level of the children of a node at level `d`, kept within `usize`.
pub open spec fn next_level(d: nat) -> nat {
    if d < usize::MAX { d + 1 } else { d }
}

pub open spec fn is_digit(c: char) -> bool {
    '0' <= c <= '9'
}

/// A decimal number: digits, with at most one dot that has digits on both sides.
pub open spec fn is_number(s: Seq<char>) -> bool {
    &&& s.len() > 0
    &&& is_digit(s[0])
    &&& is_digit(s.last())
    &&& forall|i: int| 0 <= i < s.len() ==> is_digit(#[trigger] s[i]) || s[i] == '.'
    &&& forall|i: int, j: int| 0 <= i < j < s.len() && #[trigger] s[i] == '.' ==> #[trigger] s[j] != '.'
}

/// A value: numbers bare, anything else in double quotes.
pub open spec fn value_syntax(v: ValueV) -> Seq<char> {
    match v {
        ValueV::Plain(s) => if is_number(s) { s } else { "\""@ + s + "\""@ },
        ValueV::Handler(_) => "()"@,
    }
}

/// The first `k` attributes, each as `name(value),`.
pub open spec fn attrs_syntax(attrs: Seq<(Seq<char>, ValueV)>, k: int) -> Seq<char>
    decreases k,
{
    if k <= 0 || k > attrs.len() {
        Seq::empty()
    } else {
        attrs_syntax(attrs, k - 1) + attrs[k - 1].0 + "("@ + value_syntax(attrs[k - 1].1) + "),"@
    }
}

/// Whether the first `k` nodes are all text.
pub open spec fn all_text(cs: Seq<NodeV>, k: int) -> bool
    decreases k,
{
    if k <= 0 || k > cs.len() {
        true
    } else {
        all_text(cs, k - 1) && cs[k - 1] is Text
    }
}

pub open spec fn open_list(use_macro: bool) -> Seq<char> {
    if use_macro { "!(["@ } else { "(vec!["@ }
}

pub open spec fn mid_list(use_macro: bool) -> Seq<char> {
    if use_macro { "],["@ } else { "],vec!["@ }
}

/// A node at level `d`: text as `text("...")`; an element as its tag, its
/// attributes and its children. Children that are all text stand on the
/// element's line, separated by commas; otherwise each child takes a line of
/// its own, one level deeper, followed by a comma.
pub open spec fn node_syntax(n: NodeV, use_macro: bool, d: nat) -> Seq<char>
    decreases n, 0nat,
{
    match n {
        NodeV::Text(t) => "text(\""@ + t + "\")"@,
        NodeV::Element { tag, attrs, children } => {
            tag + open_list(use_macro) + attrs_syntax(attrs, attrs.len() as int) + mid_list(use_macro)
                + (if all_text(children, children.len() as int) {
                inline_syntax(children, use_macro, d, children.len() as int)
            } else {
                "\n"@ + block_syntax(children, use_macro, d, children.len() as int) + indent(d)
            }) + "])"@
        },
    }
}

/// The first `k` nodes on one line, separated by commas.
pub open spec fn inline_syntax(cs: Seq<NodeV>, use_macro: bool, d: nat, k: int) -> Seq<char>
    decreases cs, k,
{
    if k <= 0 || k > cs.len() {
        Seq::empty()
    } else if k == 1 {
        node_syntax(cs[0], use_macro, d)
    } else {
        inline_syntax(cs, use_macro, d, k - 1) + ","@ + node_syntax(cs[k - 1], use_macro, d)
    }
}

/// The first `k` nodes, each on a line of its own at the next level.
pub open spec fn block_syntax(cs: Seq<NodeV>, use_macro: bool, d: nat, k: int) -> Seq<char>
    decreases cs, k,
{
    if k <= 0 || k > cs.len() {
        Seq::empty()
    } else {
        block_syntax(cs, use_macro, d, k - 1) + indent(next_level(d)) + node_syntax(
            cs[k - 1],
            use_macro,
            next_level(d),
        ) + ",\n"@
    }
}

fn write_indent(d: usize, out: &mut String)
    ensures
        final(out)@ == old(out)@ + indent(d as nat),
{
    let mut i: usize = 0;
    while i < d
        invariant
            0 <= i <= d,
            out@ == old(out)@ + indent(i as nat),
        decreases d - i,
    {
        out.append("    ");
        i = i + 1;
    }
}

/// Whether a value is written as a bare number.
pub fn is_number_text(s: &String) -> (r: bool)
    ensures
        r == is_number(s@),
{
    let t = s.as_str();
    let n = t.unicode_len();
    if n == 0 {
        return false;
    }
    let mut dots: usize = 0;
    let mut i: usize = 0;
    while i < n
        invariant
            n == s@.len(),
            t@ == s@,
            0 <= i <= n,
            dots <= 1,
            forall|k: int| 0 <= k < i ==> is_digit(#[trigger] s@[k]) || s@[k] == '.',
            dots == 0 ==> forall|k: int| 0 <= k < i ==> #[trigger] s@[k] != '.',
            dots == 1 ==> exists|k: int| 0 <= k < i && #[trigger] s@[k] == '.',
            dots == 1 ==> forall|k: int, j: int| 0 <= k < j < i && #[trigger] s@[k] == '.' ==> #[trigger] s@[j] != '.',
        decreases n - i,
    {
        let c = t.get_char(i);
        if c == '.' {
            if dots == 1 {
                assert(!is_number(s@));
                return false;
            }
            dots = 1;
        } else if !('0' <= c && c <= '9') {
            assert(!is_number(s@));
            return false;
        }
        i = i + 1;
    }
    let first = t.get_char(0);
    let last = t.get_char(n - 1);
    ('0' <= first && first <= '9') && ('0' <= last && last <= '9')
}

fn write_value(v: &AttrValue, out: &mut String)
    ensures
        final(out)@ == old(out)@ + value_syntax(value_view(*v)),
{
    match v {
        AttrValue::Plain(s) => {
            if is_number_text(s) {
                out.append(s.as_str());
            } else {
                out.append("\"");
                out.append(s.as_str());
                out.append("\"");
            }
        },
        AttrValue::Handler(_) => {
            out.append("()");
        },
    }
}

fn write_attrs(attrs: &Vec<Attribute>, out: &mut String)
    ensures
        final(out)@ == old(out)@ + attrs_syntax(attr_views(attrs@), attrs@.len() as int),
{
    let mut i: usize = 0;
    while i < attrs.len()
        invariant
            0 <= i <= attrs@.len(),
            out@ == old(out)@ + attrs_syntax(attr_views(attrs@), i as int),
        decreases attrs@.len() - i,
    {
        let a = &attrs[i];
        out.append(a.name.as_str());
        out.append("(");
        write_value(&a.value, out);
        out.append("),");
        i = i + 1;
    }
}

fn children_all_text(cs: &Vec<Node>) -> (r: bool)
    ensures
        r == all_text(views(cs@), cs@.len() as int),
{
    let ghost cv = views(cs@);
    proof {
        lemma_views_prefix(cs@, cs@.len() as int);
    }
    let mut i: usize = 0;
    while i < cs.len()
        invariant
            cv == views(cs@),
            cv.len() == cs@.len(),
            forall|k: int| 0 <= k < cs@.len() ==> #[trigger] cv[k] == node_view(cs@[k]),
            0 <= i <= cs@.len(),
            all_text(cv, i as int),
        decreases cs@.len() - i,
    {
        if let Node::Element(_) = &cs[i] {
            let ghost k = i as int;
            assert(cv[k] is Element);
            assert forall|m: int| k < m <= cv.len() implies !all_text(cv, m) by {
                lemma_all_text_prefix(cv, k + 1, m);
            }
            return false;
        }
        assert(cv[i as int] is Text);
        i = i + 1;
    }
    true
}

proof fn lemma_all_text_prefix(cs: Seq<NodeV>, k: int, m: int)
    requires
        0 < k <= m <= cs.len(),
        cs[k - 1] is Element,
    ensures
        !all_text(cs, m),
    decreases m - k,
{
    if k < m {
        lemma_all_text_prefix(cs, k, m - 1);
    }
}

/// Appends the syntax of a node at level `d`.
pub fn write_node(n: &Node, use_macro: bool, d: usize, out: &mut String)
    ensures
        final(out)@ == old(out)@ + node_syntax(node_view(*n), use_macro, d as nat),
    decreases size(*n),
{
    match n {
        Node::Text(t) => {
            out.append("text(\"");
            out.append(t.as_str());
            out.append("\")");
        },
        Node::Element(e) => {
            let ghost cs = e.children@;
            let ghost cv = views(cs);
            proof {
                lemma_views_prefix(cs, cs.len() as int);
            }
            out.append(e.tag.as_str());
            if use_macro {
                out.append("!([");
            } else {
                out.append("(vec![");
            }
            write_attrs(&e.attrs, out);
            if use_macro {
                out.append("],[");
            } else {
                out.append("],vec![");
            }
            let ghost mark = out@;
            let next: usize = if d < usize::MAX { d + 1 } else { d };
            if children_all_text(&e.children) {
                let mut i: usize = 0;
                while i < e.children.len()
                    invariant
                        cs == e.children@,
                        size(*n) == 1 + size_prefix(cs, cs.len() as int),
                        0 <= i <= cs.len(),
                        cv == views(cs),
                        cv.len() == cs.len(),
                        forall|k: int| 0 <= k < cs.len() ==> #[trigger] cv[k] == node_view(cs[k]),
                        out@ == mark + inline_syntax(cv, use_macro, d as nat, i as int),
                    decreases cs.len() - i,
                {
                    proof {
                        lemma_size_prefix_mono(cs, i + 1, cs.len() as int);
                    }
                    assert(size(cs[i as int]) < size(*n));
                    if i > 0 {
                        out.append(",");
                    }
                    write_node(&e.children[i], use_macro, d, out);
                    i = i + 1;
                }
            } else {
                out.append("\n");
                let mut i: usize = 0;
                while i < e.children.len()
                    invariant
                        cs == e.children@,
                        size(*n) == 1 + size_prefix(cs, cs.len() as int),
                        0 <= i <= cs.len(),
                        next as nat == next_level(d as nat),
                        cv == views(cs),
                        cv.len() == cs.len(),
                        forall|k: int| 0 <= k < cs.len() ==> #[trigger] cv[k] == node_view(cs[k]),
                        out@ == mark + "\n"@ + block_syntax(cv, use_macro, d as nat, i as int),
                    decreases cs.len() - i,
                {
                    proof {
                        lemma_size_prefix_mono(cs, i + 1, cs.len() as int);
                    }
                    assert(size(cs[i as int]) < size(*n));
                    write_indent(next, out);
                    write_node(&e.children[i], use_macro, next, out);
                    out.append(",\n");
                    i = i + 1;
                }
                write_indent(d, out);
            }
            out.append("])");
        },
    }
}

} // verus!
