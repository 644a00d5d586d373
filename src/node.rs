//! The tree model: elements, text, attributes and callback handles.

use vstd::prelude::*;
use vstd::string::*;

verus! {

/// An event handler, compared by the identity of its origin: clones of one
/// handle are equal, two handles made apart are not.
#[derive(Clone, Copy, Debug, PartialEq, Eq, Structural)]
pub struct Callback {
    pub origin: u64,
}

/// The value of an attribute: a plain value, or an event handler.
#[derive(Clone, Debug, PartialEq)]
pub enum AttrValue {
    Plain(String),
    Handler(Callback),
}

/// A named attribute of an element.
#[derive(Clone, Debug, PartialEq)]
pub struct Attribute {
    pub name: String,
    pub value: AttrValue,
}

/// An element: optional namespace, tag, attributes in order, children in order.
#[derive(Debug, PartialEq)]
pub struct Element {
    pub namespace: Option<String>,
    pub tag: String,
    pub attrs: Vec<Attribute>,
    pub children: Vec<Node>,
}

/// A node of a tree.
#[derive(Debug, PartialEq)]
pub enum Node {
    Element(Element),
    Text(String),
}

/// The number of nodes in the tree rooted at `n`.
pub open spec fn size(n: Node) -> nat
    decreases n, 0nat,
{
    match n {
        Node::Text(_) => 1,
        Node::Element(e) => 1 + size_prefix(e.children@, e.children@.len() as int),
    }
}

/// The number of nodes in the first `k` trees of `cs`.
pub open spec fn size_prefix(cs: Seq<Node>, k: int) -> nat
    decreases cs, k,
{
    if k <= 0 || k > cs.len() {
        0
    } else {
        size_prefix(cs, k - 1) + size(cs[k - 1])
    }
}

/// What a node is, as a value: tag, attributes and children, or text.
pub enum NodeV {
    Element { tag: Seq<char>, attrs: Seq<(Seq<char>, ValueV)>, children: Seq<NodeV> },
    Text(Seq<char>),
}

/// Each attribute as its name and value.
pub open spec fn attr_views(attrs: Seq<Attribute>) -> Seq<(Seq<char>, ValueV)> {
    attrs.map_values(|a: Attribute| (a.name@, value_view(a.value)))
}

/// The value of a tree (the namespace aside).
pub open spec fn node_view(n: Node) -> NodeV
    decreases n, 0nat,
{
    match n {
        Node::Text(t) => NodeV::Text(t@),
        Node::Element(e) => NodeV::Element {
            tag: e.tag@,
            attrs: attr_views(e.attrs@),
            children: views_prefix(e.children@, e.children@.len() as int),
        },
    }
}

/// The values of the first `k` trees of `cs`.
pub open spec fn views_prefix(cs: Seq<Node>, k: int) -> Seq<NodeV>
    decreases cs, k,
{
    if k <= 0 || k > cs.len() {
        Seq::empty()
    } else {
        views_prefix(cs, k - 1).push(node_view(cs[k - 1]))
    }
}

/// The values of all the trees of `cs`.
pub open spec fn views(cs: Seq<Node>) -> Seq<NodeV> {
    views_prefix(cs, cs.len() as int)
}

pub proof fn lemma_views_prefix(cs: Seq<Node>, k: int)
    requires
        0 <= k <= cs.len(),
    ensures
        views_prefix(cs, k).len() == k,
        forall|i: int| 0 <= i < k ==> #[trigger] views_prefix(cs, k)[i] == node_view(cs[i]),
    decreases k,
{
    if k > 0 {
        lemma_views_prefix(cs, k - 1);
    }
}

pub proof fn lemma_views_push(cs: Seq<Node>, n: Node)
    ensures
        views(cs.push(n)) == views(cs).push(node_view(n)),
{
    lemma_views_prefix(cs, cs.len() as int);
    lemma_views_prefix(cs.push(n), cs.len() as int + 1);
    assert(views(cs.push(n)) =~= views(cs).push(node_view(n)));
}

/// Every prefix of `cs` holds no more nodes than a longer prefix.
pub proof fn lemma_size_prefix_mono(cs: Seq<Node>, i: int, k: int)
    requires
        0 <= i <= k <= cs.len(),
    ensures
        size_prefix(cs, i) <= size_prefix(cs, k),
    decreases k - i,
{
    if i < k {
        lemma_size_prefix_mono(cs, i, k - 1);
    }
}

/// The reserved name of the attribute that identifies a child among its siblings.
pub open spec fn key_name() -> Seq<char> {
    seq!['k', 'e', 'y']
}

/// The key of the attributes from position `i` on: the value of the first
/// plain attribute named `key`.
pub open spec fn key_from(attrs: Seq<Attribute>, i: int) -> Option<Seq<char>>
    decreases attrs.len() - i,
{
    if i < 0 || i >= attrs.len() {
        None
    } else if attrs[i].name@ == key_name() && attrs[i].value is Plain {
        Some(attrs[i].value->Plain_0@)
    } else {
        key_from(attrs, i + 1)
    }
}

/// The key of a node: text has none, an element that of its attributes.
pub open spec fn key_of(n: Node) -> Option<Seq<char>> {
    match n {
        Node::Text(_) => None,
        Node::Element(e) => key_from(e.attrs@, 0),
    }
}

/// The tag of a node: text has none.
pub open spec fn tag_of(n: Node) -> Option<Seq<char>> {
    match n {
        Node::Text(_) => None,
        Node::Element(e) => Some(e.tag@),
    }
}

/// What an attribute value is, for comparison.
pub enum ValueV {
    Plain(Seq<char>),
    Handler(u64),
}

pub open spec fn value_view(v: AttrValue) -> ValueV {
    match v {
        AttrValue::Plain(s) => ValueV::Plain(s@),
        AttrValue::Handler(c) => ValueV::Handler(c.origin),
    }
}

/// The values of the attributes named `name` among the first `k` of `attrs`,
/// in order: an attribute given several times is one attribute with several values.
pub open spec fn values_named(attrs: Seq<Attribute>, name: Seq<char>, k: int) -> Seq<ValueV>
    decreases k,
{
    if k <= 0 || k > attrs.len() {
        Seq::empty()
    } else if attrs[k - 1].name@ == name {
        values_named(attrs, name, k - 1).push(value_view(attrs[k - 1].value))
    } else {
        values_named(attrs, name, k - 1)
    }
}

/// All the values of the attributes named `name`.
pub open spec fn merged(attrs: Seq<Attribute>, name: Seq<char>) -> Seq<ValueV> {
    values_named(attrs, name, attrs.len() as int)
}

/// Whether `s` is the reserved name `key`.
pub fn is_key_name(s: &String) -> (r: bool)
    ensures
        r == (s@ == key_name()),
{
    let t = s.as_str();
    if t.unicode_len() != 3 {
        return false;
    }
    let r = t.get_char(0) == 'k' && t.get_char(1) == 'e' && t.get_char(2) == 'y';
    proof {
        if r {
            assert(s@ =~= key_name());
        }
    }
    r
}

impl Callback {
    /// Whether two handles come from the same origin.
    pub fn same(&self, other: &Callback) -> (r: bool)
        ensures
            r == (self.origin == other.origin),
    {
        self.origin == other.origin
    }
}

impl AttrValue {
    /// Value equality: plain values by content, handlers by origin.
    pub fn same(&self, other: &AttrValue) -> (r: bool)
        ensures
            r == (value_view(*self) == value_view(*other)),
    {
        match self {
            AttrValue::Plain(a) => match other {
                AttrValue::Plain(b) => {
                    let r = *a == *b;
                    proof {
                        if r {
                            assert(value_view(*self) == value_view(*other));
                        }
                    }
                    r
                },
                AttrValue::Handler(_) => false,
            },
            AttrValue::Handler(a) => match other {
                AttrValue::Plain(_) => false,
                AttrValue::Handler(b) => a.same(b),
            },
        }
    }
}

impl Attribute {
    /// An attribute with a plain value.
    pub fn new(name: &str, value: &str) -> (r: Attribute)
        ensures
            r.name@ == name@,
            r.value matches AttrValue::Plain(v) && v@ == value@,
    {
        Attribute { name: name.to_string(), value: AttrValue::Plain(value.to_string()) }
    }

    /// An attribute whose value is an event handler.
    pub fn handler(name: &str, cb: Callback) -> (r: Attribute)
        ensures
            r.name@ == name@,
            r.value == AttrValue::Handler(cb),
    {
        Attribute { name: name.to_string(), value: AttrValue::Handler(cb) }
    }
}

impl Element {
    /// An element from its parts.
    pub fn new(namespace: Option<String>, tag: &str, attrs: Vec<Attribute>, children: Vec<Node>) -> (r: Element)
        ensures
            r.namespace == namespace,
            r.tag@ == tag@,
            r.attrs@ == attrs@,
            r.children@ == children@,
    {
        Element { namespace, tag: tag.to_string(), attrs, children }
    }

    /// Appends attributes after the present ones.
    pub fn add_attributes(&mut self, attrs: Vec<Attribute>)
        ensures
            final(self).attrs@ == old(self).attrs@ + attrs@,
            final(self).tag == old(self).tag,
            final(self).namespace == old(self).namespace,
            final(self).children == old(self).children,
    {
        let mut attrs = attrs;
        self.attrs.append(&mut attrs);
    }

    /// Appends children after the present ones.
    pub fn add_children(&mut self, children: Vec<Node>)
        ensures
            final(self).children@ == old(self).children@ + children@,
            final(self).tag == old(self).tag,
            final(self).namespace == old(self).namespace,
            final(self).attrs == old(self).attrs,
    {
        let mut children = children;
        self.children.append(&mut children);
    }
}

impl Node {
    /// An element node without namespace.
    pub fn element(tag: &str, attrs: Vec<Attribute>, children: Vec<Node>) -> (r: Node)
        ensures
            r matches Node::Element(e) && e.namespace is None && e.tag@ == tag@ && e.attrs@ == attrs@
                && e.children@ == children@,
    {
        Node::Element(Element::new(None, tag, attrs, children))
    }

    /// A text node.
    pub fn text(s: &str) -> (r: Node)
        ensures
            r matches Node::Text(t) && t@ == s@,
    {
        Node::Text(s.to_string())
    }

    /// The attributes of an element; text has none.
    pub fn get_attributes(&self) -> (r: Option<&Vec<Attribute>>)
        ensures
            match *self {
                Node::Element(e) => r == Some(&e.attrs),
                Node::Text(_) => r is None,
            },
    {
        match self {
            Node::Element(e) => Some(&e.attrs),
            Node::Text(_) => None,
        }
    }

    /// The key of this node, if it is an element with a plain `key` attribute.
    pub fn key(&self) -> (r: Option<&String>)
        ensures
            match r {
                Some(k) => key_of(*self) == Some(k@),
                None => key_of(*self) is None,
            },
    {
        match self {
            Node::Text(_) => None,
            Node::Element(e) => {
                let mut i: usize = 0;
                while i < e.attrs.len()
                    invariant
                        0 <= i <= e.attrs@.len(),
                        key_of(*self) == key_from(e.attrs@, i as int),
                    decreases e.attrs@.len() - i,
                {
                    let a = &e.attrs[i];
                    if is_key_name(&a.name) {
                        if let AttrValue::Plain(v) = &a.value {
                            assert(key_from(e.attrs@, i as int) == Some(v@));
                            return Some(v);
                        }
                    }
                    i = i + 1;
                }
                None
            },
        }
    }

    /// The tag of this node, if it is an element.
    pub fn tag(&self) -> (r: Option<&String>)
        ensures
            match r {
                Some(t) => tag_of(*self) == Some(t@),
                None => tag_of(*self) is None,
            },
    {
        match self {
            Node::Text(_) => None,
            Node::Element(e) => Some(&e.tag),
        }
    }

    /// The number of nodes in this tree.
    pub fn count(&self) -> (r: usize)
        requires
            size(*self) <= usize::MAX,
        ensures
            r == size(*self),
        decreases size(*self),
    {
        match self {
            Node::Text(_) => 1,
            Node::Element(e) => {
                let ghost cs = e.children@;
                let mut total: usize = 1;
                let mut i: usize = 0;
                while i < e.children.len()
                    invariant
                        cs == e.children@,
                        size(*self) == 1 + size_prefix(cs, cs.len() as int),
                        size(*self) <= usize::MAX,
                        0 <= i <= cs.len(),
                        total == 1 + size_prefix(cs, i as int),
                    decreases cs.len() - i,
                {
                    proof {
                        lemma_size_prefix_mono(cs, i + 1, cs.len() as int);
                    }
                    assert(size(cs[i as int]) < size(*self));
                    let c = e.children[i].count();
                    total = total + c;
                    i = i + 1;
                }
                total
            },
        }
    }
}

} // verus!
