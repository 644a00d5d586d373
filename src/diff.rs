//! The diff: a lock-step, depth-first walk of the old and the new tree.

use vstd::prelude::*;
use crate::node::{size_prefix, key_of, tag_of, merged, Attribute, Element, Node};
use crate::node::{AttrValue, value_view, ValueV, values_named, size, lemma_size_prefix_mono};
use crate::patch::{Patch, PatchV, patches_view, attrs_view, children_view};

verus! {

// ---------------------------------------------------------------------------
// The model of the diff
// ---------------------------------------------------------------------------

/// The attributes among the first `k` of `news` whose merged value differs
/// from that in `olds` (absent counts as no value), in order.
pub open spec fn added_attrs(olds: Seq<Attribute>, news: Seq<Attribute>, k: int) -> Seq<Attribute>
    decreases k,
{
    if k <= 0 || k > news.len() {
        Seq::empty()
    } else if merged(olds, news[k - 1].name@) != merged(news, news[k - 1].name@) {
        added_attrs(olds, news, k - 1).push(news[k - 1])
    } else {
        added_attrs(olds, news, k - 1)
    }
}

/// The attributes among the first `k` of `olds` whose name `news` lacks, in order.
pub open spec fn removed_attrs(olds: Seq<Attribute>, news: Seq<Attribute>, k: int) -> Seq<Attribute>
    decreases k,
{
    if k <= 0 || k > olds.len() {
        Seq::empty()
    } else if merged(news, olds[k - 1].name@).len() == 0 {
        removed_attrs(olds, news, k - 1).push(olds[k - 1])
    } else {
        removed_attrs(olds, news, k - 1)
    }
}

/// The attribute patches of a matched element pair: at most one batch of
/// additions, then at most one batch of removals.
pub open spec fn attr_patches(oe: Element, ne: Element, oi: int, ni: int) -> Seq<PatchV> {
    let add = added_attrs(oe.attrs@, ne.attrs@, ne.attrs@.len() as int);
    let rem = removed_attrs(oe.attrs@, ne.attrs@, oe.attrs@.len() as int);
    (if add.len() > 0 {
        seq![PatchV::AddAttributes { tag: oe.tag@, old_idx: oi, new_idx: ni, attrs: add }]
    } else {
        Seq::empty()
    }) + (if rem.len() > 0 {
        seq![PatchV::RemoveAttributes { tag: oe.tag@, old_idx: oi, new_idx: ni, attrs: rem }]
    } else {
        Seq::empty()
    })
}

/// The positions of the unkeyed nodes among the first `k` of `cs`.
pub open spec fn unkeyed(cs: Seq<Node>, k: int) -> Seq<int>
    decreases k,
{
    if k <= 0 || k > cs.len() {
        Seq::empty()
    } else if key_of(cs[k - 1]) is None {
        unkeyed(cs, k - 1).push(k - 1)
    } else {
        unkeyed(cs, k - 1)
    }
}

/// The position of the first node from `i` on whose key is `key`, or the
/// length of `cs` if there is none.
pub open spec fn first_keyed(cs: Seq<Node>, key: Seq<char>, i: int) -> int
    decreases cs.len() - i,
{
    if i < 0 || i >= cs.len() {
        cs.len() as int
    } else if key_of(cs[i]) == Some(key) {
        i
    } else {
        first_keyed(cs, key, i + 1)
    }
}

/// The preorder index of the `i`-th child of the node at `parent`.
pub open spec fn child_idx(cs: Seq<Node>, parent: int, i: int) -> int {
    parent + 1 + size_prefix(cs, i)
}

/// The old child that the new child at `j` is matched with, if any: by key
/// (the first old child with that key), or else the old unkeyed child of
/// the same rank among the unkeyed.
pub open spec fn partner(oc: Seq<Node>, nc: Seq<Node>, j: int) -> Option<int> {
    match key_of(nc[j]) {
        Some(k) => {
            let i = first_keyed(oc, k, 0);
            if i < oc.len() { Some(i) } else { None }
        },
        None => {
            let r = unkeyed(nc, j).len();
            let ou = unkeyed(oc, oc.len() as int);
            if r < ou.len() { Some(ou[r as int]) } else { None }
        },
    }
}

/// The patches of a node pair at old index `oi` and new index `ni`.
pub open spec fn diff_node(o: Node, n: Node, oi: int, ni: int) -> Seq<PatchV>
    decreases o, 0nat,
{
    match o {
        Node::Text(a) => match n {
            Node::Text(b) => if a@ == b@ {
                Seq::empty()
            } else {
                seq![PatchV::ChangeText { old_idx: oi, old: a@, new_idx: ni, new: b@ }]
            },
            Node::Element(_) => seq![
                PatchV::ReplaceNode { tag: None, old_idx: oi, new_idx: ni, node: n },
            ],
        },
        Node::Element(oe) => match n {
            Node::Element(ne) => if oe.tag@ == ne.tag@ {
                attr_patches(oe, ne, oi, ni) + matched(oe.tag@, oe.children@, ne.children@, oi, ni,
                    ne.children@.len() as int) + removed(oe.children@, ne.children@, oi,
                    oe.children@.len() as int) + appended_patch(oe.tag@, oe.children@, ne.children@,
                    oi, ni)
            } else {
                seq![PatchV::ReplaceNode { tag: Some(oe.tag@), old_idx: oi, new_idx: ni, node: n }]
            },
            Node::Text(_) => seq![
                PatchV::ReplaceNode { tag: Some(oe.tag@), old_idx: oi, new_idx: ni, node: n },
            ],
        },
    }
}

/// The patches of the first `j` new children, in order: each keyed child
/// with a partner recurses, each keyed child without one is inserted, each
/// unkeyed child with a partner recurses.
pub open spec fn matched(ptag: Seq<char>, oc: Seq<Node>, nc: Seq<Node>, oi: int, ni: int, j: int) -> Seq<PatchV>
    decreases oc, j,
{
    if j <= 0 || j > nc.len() {
        Seq::empty()
    } else {
        let c = nc[j - 1];
        let step = match partner(oc, nc, j - 1) {
            Some(i) => if 0 <= i < oc.len() {
                diff_node(oc[i], c, child_idx(oc, oi, i), child_idx(nc, ni, j - 1))
            } else {
                Seq::empty()
            },
            None => if key_of(c) is Some {
                seq![PatchV::InsertNode { tag: Some(ptag), idx: child_idx(nc, ni, j - 1), node: c }]
            } else {
                Seq::empty()
            },
        };
        matched(ptag, oc, nc, oi, ni, j - 1) + step
    }
}

/// Whether the old child at `i` is dropped: a keyed one whose key no new
/// child carries, or an unkeyed one past the count of unkeyed new children.
pub open spec fn is_dropped(oc: Seq<Node>, nc: Seq<Node>, i: int) -> bool {
    match key_of(oc[i]) {
        Some(k) => first_keyed(nc, k, 0) == nc.len(),
        None => unkeyed(oc, i).len() >= unkeyed(nc, nc.len() as int).len(),
    }
}

/// One removal for each dropped child among the first `k` old children, in order.
pub open spec fn removed(oc: Seq<Node>, nc: Seq<Node>, oi: int, k: int) -> Seq<PatchV>
    decreases k,
{
    if k <= 0 || k > oc.len() {
        Seq::empty()
    } else if is_dropped(oc, nc, k - 1) {
        removed(oc, nc, oi, k - 1).push(
            PatchV::RemoveNode { tag: tag_of(oc[k - 1]), idx: child_idx(oc, oi, k - 1) },
        )
    } else {
        removed(oc, nc, oi, k - 1)
    }
}

/// The unkeyed new children among the first `j` that have no unkeyed old
/// partner, with their indices in the new tree.
pub open spec fn appended(oc: Seq<Node>, nc: Seq<Node>, ni: int, j: int) -> Seq<(int, Node)>
    decreases j,
{
    if j <= 0 || j > nc.len() {
        Seq::empty()
    } else if key_of(nc[j - 1]) is None && unkeyed(nc, j - 1).len() >= unkeyed(
        oc,
        oc.len() as int,
    ).len() {
        appended(oc, nc, ni, j - 1).push((child_idx(nc, ni, j - 1), nc[j - 1]))
    } else {
        appended(oc, nc, ni, j - 1)
    }
}

/// A single batch that appends the trailing unkeyed new children, if any.
pub open spec fn appended_patch(ptag: Seq<char>, oc: Seq<Node>, nc: Seq<Node>, oi: int, ni: int) -> Seq<PatchV> {
    let a = appended(oc, nc, ni, nc.len() as int);
    if a.len() > 0 {
        seq![PatchV::AppendChildren { tag: ptag, idx: oi, children: a }]
    } else {
        Seq::empty()
    }
}

/// The patches that turn the tree `old` into the tree `new`.
pub open spec fn diff_spec(old: Node, new: Node) -> Seq<PatchV> {
    diff_node(old, new, 0, 0)
}

// ---------------------------------------------------------------------------
// The attribute differ
// ---------------------------------------------------------------------------

pub open spec fn values_view(vs: Seq<&AttrValue>) -> Seq<ValueV> {
    vs.map_values(|v: &AttrValue| value_view(*v))
}

/// The values of the attributes named `name`, in order.
fn values_of<'b>(attrs: &'b Vec<Attribute>, name: &String) -> (r: Vec<&'b AttrValue>)
    ensures
        values_view(r@) == merged(attrs@, name@),
{
    let mut r: Vec<&'b AttrValue> = Vec::new();
    let mut i: usize = 0;
    while i < attrs.len()
        invariant
            0 <= i <= attrs@.len(),
            values_view(r@) == values_named(attrs@, name@, i as int),
        decreases attrs@.len() - i,
    {
        let a = &attrs[i];
        if a.name == *name {
            let ghost before = r@;
            r.push(&a.value);
            assert(values_view(r@) =~= values_view(before).push(value_view(a.value)));
        }
        i = i + 1;
    }
    r
}

/// Whether two lists of values are equal, value by value.
fn same_values(a: &Vec<&AttrValue>, b: &Vec<&AttrValue>) -> (r: bool)
    ensures
        r == (values_view(a@) == values_view(b@)),
{
    if a.len() != b.len() {
        assert(values_view(a@).len() != values_view(b@).len());
        return false;
    }
    let mut i: usize = 0;
    while i < a.len()
        invariant
            a@.len() == b@.len(),
            0 <= i <= a@.len(),
            forall|k: int| 0 <= k < i ==> value_view(*a@[k]) == value_view(*b@[k]),
        decreases a@.len() - i,
    {
        if !a[i].same(b[i]) {
            assert(values_view(a@)[i as int] != values_view(b@)[i as int]);
            return false;
        }
        i = i + 1;
    }
    assert(values_view(a@) =~= values_view(b@));
    true
}

/// Whether the attribute `name` has the same merged value in both lists.
fn same_merged(olds: &Vec<Attribute>, news: &Vec<Attribute>, name: &String) -> (r: bool)
    ensures
        r == (merged(olds@, name@) == merged(news@, name@)),
{
    let a = values_of(olds, name);
    let b = values_of(news, name);
    same_values(&a, &b)
}

/// Appends the attribute patches of a matched element pair.
fn diff_attrs<'a>(oe: &'a Element, ne: &'a Element, oi: usize, ni: usize, out: &mut Vec<Patch<'a>>)
    ensures
        patches_view(final(out)@) == patches_view(old(out)@) + attr_patches(*oe, *ne, oi as int, ni as int),
{
    let mut add: Vec<&'a Attribute> = Vec::new();
    let mut j: usize = 0;
    while j < ne.attrs.len()
        invariant
            0 <= j <= ne.attrs@.len(),
            attrs_view(add@) == added_attrs(oe.attrs@, ne.attrs@, j as int),
        decreases ne.attrs@.len() - j,
    {
        let a = &ne.attrs[j];
        if !same_merged(&oe.attrs, &ne.attrs, &a.name) {
            let ghost before = add@;
            add.push(a);
            assert(attrs_view(add@) =~= attrs_view(before).push(*a));
        }
        j = j + 1;
    }
    let mut rem: Vec<&'a Attribute> = Vec::new();
    let mut i: usize = 0;
    while i < oe.attrs.len()
        invariant
            0 <= i <= oe.attrs@.len(),
            attrs_view(rem@) == removed_attrs(oe.attrs@, ne.attrs@, i as int),
        decreases oe.attrs@.len() - i,
    {
        let a = &oe.attrs[i];
        let vs = values_of(&ne.attrs, &a.name);
        if vs.len() == 0 {
            let ghost before = rem@;
            rem.push(a);
            assert(attrs_view(rem@) =~= attrs_view(before).push(*a));
        }
        i = i + 1;
    }
    let ghost start = out@;
    if add.len() > 0 {
        out.push(Patch::AddAttributes { tag: &oe.tag, old_idx: oi, new_idx: ni, attrs: add });
    }
    if rem.len() > 0 {
        out.push(Patch::RemoveAttributes { tag: &oe.tag, old_idx: oi, new_idx: ni, attrs: rem });
    }
    assert(patches_view(out@) =~= patches_view(start) + attr_patches(*oe, *ne, oi as int, ni as int));
}

// ---------------------------------------------------------------------------
// The child reconciler
// ---------------------------------------------------------------------------

/// Every recorded position of an unkeyed node lies before `k`.
pub proof fn lemma_unkeyed_bounds(cs: Seq<Node>, k: int)
    ensures
        unkeyed(cs, k).len() <= (if k < 0 { 0 } else { k }),
        forall|m: int| 0 <= m < unkeyed(cs, k).len() ==> 0 <= #[trigger] unkeyed(cs, k)[m] < k,
    decreases k,
{
    if k > 0 && k <= cs.len() {
        lemma_unkeyed_bounds(cs, k - 1);
    }
}

pub open spec fn ints(v: Seq<usize>) -> Seq<int> {
    v.map_values(|p: usize| p as int)
}

/// The positions of the unkeyed children.
fn unkeyed_positions(cs: &Vec<Node>) -> (r: Vec<usize>)
    ensures
        ints(r@) == unkeyed(cs@, cs@.len() as int),
{
    let mut r: Vec<usize> = Vec::new();
    let mut i: usize = 0;
    while i < cs.len()
        invariant
            0 <= i <= cs@.len(),
            ints(r@) == unkeyed(cs@, i as int),
        decreases cs@.len() - i,
    {
        if cs[i].key().is_none() {
            let ghost before = r@;
            r.push(i);
            assert(ints(r@) =~= ints(before).push(i as int));
        }
        i = i + 1;
    }
    r
}

/// The position of the first child whose key is `key`, or the count of children.
fn find_keyed(cs: &Vec<Node>, key: &String) -> (r: usize)
    ensures
        r as int == first_keyed(cs@, key@, 0),
{
    let mut i: usize = 0;
    while i < cs.len()
        invariant
            0 <= i <= cs@.len(),
            first_keyed(cs@, key@, 0) == first_keyed(cs@, key@, i as int),
        decreases cs@.len() - i,
    {
        match cs[i].key() {
            Some(k) => {
                if *k == *key {
                    return i;
                }
            },
            None => {},
        }
        i = i + 1;
    }
    i
}

/// The preorder index of each child of the node at `parent`.
fn child_positions(cs: &Vec<Node>, parent: usize) -> (r: Vec<usize>)
    requires
        parent + 1 + size_prefix(cs@, cs@.len() as int) <= usize::MAX,
    ensures
        r@.len() == cs@.len(),
        forall|i: int| 0 <= i < cs@.len() ==> #[trigger] r@[i] as int == child_idx(cs@, parent as int, i),
{
    let mut r: Vec<usize> = Vec::new();
    let mut pos: usize = parent + 1;
    let mut i: usize = 0;
    while i < cs.len()
        invariant
            0 <= i <= cs@.len(),
            parent + 1 + size_prefix(cs@, cs@.len() as int) <= usize::MAX,
            r@.len() == i,
            pos as int == child_idx(cs@, parent as int, i as int),
            forall|k: int| 0 <= k < i ==> #[trigger] r@[k] as int == child_idx(cs@, parent as int, k),
        decreases cs@.len() - i,
    {
        proof {
            lemma_size_prefix_mono(cs@, i + 1, cs@.len() as int);
        }
        r.push(pos);
        let c = cs[i].count();
        pos = pos + c;
        i = i + 1;
    }
    r
}

/// Appends the patches of the children of a matched element pair.
fn diff_children<'a>(oe: &'a Element, ne: &'a Element, oi: usize, ni: usize, out: &mut Vec<Patch<'a>>)
    requires
        oi + 1 + size_prefix(oe.children@, oe.children@.len() as int) <= usize::MAX,
        ni + 1 + size_prefix(ne.children@, ne.children@.len() as int) <= usize::MAX,
    ensures
        patches_view(final(out)@) == patches_view(old(out)@) + matched(oe.tag@, oe.children@,
            ne.children@, oi as int, ni as int, ne.children@.len() as int) + removed(oe.children@,
            ne.children@, oi as int, oe.children@.len() as int) + appended_patch(oe.tag@,
            oe.children@, ne.children@, oi as int, ni as int),
    decreases 1 + size_prefix(oe.children@, oe.children@.len() as int), 0nat,
{
    let ghost oc = oe.children@;
    let ghost nc = ne.children@;
    let ghost start = patches_view(out@);
    let opos = child_positions(&oe.children, oi);
    let npos = child_positions(&ne.children, ni);
    let ou = unkeyed_positions(&oe.children);
    proof {
        lemma_unkeyed_bounds(oc, oc.len() as int);
    }
    let mut r: usize = 0;
    let mut j: usize = 0;
    while j < ne.children.len()
        invariant
            oc == oe.children@,
            nc == ne.children@,
            oi + 1 + size_prefix(oc, oc.len() as int) <= usize::MAX,
            ni + 1 + size_prefix(nc, nc.len() as int) <= usize::MAX,
            opos@.len() == oc.len(),
            forall|i: int| 0 <= i < oc.len() ==> #[trigger] opos@[i] as int == child_idx(oc, oi as int, i),
            npos@.len() == nc.len(),
            forall|i: int| 0 <= i < nc.len() ==> #[trigger] npos@[i] as int == child_idx(nc, ni as int, i),
            ints(ou@) == unkeyed(oc, oc.len() as int),
            forall|m: int| 0 <= m < unkeyed(oc, oc.len() as int).len() ==> 0 <= #[trigger] unkeyed(oc, oc.len() as int)[m] < oc.len(),
            0 <= j <= nc.len(),
            r as int == unkeyed(nc, j as int).len(),
            r <= j,
            patches_view(out@) == start + matched(oe.tag@, oc, nc, oi as int, ni as int, j as int),
        decreases nc.len() - j,
    {
        let c = &ne.children[j];
        let ghost before = patches_view(out@);
        match c.key() {
            Some(k) => {
                let i = find_keyed(&oe.children, k);
                if i < oe.children.len() {
                    proof {
                        lemma_size_prefix_mono(oc, i + 1, oc.len() as int);
                        lemma_size_prefix_mono(nc, j + 1, nc.len() as int);
                    }
                    diff_into(&oe.children[i], c, opos[i], npos[j], out);
                } else {
                    out.push(Patch::InsertNode { tag: Some(&oe.tag), idx: npos[j], node: c });
                    assert(patches_view(out@) =~= before.push(out@.last()@));
                }
            },
            None => {
                if r < ou.len() {
                    let i = ou[r];
                    assert(ints(ou@)[r as int] == i as int);
                    proof {
                        lemma_size_prefix_mono(oc, i + 1, oc.len() as int);
                        lemma_size_prefix_mono(nc, j + 1, nc.len() as int);
                    }
                    diff_into(&oe.children[i], c, opos[i], npos[j], out);
                }
                assert(unkeyed(nc, j + 1) == unkeyed(nc, j as int).push(j as int));
                r = r + 1;
            },
        }
        assert(patches_view(out@) =~= start + matched(oe.tag@, oc, nc, oi as int, ni as int, j + 1));
        j = j + 1;
    }
    assert(r as int == unkeyed(nc, nc.len() as int).len());
    let nu = r;
    let mut q: usize = 0;
    let mut i: usize = 0;
    while i < oe.children.len()
        invariant
            oc == oe.children@,
            nc == ne.children@,
            opos@.len() == oc.len(),
            forall|i: int| 0 <= i < oc.len() ==> #[trigger] opos@[i] as int == child_idx(oc, oi as int, i),
            nu as int == unkeyed(nc, nc.len() as int).len(),
            0 <= i <= oc.len(),
            q as int == unkeyed(oc, i as int).len(),
            q <= i,
            patches_view(out@) == start + matched(oe.tag@, oc, nc, oi as int, ni as int, nc.len() as int)
                + removed(oc, nc, oi as int, i as int),
        decreases oc.len() - i,
    {
        let c = &oe.children[i];
        let ghost before = out@;
        match c.key() {
            Some(k) => {
                if find_keyed(&ne.children, k) == ne.children.len() {
                    out.push(Patch::RemoveNode { tag: c.tag(), idx: opos[i] });
                    assert(patches_view(out@) =~= patches_view(before).push(out@.last()@));
                }
            },
            None => {
                if q >= nu {
                    out.push(Patch::RemoveNode { tag: c.tag(), idx: opos[i] });
                    assert(patches_view(out@) =~= patches_view(before).push(out@.last()@));
                }
                assert(unkeyed(oc, i + 1) == unkeyed(oc, i as int).push(i as int));
                q = q + 1;
            },
        }
        i = i + 1;
    }
    let mut app: Vec<(usize, &'a Node)> = Vec::new();
    let mut r2: usize = 0;
    let mut j2: usize = 0;
    while j2 < ne.children.len()
        invariant
            oc == oe.children@,
            nc == ne.children@,
            npos@.len() == nc.len(),
            forall|i: int| 0 <= i < nc.len() ==> #[trigger] npos@[i] as int == child_idx(nc, ni as int, i),
            ints(ou@) == unkeyed(oc, oc.len() as int),
            0 <= j2 <= nc.len(),
            r2 as int == unkeyed(nc, j2 as int).len(),
            r2 <= j2,
            children_view(app@) == appended(oc, nc, ni as int, j2 as int),
        decreases nc.len() - j2,
    {
        let c = &ne.children[j2];
        if c.key().is_none() {
            if r2 >= ou.len() {
                let ghost before = app@;
                app.push((npos[j2], c));
                assert(children_view(app@) =~= children_view(before).push((npos@[j2 as int] as int, *c)));
            }
            assert(unkeyed(nc, j2 + 1) == unkeyed(nc, j2 as int).push(j2 as int));
            r2 = r2 + 1;
        }
        j2 = j2 + 1;
    }
    let ghost before = out@;
    if app.len() > 0 {
        out.push(Patch::AppendChildren { tag: &oe.tag, idx: oi, children: app });
    }
    assert(patches_view(out@) =~= patches_view(before) + appended_patch(oe.tag@, oc, nc, oi as int, ni as int));
}

// ---------------------------------------------------------------------------
// The tree differ
// ---------------------------------------------------------------------------

/// Appends the patches of a node pair.
fn diff_into<'a>(o: &'a Node, n: &'a Node, oi: usize, ni: usize, out: &mut Vec<Patch<'a>>)
    requires
        oi + size(*o) <= usize::MAX,
        ni + size(*n) <= usize::MAX,
    ensures
        patches_view(final(out)@) == patches_view(old(out)@) + diff_node(*o, *n, oi as int, ni as int),
    decreases size(*o), 1nat,
{
    let ghost before = out@;
    match o {
        Node::Text(a) => match n {
            Node::Text(b) => {
                if !(*a == *b) {
                    out.push(Patch::ChangeText { old_idx: oi, old: a, new_idx: ni, new: b });
                }
            },
            Node::Element(_) => {
                out.push(Patch::ReplaceNode { tag: None, old_idx: oi, new_idx: ni, node: n });
            },
        },
        Node::Element(oe) => match n {
            Node::Element(ne) => {
                if oe.tag == ne.tag {
                    diff_attrs(oe, ne, oi, ni, out);
                    diff_children(oe, ne, oi, ni, out);
                } else {
                    out.push(Patch::ReplaceNode { tag: Some(&oe.tag), old_idx: oi, new_idx: ni, node: n });
                }
            },
            Node::Text(_) => {
                out.push(Patch::ReplaceNode { tag: Some(&oe.tag), old_idx: oi, new_idx: ni, node: n });
            },
        },
    }
    assert(patches_view(out@) =~= patches_view(before) + diff_node(*o, *n, oi as int, ni as int));
}

/// The patches that turn a rendering of `old` into one of `new`, in the order
/// of a depth-first walk. Old nodes are named by their preorder index in
/// `old`, new content is borrowed from `new`.
pub fn diff<'a>(old: &'a Node, new: &'a Node) -> (r: Vec<Patch<'a>>)
    requires
        size(*old) <= usize::MAX,
        size(*new) <= usize::MAX,
    ensures
        patches_view(r@) == diff_spec(*old, *new),
{
    let mut out: Vec<Patch<'a>> = Vec::new();
    diff_into(old, new, 0, 0, &mut out);
    assert(patches_view(out@) =~= diff_spec(*old, *new));
    out
}

} // verus!
