//! Laws of the diff, proved over its model.

use vstd::prelude::*;
use crate::node::{key_of, values_named, Attribute, Element, Node};
use crate::patch::{Patch, PatchV, patches_view};
use crate::diff::{
    added_attrs, removed_attrs, attr_patches, unkeyed, first_keyed, partner, diff_node, matched,
    is_dropped, removed, appended, appended_patch, diff_spec,
};

verus! {

/// No two siblings carry the same key.
pub open spec fn keys_distinct(cs: Seq<Node>) -> bool {
    forall|i: int, j: int|
        0 <= i < j < cs.len() && (#[trigger] key_of(cs[i])) is Some ==> key_of(cs[i]) != #[trigger] key_of(cs[j])
}

/// Siblings carry distinct keys everywhere in the tree.
pub open spec fn well_keyed(n: Node) -> bool
    decreases n, 0nat,
{
    match n {
        Node::Text(_) => true,
        Node::Element(e) => keys_distinct(e.children@) && all_well_keyed(e.children@, e.children@.len() as int),
    }
}

/// The first `k` trees of `cs` are well keyed.
pub open spec fn all_well_keyed(cs: Seq<Node>, k: int) -> bool
    decreases cs, k,
{
    if k <= 0 || k > cs.len() {
        true
    } else {
        all_well_keyed(cs, k - 1) && well_keyed(cs[k - 1])
    }
}

proof fn lemma_all_well_keyed(cs: Seq<Node>, k: int, i: int)
    requires
        all_well_keyed(cs, k),
        0 <= i < k <= cs.len(),
    ensures
        well_keyed(cs[i]),
    decreases k,
{
    if i < k - 1 {
        lemma_all_well_keyed(cs, k - 1, i);
    }
}

proof fn lemma_first_keyed(cs: Seq<Node>, key: Seq<char>, from: int, i: int)
    requires
        0 <= from <= i < cs.len(),
        key_of(cs[i]) == Some(key),
    ensures
        from <= first_keyed(cs, key, from) <= i,
        key_of(cs[first_keyed(cs, key, from)]) == Some(key),
    decreases i - from,
{
    if key_of(cs[from]) != Some(key) {
        lemma_first_keyed(cs, key, from + 1, i);
    }
}

proof fn lemma_unkeyed_prefix(cs: Seq<Node>, k: int, m: int)
    requires
        0 <= k <= m <= cs.len(),
    ensures
        unkeyed(cs, k).len() <= unkeyed(cs, m).len(),
        unkeyed(cs, m).subrange(0, unkeyed(cs, k).len() as int) == unkeyed(cs, k),
    decreases m - k,
{
    if k < m {
        lemma_unkeyed_prefix(cs, k, m - 1);
        assert(unkeyed(cs, m).subrange(0, unkeyed(cs, k).len() as int) =~= unkeyed(cs, m - 1).subrange(
            0,
            unkeyed(cs, k).len() as int,
        ));
    } else {
        assert(unkeyed(cs, m).subrange(0, unkeyed(cs, k).len() as int) =~= unkeyed(cs, k));
    }
}

proof fn lemma_named_nonempty(attrs: Seq<Attribute>, name: Seq<char>, k: int, m: int)
    requires
        0 <= m < k <= attrs.len(),
        attrs[m].name@ == name,
    ensures
        values_named(attrs, name, k).len() > 0,
    decreases k,
{
    if m < k - 1 {
        lemma_named_nonempty(attrs, name, k - 1, m);
    }
}

proof fn lemma_attrs_same(attrs: Seq<Attribute>, k: int)
    requires
        0 <= k <= attrs.len(),
    ensures
        added_attrs(attrs, attrs, k) == Seq::<Attribute>::empty(),
        removed_attrs(attrs, attrs, k) == Seq::<Attribute>::empty(),
    decreases k,
{
    if k > 0 {
        lemma_attrs_same(attrs, k - 1);
        lemma_named_nonempty(attrs, attrs[k - 1].name@, attrs.len() as int, k - 1);
    }
}

proof fn lemma_removed_same(cs: Seq<Node>, oi: int, k: int)
    requires
        0 <= k <= cs.len(),
    ensures
        removed(cs, cs, oi, k) == Seq::<PatchV>::empty(),
    decreases k,
{
    if k > 0 {
        lemma_removed_same(cs, oi, k - 1);
        match key_of(cs[k - 1]) {
            Some(key) => lemma_first_keyed(cs, key, 0, k - 1),
            None => lemma_unkeyed_prefix(cs, k, cs.len() as int),
        }
    }
}

proof fn lemma_appended_same(cs: Seq<Node>, ni: int, j: int)
    requires
        0 <= j <= cs.len(),
    ensures
        appended(cs, cs, ni, j) == Seq::<(int, Node)>::empty(),
    decreases j,
{
    if j > 0 {
        lemma_appended_same(cs, ni, j - 1);
        lemma_unkeyed_prefix(cs, j, cs.len() as int);
    }
}

/// A tree whose sibling keys are distinct diffs against itself to nothing,
/// wherever it stands in the old and in the new tree.
pub proof fn lemma_diff_node_same(t: Node, oi: int, ni: int)
    requires
        well_keyed(t),
    ensures
        diff_node(t, t, oi, ni) == Seq::<PatchV>::empty(),
    decreases t, 0nat,
{
    match t {
        Node::Text(_) => {},
        Node::Element(e) => {
            let cs = e.children@;
            lemma_attrs_same(e.attrs@, e.attrs@.len() as int);
            assert(attr_patches(e, e, oi, ni) =~= Seq::<PatchV>::empty());
            lemma_matched_same(e.tag@, cs, oi, ni, cs.len() as int);
            lemma_removed_same(cs, oi, cs.len() as int);
            lemma_appended_same(cs, ni, cs.len() as int);
            assert(diff_node(t, t, oi, ni) =~= Seq::<PatchV>::empty());
        },
    }
}

proof fn lemma_matched_same(tag: Seq<char>, cs: Seq<Node>, oi: int, ni: int, j: int)
    requires
        keys_distinct(cs),
        all_well_keyed(cs, cs.len() as int),
        0 <= j <= cs.len(),
    ensures
        matched(tag, cs, cs, oi, ni, j) == Seq::<PatchV>::empty(),
    decreases cs, j,
{
    if j > 0 {
        lemma_matched_same(tag, cs, oi, ni, j - 1);
        match key_of(cs[j - 1]) {
            Some(key) => {
                lemma_first_keyed(cs, key, 0, j - 1);
            },
            None => {
                lemma_unkeyed_prefix(cs, j, cs.len() as int);
                assert(unkeyed(cs, j) == unkeyed(cs, j - 1).push(j - 1));
                assert(unkeyed(cs, cs.len() as int)[unkeyed(cs, j - 1).len() as int] == unkeyed(cs, j)[unkeyed(cs, j - 1).len() as int]);
            },
        }
        assert(partner(cs, cs, j - 1) == Some(j - 1));
        lemma_all_well_keyed(cs, cs.len() as int, j - 1);
        lemma_diff_node_same(cs[j - 1], crate::diff::child_idx(cs, oi, j - 1), crate::diff::child_idx(cs, ni, j - 1));
        assert(matched(tag, cs, cs, oi, ni, j) =~= Seq::<PatchV>::empty());
    }
}

/// A tree whose sibling keys are distinct diffs against itself to no patch
/// at all.
pub proof fn lemma_diff_same(t: Node)
    requires
        well_keyed(t),
    ensures
        diff_spec(t, t) == Seq::<PatchV>::empty(),
{
    lemma_diff_node_same(t, 0, 0);
}

/// Two elements with different tags diff to exactly one replacement of the
/// root that names the old tag, whatever their attributes and children.
pub proof fn lemma_tag_change(oe: Element, ne: Element)
    requires
        oe.tag@ != ne.tag@,
    ensures
        diff_spec(Node::Element(oe), Node::Element(ne)) == seq![
            PatchV::ReplaceNode { tag: Some(oe.tag@), old_idx: 0, new_idx: 0, node: Node::Element(ne) },
        ],
{
}

/// Two texts with different content diff to exactly one text
/// change from the old content to the new.
pub proof fn lemma_text_change(a: String, b: String)
    requires
        a@ != b@,
    ensures
        diff_spec(Node::Text(a), Node::Text(b)) == seq![
            PatchV::ChangeText { old_idx: 0, old: a@, new_idx: 0, new: b@ },
        ],
{
}

/// When two keyed siblings with distinct keys swap places
/// under an otherwise unchanged parent, each is matched with itself by key
/// and no patch comes out.
pub proof fn lemma_keyed_swap(oe: Element, ne: Element, a: Node, b: Node)
    requires
        oe.tag@ == ne.tag@,
        oe.attrs@ == ne.attrs@,
        oe.children@ == seq![a, b],
        ne.children@ == seq![b, a],
        key_of(a) is Some,
        key_of(b) is Some,
        key_of(a) != key_of(b),
        well_keyed(a),
        well_keyed(b),
    ensures
        diff_spec(Node::Element(oe), Node::Element(ne)) == Seq::<PatchV>::empty(),
{
    let oc = oe.children@;
    let nc = ne.children@;
    let ka = key_of(a)->0;
    let kb = key_of(b)->0;
    lemma_attrs_same(oe.attrs@, oe.attrs@.len() as int);
    assert(attr_patches(oe, ne, 0, 0) =~= Seq::<PatchV>::empty());
    assert(first_keyed(oc, kb, 1) == 1);
    assert(first_keyed(oc, kb, 0) == 1);
    assert(first_keyed(oc, ka, 0) == 0);
    assert(first_keyed(nc, ka, 1) == 1);
    assert(first_keyed(nc, ka, 0) == 1);
    assert(first_keyed(nc, kb, 0) == 0);
    assert(partner(oc, nc, 0) == Some(1int));
    assert(partner(oc, nc, 1) == Some(0int));
    lemma_diff_node_same(b, crate::diff::child_idx(oc, 0, 1), crate::diff::child_idx(nc, 0, 0));
    lemma_diff_node_same(a, crate::diff::child_idx(oc, 0, 0), crate::diff::child_idx(nc, 0, 1));
    assert(matched(oe.tag@, oc, nc, 0, 0, 0) =~= Seq::<PatchV>::empty());
    assert(matched(oe.tag@, oc, nc, 0, 0, 1) =~= Seq::<PatchV>::empty());
    assert(matched(oe.tag@, oc, nc, 0, 0, 2) =~= Seq::<PatchV>::empty());
    assert(!is_dropped(oc, nc, 0));
    assert(!is_dropped(oc, nc, 1));
    assert(removed(oc, nc, 0, 0) =~= Seq::<PatchV>::empty());
    assert(removed(oc, nc, 0, 1) =~= Seq::<PatchV>::empty());
    assert(removed(oc, nc, 0, 2) =~= Seq::<PatchV>::empty());
    assert(appended(oc, nc, 0, 0) =~= Seq::<(int, Node)>::empty());
    assert(appended(oc, nc, 0, 1) =~= Seq::<(int, Node)>::empty());
    assert(appended(oc, nc, 0, 2) =~= Seq::<(int, Node)>::empty());
    assert(appended_patch(oe.tag@, oc, nc, 0, 0) =~= Seq::<PatchV>::empty());
    assert(diff_spec(Node::Element(oe), Node::Element(ne)) =~= Seq::<PatchV>::empty());
}

/// Any two patch lists that meet the contract of the diff on
/// the same two trees say the same thing, patch for patch.
pub proof fn lemma_deterministic<'a>(old: Node, new: Node, r1: Seq<Patch<'a>>, r2: Seq<Patch<'a>>)
    requires
        patches_view(r1) == diff_spec(old, new),
        patches_view(r2) == diff_spec(old, new),
    ensures
        r1.len() == r2.len(),
        forall|i: int| 0 <= i < r1.len() ==> #[trigger] r1[i]@ == r2[i]@,
{
    assert(patches_view(r1).len() == r1.len());
    assert(patches_view(r2).len() == r2.len());
    assert forall|i: int| 0 <= i < r1.len() implies #[trigger] r1[i]@ == r2[i]@ by {
        assert(patches_view(r1)[i] == r1[i]@);
        assert(patches_view(r2)[i] == r2[i]@);
    }
}

} // verus!
