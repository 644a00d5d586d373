//! Patches: the instructions that turn a live rendering of the old tree into
//! the new one. Old nodes are addressed by their preorder index in the old
//! tree; new content is borrowed from the new tree.

use vstd::prelude::*;
use crate::node::{Attribute, Node};

verus! {

/// One change, addressed against the old tree.
#[derive(Debug, PartialEq)]
pub enum Patch<'a> {
    /// Discard the subtree at `old_idx` and put `node` in its place.
    ReplaceNode { tag: Option<&'a String>, old_idx: usize, new_idx: usize, node: &'a Node },
    /// Insert `node` under the parent with tag `tag`, at new position `idx`.
    InsertNode { tag: Option<&'a String>, idx: usize, node: &'a Node },
    /// Append trailing children, each with its position in the new tree.
    AppendChildren { tag: &'a String, idx: usize, children: Vec<(usize, &'a Node)> },
    /// Delete the subtree at `idx`.
    RemoveNode { tag: Option<&'a String>, idx: usize },
    /// Set or overwrite the listed attributes.
    AddAttributes { tag: &'a String, old_idx: usize, new_idx: usize, attrs: Vec<&'a Attribute> },
    /// Unset the listed attributes.
    RemoveAttributes { tag: &'a String, old_idx: usize, new_idx: usize, attrs: Vec<&'a Attribute> },
    /// Replace the content of a text node.
    ChangeText { old_idx: usize, old: &'a String, new_idx: usize, new: &'a String },
}

/// What a patch says, with indices as integers and strings as characters.
pub enum PatchV {
    ReplaceNode { tag: Option<Seq<char>>, old_idx: int, new_idx: int, node: Node },
    InsertNode { tag: Option<Seq<char>>, idx: int, node: Node },
    AppendChildren { tag: Seq<char>, idx: int, children: Seq<(int, Node)> },
    RemoveNode { tag: Option<Seq<char>>, idx: int },
    AddAttributes { tag: Seq<char>, old_idx: int, new_idx: int, attrs: Seq<Attribute> },
    RemoveAttributes { tag: Seq<char>, old_idx: int, new_idx: int, attrs: Seq<Attribute> },
    ChangeText { old_idx: int, old: Seq<char>, new_idx: int, new: Seq<char> },
}

pub open spec fn opt_view(t: Option<&String>) -> Option<Seq<char>> {
    match t {
        Some(s) => Some(s@),
        None => None,
    }
}

pub open spec fn children_view(cs: Seq<(usize, &Node)>) -> Seq<(int, Node)> {
    cs.map_values(|c: (usize, &Node)| (c.0 as int, *c.1))
}

pub open spec fn attrs_view(attrs: Seq<&Attribute>) -> Seq<Attribute> {
    attrs.map_values(|a: &Attribute| *a)
}

impl<'a> View for Patch<'a> {
    type V = PatchV;

    open spec fn view(&self) -> PatchV {
        match *self {
            Patch::ReplaceNode { tag, old_idx, new_idx, node } => PatchV::ReplaceNode {
                tag: opt_view(tag),
                old_idx: old_idx as int,
                new_idx: new_idx as int,
                node: *node,
            },
            Patch::InsertNode { tag, idx, node } => PatchV::InsertNode {
                tag: opt_view(tag),
                idx: idx as int,
                node: *node,
            },
            Patch::AppendChildren { tag, idx, children } => PatchV::AppendChildren {
                tag: tag@,
                idx: idx as int,
                children: children_view(children@),
            },
            Patch::RemoveNode { tag, idx } => PatchV::RemoveNode { tag: opt_view(tag), idx: idx as int },
            Patch::AddAttributes { tag, old_idx, new_idx, attrs } => PatchV::AddAttributes {
                tag: tag@,
                old_idx: old_idx as int,
                new_idx: new_idx as int,
                attrs: attrs_view(attrs@),
            },
            Patch::RemoveAttributes { tag, old_idx, new_idx, attrs } => PatchV::RemoveAttributes {
                tag: tag@,
                old_idx: old_idx as int,
                new_idx: new_idx as int,
                attrs: attrs_view(attrs@),
            },
            Patch::ChangeText { old_idx, old, new_idx, new } => PatchV::ChangeText {
                old_idx: old_idx as int,
                old: old@,
                new_idx: new_idx as int,
                new: new@,
            },
        }
    }
}

/// What a list of patches says.
pub open spec fn patches_view(ps: Seq<Patch>) -> Seq<PatchV> {
    ps.map_values(|p: Patch| p@)
}

} // verus!
