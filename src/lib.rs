//! A virtual DOM reconciliation engine: trees of elements and text, and a
//! verified diff that turns an old tree into a new one as an ordered list of
//! patches; beside it, a converter from HTML markup to Rust builder syntax.
//!
//! - `node`: the tree model, keys, attribute values and node counts.
//! - `patch`: the patches and what each one says.
//! - `diff`: the model of the diff and the verified diff itself.
//! - `laws`: what holds of the diff, proved over its model.
//! - `syntax`: rendering a tree as builder calls.
//! - `catalog`: the tag and attribute names that builders exist for.
//! - `parser`: markup (a fragment or a whole document) to builder syntax,
//!   through html5ever.

pub mod node;
pub mod patch;
pub mod diff;
pub mod laws;
pub mod syntax;
pub mod catalog;
pub mod parser;
