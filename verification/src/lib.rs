//! In-memory model of a hierarchical sound-effect library, with its
//! query/sort/filter engines: a tree of categories and sounds, statistics
//! roll-up over subtrees, visibility filtering by text or id query and by
//! favorites membership, and a deterministic multi-key sibling sort.

pub mod favorites;
pub mod filter;
pub mod library;
pub mod search;
pub mod settings;
pub mod state;
pub mod stats;
pub mod text;

use vstd::prelude::*;

verus! {

/// Root sentinel value for `parent_id`: a category whose parent id is this
/// value is the root of the tree.
pub const ROOT_PARENT_ID: u32 = 0;

} // verus!
