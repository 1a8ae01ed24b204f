//! The library tree: categories and sounds.

use vstd::prelude::*;

verus! {

/// One node of the sound-effect library tree.
///
/// A `Category` owns an ordered list of children; a `Sound` is a leaf.
/// `parent_id` is a non-owning back-reference to the owning category's id
/// (`crate::ROOT_PARENT_ID` marks the root). The `enabled` flag is transient:
/// it is fully recomputed by every filter pass and carries no identity.
#[derive(Debug)]
pub enum LibraryEntry {
    Category {
        id: u32,
        name: String,
        parent_id: u32,
        children: Vec<LibraryEntry>,
        enabled: bool,
    },
    Sound {
        id: u32,
        name: String,
        parent_id: u32,
        bytes: u64,
        duration: u64,
        enabled: bool,
    },
}

impl LibraryEntry {
    /// The node's id, whichever variant it is.
    pub open spec fn spec_id(&self) -> u32 {
        match *self {
            LibraryEntry::Category { id, .. } => id,
            LibraryEntry::Sound { id, .. } => id,
        }
    }

    /// The node's name, whichever variant it is.
    pub open spec fn spec_name(&self) -> Seq<char> {
        match *self {
            LibraryEntry::Category { ref name, .. } => name@,
            LibraryEntry::Sound { ref name, .. } => name@,
        }
    }

    /// The owning category's id.
    pub open spec fn spec_parent(&self) -> u32 {
        match *self {
            LibraryEntry::Category { parent_id, .. } => parent_id,
            LibraryEntry::Sound { parent_id, .. } => parent_id,
        }
    }

    /// File size of a sound; a category contributes 0.
    pub open spec fn spec_bytes(&self) -> u64 {
        match *self {
            LibraryEntry::Category { .. } => 0,
            LibraryEntry::Sound { bytes, .. } => bytes,
        }
    }

    /// Duration of a sound; a category contributes 0.
    pub open spec fn spec_duration(&self) -> u64 {
        match *self {
            LibraryEntry::Category { .. } => 0,
            LibraryEntry::Sound { duration, .. } => duration,
        }
    }

    /// The transient visibility flag.
    pub open spec fn spec_enabled(&self) -> bool {
        match *self {
            LibraryEntry::Category { enabled, .. } => enabled,
            LibraryEntry::Sound { enabled, .. } => enabled,
        }
    }

    pub fn id(&self) -> (r: u32)
        ensures
            r == self.spec_id(),
    {
        match self {
            LibraryEntry::Category { id, .. } => *id,
            LibraryEntry::Sound { id, .. } => *id,
        }
    }

    pub fn name(&self) -> (r: &String)
        ensures
            r@ == self.spec_name(),
    {
        match self {
            LibraryEntry::Category { name, .. } => name,
            LibraryEntry::Sound { name, .. } => name,
        }
    }

    pub fn parent(&self) -> (r: u32)
        ensures
            r == self.spec_parent(),
    {
        match self {
            LibraryEntry::Category { parent_id, .. } => *parent_id,
            LibraryEntry::Sound { parent_id, .. } => *parent_id,
        }
    }

    pub fn bytes(&self) -> (r: u64)
        ensures
            r == self.spec_bytes(),
    {
        match self {
            LibraryEntry::Category { .. } => 0,
            LibraryEntry::Sound { bytes, .. } => *bytes,
        }
    }

    pub fn duration(&self) -> (r: u64)
        ensures
            r == self.spec_duration(),
    {
        match self {
            LibraryEntry::Category { .. } => 0,
            LibraryEntry::Sound { duration, .. } => *duration,
        }
    }

    pub fn is_enabled(&self) -> (r: bool)
        ensures
            r == self.spec_enabled(),
    {
        match self {
            LibraryEntry::Category { enabled, .. } => *enabled,
            LibraryEntry::Sound { enabled, .. } => *enabled,
        }
    }

    pub fn is_category(&self) -> (r: bool)
        ensures
            r == (self is Category),
    {
        match self {
            LibraryEntry::Category { .. } => true,
            LibraryEntry::Sound { .. } => false,
        }
    }

}

/// A credited creator of library content, for display.
#[derive(Debug, Clone)]
pub struct Credit {
    pub name: String,
    pub link: String,
}

/// A loaded library: the tree of sound effects plus its credits.
#[derive(Debug)]
pub struct Library {
    pub sound_effects: LibraryEntry,
    pub credits: Vec<Credit>,
}

} // verus!
