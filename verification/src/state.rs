//! The browsing state a screen holds: the loaded library, the current
//! stage, search query, sort key and selection.

use vstd::prelude::*;

use crate::filter::{filter_by_query, filtered, query_matches, query_pred, sound_matches};
use crate::library::{Library, LibraryEntry};
use crate::search::Sorting;

verus! {

/// Which screen is shown.
#[derive(Debug, Default, Clone, Copy, PartialEq, Eq, Structural)]
pub enum Stage {
    #[default]
    Library,
    Favourites,
    Settings,
    Stats,
    Credits,
}

/// The session state: the loaded library and everything the user picked.
#[derive(Debug)]
pub struct GdSfx {
    pub cdn_url: Option<String>,
    pub sfx_version: Option<usize>,
    pub sfx_library: Option<Library>,
    pub stage: Stage,
    pub search_query: String,
    pub sorting: Sorting,
    pub selected_sfx: Option<LibraryEntry>,
}

impl Default for GdSfx {
    fn default() -> (r: GdSfx)
        ensures
            r.cdn_url is None,
            r.sfx_version is None,
            r.sfx_library is None,
            r.stage == Stage::Library,
            r.search_query@ == Seq::<char>::empty(),
            r.sorting == Sorting::Default,
            r.selected_sfx is None,
    {
        GdSfx {
            cdn_url: None,
            sfx_version: None,
            sfx_library: None,
            stage: Stage::Library,
            search_query: String::new(),
            sorting: Sorting::Default,
            selected_sfx: None,
        }
    }
}

impl GdSfx {
    /// Does the current query match this entry: case-folded name containment,
    /// or the query exactly the entry's id in decimal.
    pub fn matches_query(&self, entry: &LibraryEntry) -> (r: bool)
        ensures
            r == sound_matches(self.search_query@, entry.spec_name(), entry.spec_id()),
    {
        query_matches(&self.search_query, entry.name(), entry.id())
    }
}

/// Recomputes every visibility flag of the (cloned) tree against the current
/// query: sounds are visible iff they match, categories iff some child is.
pub fn filter_sounds(gdsfx: &GdSfx, node: &mut LibraryEntry)
    ensures
        filtered(query_pred(gdsfx.search_query@), *old(node), *final(node)),
{
    let r = filter_by_query(&gdsfx.search_query, node);
    *node = r;
}

} // verus!
