//! The filter engine: recomputes the transient visibility flag of every node
//! from a predicate on sounds. A sound is visible exactly when it matches the
//! predicate; a category is visible exactly when at least one child is.

use vstd::prelude::*;

use crate::favorites::FavoritesSet;
use crate::library::LibraryEntry;
use crate::text::{
    dec_str, is_substring, lower_of, lowercase, str_contains, u32_to_string,
};

verus! {

/// The text/id query predicate on a sound: the lowercased name contains the
/// lowercased query, or the query is exactly the decimal rendering of the id.
pub open spec fn sound_matches(query: Seq<char>, name: Seq<char>, id: u32) -> bool {
    is_substring(lower_of(query), lower_of(name)) || dec_str(id as nat) == query
}

/// The query predicate as a function of a sound's name and id.
pub open spec fn query_pred(query: Seq<char>) -> spec_fn(Seq<char>, u32) -> bool {
    |name: Seq<char>, id: u32| sound_matches(query, name, id)
}

/// The favorites predicate: membership of the sound's id in the set.
pub open spec fn favorites_pred(favs: Set<u32>) -> spec_fn(Seq<char>, u32) -> bool {
    |name: Seq<char>, id: u32| favs.contains(id)
}

/// `r` is `t` with every visibility flag recomputed against the predicate
/// `p`: nothing else differs. A sound is visible iff it matches `p`; a
/// category is visible iff at least one of its (filtered) children is, so a
/// childless category is invisible.
pub open spec fn filtered(
    p: spec_fn(Seq<char>, u32) -> bool,
    t: LibraryEntry,
    r: LibraryEntry,
) -> bool
    decreases t,
{
    match t {
        LibraryEntry::Sound { id, name, parent_id, bytes, duration, enabled } => {
            r == (LibraryEntry::Sound {
                id,
                name,
                parent_id,
                bytes,
                duration,
                enabled: p(name@, id),
            })
        },
        LibraryEntry::Category { id, name, parent_id, children, enabled } => {
            match r {
                LibraryEntry::Category {
                    id: rid,
                    name: rname,
                    parent_id: rparent_id,
                    children: rchildren,
                    enabled: renabled,
                } => {
                    &&& rid == id
                    &&& rname == name
                    &&& rparent_id == parent_id
                    &&& rchildren@.len() == children@.len()
                    &&& forall|i: int|
                        0 <= i < children@.len() ==> filtered(
                            p,
                            #[trigger] children@[i],
                            rchildren@[i],
                        )
                    &&& renabled == exists|i: int|
                        0 <= i < rchildren@.len() && (#[trigger] rchildren@[i]).spec_enabled()
                },
                LibraryEntry::Sound { .. } => false,
            }
        },
    }
}

/// Some sound in the subtree is visible.
pub open spec fn has_visible_sound(e: LibraryEntry) -> bool
    decreases e,
{
    match e {
        LibraryEntry::Sound { enabled, .. } => enabled,
        LibraryEntry::Category { children, .. } => exists|i: int|
            0 <= i < children@.len() && has_visible_sound(#[trigger] children@[i]),
    }
}

/// Every sound in the subtree is visible.
pub open spec fn all_sounds_visible(e: LibraryEntry) -> bool
    decreases e,
{
    match e {
        LibraryEntry::Sound { enabled, .. } => enabled,
        LibraryEntry::Category { children, .. } => forall|i: int|
            0 <= i < children@.len() ==> all_sounds_visible(#[trigger] children@[i]),
    }
}

/// No node in the subtree is visible.
pub open spec fn all_nodes_invisible(e: LibraryEntry) -> bool
    decreases e,
{
    match e {
        LibraryEntry::Sound { enabled, .. } => !enabled,
        LibraryEntry::Category { children, enabled, .. } => {
            &&& !enabled
            &&& forall|i: int|
                0 <= i < children@.len() ==> all_nodes_invisible(#[trigger] children@[i])
        },
    }
}

/// `p` holds of no sound in the subtree.
pub open spec fn no_sound_matches(p: spec_fn(Seq<char>, u32) -> bool, e: LibraryEntry) -> bool
    decreases e,
{
    match e {
        LibraryEntry::Sound { name, id, .. } => !p(name@, id),
        LibraryEntry::Category { children, .. } => forall|i: int|
            0 <= i < children@.len() ==> no_sound_matches(p, #[trigger] children@[i]),
    }
}

/// Evaluates the text/id query predicate on one sound's name and id.
pub fn query_matches(query: &String, name: &String, id: u32) -> (r: bool)
    ensures
        r == sound_matches(query@, name@, id),
{
    let lq = lowercase(query.as_str());
    let ln = lowercase(name.as_str());
    if str_contains(ln.as_str(), lq.as_str()) {
        true
    } else {
        let ids = u32_to_string(id);
        ids == *query
    }
}

/// Annotates a copy of the tree with visibility under the text/id query.
#[verifier::loop_isolation(false)]
pub fn filter_by_query(query: &String, e: &LibraryEntry) -> (r: LibraryEntry)
    ensures
        filtered(query_pred(query@), *e, r),
    decreases *e,
{
    match e {
        LibraryEntry::Sound { id, name, parent_id, bytes, duration, enabled } => {
            let en = query_matches(query, name, *id);
            let copy = LibraryEntry::Sound {
                id: *id,
                name: name.clone(),
                parent_id: *parent_id,
                bytes: *bytes,
                duration: *duration,
                enabled: en,
            };
            proof {
                assert(query_pred(query@)(name@, *id) == sound_matches(query@, name@, *id));
                assert(filtered(query_pred(query@), *e, copy));
            }
            copy
        },
        LibraryEntry::Category { id, name, parent_id, children, enabled } => {
            let mut new_children: Vec<LibraryEntry> = Vec::new();
            let mut any: bool = false;
            let n = children.len();
            let mut i: usize = 0;
            while i < n
                invariant
                    i <= n,
                    new_children@.len() == i,
                    forall|j: int|
                        0 <= j < i ==> filtered(
                            query_pred(query@),
                            children@[j],
                            #[trigger] new_children@[j],
                        ),
                    any == exists|j: int|
                        0 <= j < i && (#[trigger] new_children@[j]).spec_enabled(),
                decreases n - i,
            {
                let fc = filter_by_query(query, &children[i]);
                let en = fc.is_enabled();
                let ghost prev = new_children@;
                new_children.push(fc);
                proof {
                    assert forall|j: int| 0 <= j < i implies new_children@[j] == prev[j] by {}
                    assert(new_children@[i as int] == fc);
                    if any {
                        let w = choose|j: int|
                            0 <= j < i && (#[trigger] prev[j]).spec_enabled();
                        assert((new_children@[w]).spec_enabled());
                    }
                }
                any = any || en;
                i = i + 1;
            }
            let copy = LibraryEntry::Category {
                id: *id,
                name: name.clone(),
                parent_id: *parent_id,
                children: new_children,
                enabled: any,
            };
            proof {
                let p = query_pred(query@);
                assert(copy->Category_children@.len() == children@.len());
                assert(forall|j: int|
                    0 <= j < children@.len() ==> filtered(
                        p,
                        children@[j],
                        #[trigger] copy->Category_children@[j],
                    ));
                assert(copy->Category_enabled == (exists|i: int|
                    0 <= i < copy->Category_children@.len()
                        && (#[trigger] copy->Category_children@[i]).spec_enabled()));
                assert(copy->Category_name == *name);
                assert(filtered(query_pred(query@), *e, copy));
            }
            copy
        },
    }
}

/// Annotates a copy of the tree with visibility under the favorites
/// predicate.
#[verifier::loop_isolation(false)]
pub fn filter_by_favorites(favs: &FavoritesSet, e: &LibraryEntry) -> (r: LibraryEntry)
    ensures
        filtered(favorites_pred(favs@), *e, r),
    decreases *e,
{
    match e {
        LibraryEntry::Sound { id, name, parent_id, bytes, duration, enabled } => {
            let en = favs.contains(*id);
            let copy = LibraryEntry::Sound {
                id: *id,
                name: name.clone(),
                parent_id: *parent_id,
                bytes: *bytes,
                duration: *duration,
                enabled: en,
            };
            proof {
                assert(favorites_pred(favs@)(name@, *id) == favs@.contains(*id));
                assert(filtered(favorites_pred(favs@), *e, copy));
            }
            copy
        },
        LibraryEntry::Category { id, name, parent_id, children, enabled } => {
            let mut new_children: Vec<LibraryEntry> = Vec::new();
            let mut any: bool = false;
            let n = children.len();
            let mut i: usize = 0;
            while i < n
                invariant
                    i <= n,
                    new_children@.len() == i,
                    forall|j: int|
                        0 <= j < i ==> filtered(
                            favorites_pred(favs@),
                            children@[j],
                            #[trigger] new_children@[j],
                        ),
                    any == exists|j: int|
                        0 <= j < i && (#[trigger] new_children@[j]).spec_enabled(),
                decreases n - i,
            {
                let fc = filter_by_favorites(favs, &children[i]);
                let en = fc.is_enabled();
                let ghost prev = new_children@;
                new_children.push(fc);
                proof {
                    assert forall|j: int| 0 <= j < i implies new_children@[j] == prev[j] by {}
                    assert(new_children@[i as int] == fc);
                    if any {
                        let w = choose|j: int|
                            0 <= j < i && (#[trigger] prev[j]).spec_enabled();
                        assert((new_children@[w]).spec_enabled());
                    }
                }
                any = any || en;
                i = i + 1;
            }
            let copy = LibraryEntry::Category {
                id: *id,
                name: name.clone(),
                parent_id: *parent_id,
                children: new_children,
                enabled: any,
            };
            proof {
                let p = favorites_pred(favs@);
                assert(copy->Category_children@.len() == children@.len());
                assert(forall|j: int|
                    0 <= j < children@.len() ==> filtered(
                        p,
                        children@[j],
                        #[trigger] copy->Category_children@[j],
                    ));
                assert(copy->Category_enabled == (exists|i: int|
                    0 <= i < copy->Category_children@.len()
                        && (#[trigger] copy->Category_children@[i]).spec_enabled()));
                assert(copy->Category_name == *name);
                assert(filtered(favorites_pred(favs@), *e, copy));
            }
            copy
        },
    }
}

/// A filter pass leaves a node visible exactly when some sound below it
/// (or the node itself, for a sound) is visible: a category is visible iff
/// at least one descendant sound is, and a category with all-invisible
/// children is invisible.
pub proof fn lemma_filter_visibility(
    p: spec_fn(Seq<char>, u32) -> bool,
    t: LibraryEntry,
    r: LibraryEntry,
)
    requires
        filtered(p, t, r),
    ensures
        r.spec_enabled() == has_visible_sound(r),
    decreases t,
{
    match t {
        LibraryEntry::Sound { .. } => {
        },
        LibraryEntry::Category { children, .. } => {
            match r {
                LibraryEntry::Category { children: rchildren, enabled: renabled, .. } => {
                    assert forall|i: int| 0 <= i < rchildren@.len() implies (
                    #[trigger] rchildren@[i]).spec_enabled() == has_visible_sound(
                        rchildren@[i],
                    ) by {
                        lemma_filter_visibility(p, children@[i], rchildren@[i]);
                    }
                },
                LibraryEntry::Sound { .. } => {
                },
            }
        },
    }
}

/// An empty query leaves every sound visible. The second premise is what
/// the case folder guarantees of an empty query: its lowercase form is
/// empty too, as every call of `lowercase` shows.
pub proof fn lemma_empty_query_all_visible(q: Seq<char>, t: LibraryEntry, r: LibraryEntry)
    requires
        q.len() == 0,
        lower_of(q).len() == 0,
        filtered(query_pred(q), t, r),
    ensures
        all_sounds_visible(r),
    decreases t,
{
    match t {
        LibraryEntry::Sound { id, name, .. } => {
            assert(lower_of(q) =~= Seq::<char>::empty());
            crate::text::lemma_empty_substring(lower_of(name@));
        },
        LibraryEntry::Category { children, .. } => {
            match r {
                LibraryEntry::Category { children: rchildren, .. } => {
                    assert forall|i: int|
                        0 <= i < rchildren@.len() implies all_sounds_visible(
                        #[trigger] rchildren@[i],
                    ) by {
                        lemma_empty_query_all_visible(q, children@[i], rchildren@[i]);
                    }
                },
                LibraryEntry::Sound { .. } => {
                },
            }
        },
    }
}

/// A predicate that matches no sound of the tree leaves every node
/// invisible, the root category included.
pub proof fn lemma_no_match_all_invisible(
    p: spec_fn(Seq<char>, u32) -> bool,
    t: LibraryEntry,
    r: LibraryEntry,
)
    requires
        filtered(p, t, r),
        no_sound_matches(p, t),
    ensures
        all_nodes_invisible(r),
    decreases t,
{
    match t {
        LibraryEntry::Sound { .. } => {
        },
        LibraryEntry::Category { children, .. } => {
            match r {
                LibraryEntry::Category { children: rchildren, enabled: renabled, .. } => {
                    assert forall|i: int|
                        0 <= i < rchildren@.len() implies all_nodes_invisible(
                        #[trigger] rchildren@[i],
                    ) by {
                        lemma_no_match_all_invisible(p, children@[i], rchildren@[i]);
                    }
                    assert forall|i: int|
                        0 <= i < rchildren@.len() implies !(#[trigger] rchildren@[i]).spec_enabled() by {
                        assert(all_nodes_invisible(rchildren@[i]));
                    }
                },
                LibraryEntry::Sound { .. } => {
                },
            }
        },
    }
}

/// A query equal to the decimal rendering of a sound's id matches that
/// sound, whatever its name.
pub proof fn lemma_id_match_overrides(q: Seq<char>, name: Seq<char>, id: u32)
    requires
        q == dec_str(id as nat),
    ensures
        sound_matches(q, name, id),
{
}

} // verus!
