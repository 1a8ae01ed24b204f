use gdsfx::favorites::FavoritesSet;
use gdsfx::filter::filter_by_query;
use gdsfx::library::LibraryEntry;
use gdsfx::search::Sorting;
use gdsfx::state::{filter_sounds, GdSfx, Stage};
use gdsfx::stats::collect_stats;

fn sound(id: u32, name: &str, parent_id: u32, bytes: u64, duration: u64) -> LibraryEntry {
    LibraryEntry::Sound {
        id,
        name: String::from(name),
        parent_id,
        bytes,
        duration,
        enabled: true,
    }
}

fn category(id: u32, name: &str, parent_id: u32, children: Vec<LibraryEntry>) -> LibraryEntry {
    LibraryEntry::Category {
        id,
        name: String::from(name),
        parent_id,
        children,
        enabled: true,
    }
}

fn children_of(e: &LibraryEntry) -> &Vec<LibraryEntry> {
    match e {
        LibraryEntry::Category { children, .. } => children,
        LibraryEntry::Sound { .. } => panic!("expected a category"),
    }
}

fn ids_of(entries: &[LibraryEntry]) -> Vec<u32> {
    entries.iter().map(|e| e.id()).collect()
}

fn state_with_query(query: &str) -> GdSfx {
    let mut gdsfx = GdSfx::default();
    gdsfx.search_query = String::from(query);
    gdsfx
}

#[test]
fn sort_size_ascending_example() {
    // A(id=1,size=500), B(id=2,size=100): ascending size puts B first
    let mut v = vec![sound(1, "A", 0, 500, 10), sound(2, "B", 0, 100, 20)];
    Sorting::SizeInc.sort_entries(&mut v);
    assert_eq!(ids_of(&v), vec![2, 1]);
}

#[test]
fn sort_size_descending_example() {
    let mut v = vec![sound(1, "A", 0, 500, 10), sound(2, "B", 0, 100, 20)];
    Sorting::SizeDec.sort_entries(&mut v);
    assert_eq!(ids_of(&v), vec![1, 2]);
}

#[test]
fn sort_id_ascending_example() {
    let mut v = vec![sound(2, "B", 0, 100, 20), sound(1, "A", 0, 500, 10)];
    Sorting::IdInc.sort_entries(&mut v);
    assert_eq!(ids_of(&v), vec![1, 2]);
}

#[test]
fn sort_by_name_both_directions() {
    let mut v = vec![
        sound(1, "cymbal", 0, 10, 1),
        sound(2, "anvil", 0, 20, 2),
        sound(3, "bell", 0, 30, 3),
    ];
    Sorting::NameInc.sort_entries(&mut v);
    assert_eq!(ids_of(&v), vec![2, 3, 1]);
    Sorting::NameDec.sort_entries(&mut v);
    assert_eq!(ids_of(&v), vec![1, 3, 2]);
}

#[test]
fn sort_by_length() {
    let mut v = vec![sound(1, "a", 0, 1, 300), sound(2, "b", 0, 2, 100)];
    Sorting::LengthInc.sort_entries(&mut v);
    assert_eq!(ids_of(&v), vec![2, 1]);
    Sorting::LengthDec.sort_entries(&mut v);
    assert_eq!(ids_of(&v), vec![1, 2]);
}

#[test]
fn sort_is_idempotent_and_keeps_categories_first() {
    // for any key: categories precede sounds, and sorting twice changes nothing
    let keys = [
        Sorting::Default,
        Sorting::NameInc,
        Sorting::NameDec,
        Sorting::LengthInc,
        Sorting::LengthDec,
        Sorting::IdInc,
        Sorting::IdDec,
        Sorting::SizeInc,
        Sorting::SizeDec,
    ];
    for key in keys {
        let mut v = vec![
            sound(10, "zulu", 0, 500, 40),
            category(3, "brass", 0, vec![]),
            sound(11, "alpha", 0, 100, 90),
            category(2, "drums", 0, vec![]),
            sound(12, "alpha", 0, 100, 90),
        ];
        key.sort_entries(&mut v);
        let first = ids_of(&v);
        assert!(v[0].is_category() && v[1].is_category());
        assert!(!v[2].is_category() && !v[3].is_category() && !v[4].is_category());
        key.sort_entries(&mut v);
        assert_eq!(ids_of(&v), first);
    }
}

#[test]
fn default_sort_is_stable() {
    let mut v = vec![
        sound(5, "e", 0, 1, 1),
        sound(4, "d", 0, 1, 1),
        sound(6, "f", 0, 1, 1),
    ];
    Sorting::Default.sort_entries(&mut v);
    assert_eq!(ids_of(&v), vec![5, 4, 6]);
}

#[test]
fn equal_keys_keep_incoming_order() {
    // both sounds have the same size: the earlier one stays first
    let mut v = vec![sound(9, "late", 0, 100, 1), sound(8, "early", 0, 100, 2)];
    Sorting::SizeInc.sort_entries(&mut v);
    assert_eq!(ids_of(&v), vec![9, 8]);
}

#[test]
fn empty_sibling_list_sorts_to_empty() {
    let mut v: Vec<LibraryEntry> = vec![];
    Sorting::NameInc.sort_entries(&mut v);
    assert!(v.is_empty());
}

#[test]
fn query_matches_case_folded_name() {
    let gdsfx = state_with_query("boom");
    assert!(gdsfx.matches_query(&sound(1, "Big BOOM", 0, 1, 1)));
    assert!(!gdsfx.matches_query(&sound(2, "Click", 0, 1, 1)));
}

#[test]
fn query_matches_id_even_when_name_differs() {
    // a query equal to the sound's id matches although the name does not
    let gdsfx = state_with_query("42");
    assert!(gdsfx.matches_query(&sound(42, "Explosion", 0, 1, 1)));
    assert!(!gdsfx.matches_query(&sound(43, "Explosion", 0, 1, 1)));
}

#[test]
fn empty_query_matches_everything() {
    let gdsfx = state_with_query("");
    let mut tree = category(
        1,
        "root",
        0,
        vec![sound(10, "a", 1, 1, 1), sound(11, "b", 1, 1, 1)],
    );
    filter_sounds(&gdsfx, &mut tree);
    assert!(tree.is_enabled());
    for child in children_of(&tree) {
        assert!(child.is_enabled());
    }
}

#[test]
fn unmatched_query_hides_everything() {
    let gdsfx = state_with_query("no such sound");
    let mut tree = category(
        1,
        "root",
        0,
        vec![
            sound(10, "a", 1, 1, 1),
            category(2, "inner", 1, vec![sound(11, "b", 2, 1, 1)]),
        ],
    );
    filter_sounds(&gdsfx, &mut tree);
    assert!(!tree.is_enabled());
    for child in children_of(&tree) {
        assert!(!child.is_enabled());
    }
}

#[test]
fn category_visible_iff_some_descendant_matches() {
    let gdsfx = state_with_query("bell");
    let mut tree = category(
        1,
        "root",
        0,
        vec![
            category(2, "hit", 1, vec![sound(10, "bell toll", 2, 1, 1)]),
            category(3, "miss", 1, vec![sound(11, "drum", 3, 1, 1)]),
            category(4, "empty", 1, vec![]),
        ],
    );
    filter_sounds(&gdsfx, &mut tree);
    assert!(tree.is_enabled());
    let kids = children_of(&tree);
    assert!(kids[0].is_enabled());
    assert!(!kids[1].is_enabled());
    // a category with no children is never visible
    assert!(!kids[2].is_enabled());
}

#[test]
fn filter_leaves_the_source_tree_untouched() {
    let query = String::from("zzz");
    let tree = category(1, "root", 0, vec![sound(10, "a", 1, 1, 1)]);
    let filtered = filter_by_query(&query, &tree);
    assert!(!filtered.is_enabled());
    // the input tree keeps the flags it had before the pass
    assert!(tree.is_enabled());
    assert!(children_of(&tree)[0].is_enabled());
}

#[test]
fn stats_of_single_sound() {
    let s = sound(1, "a", 0, 1000, 500);
    let st = collect_stats(&s);
    assert_eq!(st.bytes, 1000);
    assert_eq!(st.duration, 500);
    assert_eq!(st.files, 1);
}

#[test]
fn stats_add_up_over_children() {
    let tree = category(
        1,
        "root",
        0,
        vec![
            sound(10, "a", 1, 1000, 500),
            category(2, "inner", 1, vec![sound(11, "b", 2, 200, 100)]),
        ],
    );
    let whole = collect_stats(&tree);
    let first = collect_stats(&children_of(&tree)[0]);
    let second = collect_stats(&children_of(&tree)[1]);
    assert_eq!(whole.bytes, first.bytes + second.bytes);
    assert_eq!(whole.duration, first.duration + second.duration);
    assert_eq!(whole.files, first.files + second.files);
    assert_eq!(whole.bytes, 1200);
    assert_eq!(whole.duration, 600);
    assert_eq!(whole.files, 2);
}

#[test]
fn empty_category_counts_as_one_file() {
    // deliberately preserved quirk: an empty category reports one file,
    // zero bytes and zero duration
    let empty = category(7, "empty", 0, vec![]);
    let st = collect_stats(&empty);
    assert_eq!(st.files, 1);
    assert_eq!(st.bytes, 0);
    assert_eq!(st.duration, 0);
}

#[test]
fn favorites_round_trip() {
    let mut favs = FavoritesSet::new();
    assert!(!favs.contains(4451));
    favs.add(4451);
    assert!(favs.contains(4451));
    favs.add(4451);
    assert_eq!(favs.ids().len(), 1);
    favs.remove(4451);
    assert!(!favs.contains(4451));
    favs.remove(4451);
    assert!(favs.ids().is_empty());
}

#[test]
fn favorites_filter_reflects_current_set() {
    let tree = category(
        1,
        "root",
        0,
        vec![sound(10, "a", 1, 1, 1), sound(11, "b", 1, 1, 1)],
    );
    let mut favs = FavoritesSet::new();
    favs.add(11);
    let marked = gdsfx::filter::filter_by_favorites(&favs, &tree);
    let kids = children_of(&marked);
    assert!(!kids[0].is_enabled());
    assert!(kids[1].is_enabled());
    favs.remove(11);
    let marked = gdsfx::filter::filter_by_favorites(&favs, &tree);
    assert!(!marked.is_enabled());
}

#[test]
fn favourite_sounds_lists_in_tree_order() {
    let tree = category(
        1,
        "root",
        0,
        vec![
            category(2, "inner", 1, vec![sound(11, "b", 2, 1, 1)]),
            sound(10, "a", 1, 1, 1),
            sound(12, "c", 1, 1, 1),
        ],
    );
    let mut favs = FavoritesSet::new();
    favs.add(12);
    favs.add(11);
    let listed = gdsfx::favorites::favourite_sounds(&favs, &tree);
    assert_eq!(ids_of(&listed), vec![11, 12]);
}

#[test]
fn end_to_end_scenario() {
    // Root -> [CategoryA -> [Boom(id=1), Click(id=2)]]
    let tree = category(
        100,
        "Root",
        0,
        vec![category(
            101,
            "CategoryA",
            100,
            vec![
                sound(1, "Boom", 101, 1000, 500),
                sound(2, "Click", 101, 200, 100),
            ],
        )],
    );

    let mut gdsfx = GdSfx::default();
    assert_eq!(gdsfx.stage, Stage::Library);
    gdsfx.search_query = String::from("boom");

    let mut view = filter_by_query(&gdsfx.search_query, &tree);
    assert!(view.is_enabled());
    let category_a = &children_of(&view)[0];
    assert!(category_a.is_enabled());
    assert!(children_of(category_a)[0].is_enabled());
    assert!(!children_of(category_a)[1].is_enabled());

    match &mut view {
        LibraryEntry::Category { children, .. } => match &mut children[0] {
            LibraryEntry::Category { children, .. } => {
                Sorting::SizeDec.sort_entries(children);
                assert_eq!(ids_of(children), vec![1, 2]);
            }
            LibraryEntry::Sound { .. } => panic!("expected a category"),
        },
        LibraryEntry::Sound { .. } => panic!("expected a category"),
    }

    let st = collect_stats(&tree);
    assert_eq!(st.bytes, 1200);
    assert_eq!(st.duration, 600);
    assert_eq!(st.files, 2);
}

#[test]
fn query_matches_unicode_case_fold() {
    // U+00C9 (capital E acute) lowercases to U+00E9
    let gdsfx = state_with_query("\u{c9}clat");
    assert!(gdsfx.matches_query(&sound(1, "\u{e9}clat doux", 0, 1, 1)));
    assert!(!gdsfx.matches_query(&sound(2, "eclat doux", 0, 1, 1)));
}
