//! The sort engine: a deterministic multi-key order on sibling entries.
//! Categories always sort before sounds; the selected key then orders
//! entries of the same kind. The sort is stable: entries the comparator
//! ties are kept in their incoming order, and sorting a sorted list leaves
//! it unchanged.

use vstd::prelude::*;
use vstd::seq_lib::lemma_multiset_commutative;

use crate::library::LibraryEntry;
use crate::text::{lemma_lex_total, lemma_lex_trans, lex_le, lex_le_exec};

verus! {

/// The sort key selected by the user.
#[derive(Debug, Default, Clone, Copy, PartialEq, Eq, Structural)]
pub enum Sorting {
    #[default]
    Default,
    NameInc,
    NameDec,
    LengthInc,
    LengthDec,
    IdInc,
    IdDec,
    SizeInc,
    SizeDec,
}

/// The search state a browsing screen holds: current query, sort key, and
/// whether only downloaded sounds are shown.
#[derive(Debug)]
pub struct SearchSettings {
    pub search_query: String,
    pub sorting_mode: Sorting,
    pub show_downloaded: bool,
}

impl Default for SearchSettings {
    fn default() -> (r: SearchSettings)
        ensures
            r.search_query@ == Seq::<char>::empty(),
            r.sorting_mode == Sorting::Default,
            !r.show_downloaded,
    {
        SearchSettings {
            search_query: String::new(),
            sorting_mode: Sorting::Default,
            show_downloaded: false,
        }
    }
}

/// Categories rank before sounds, whatever the key.
pub open spec fn cat_rank(e: LibraryEntry) -> int {
    if e is Category {
        0
    } else {
        1
    }
}

/// The secondary order selected by the key, among entries of the same kind.
/// Length and size read a category as 0.
pub open spec fn key_le(k: Sorting, a: LibraryEntry, b: LibraryEntry) -> bool {
    match k {
        Sorting::Default => true,
        Sorting::NameInc => lex_le(a.spec_name(), b.spec_name()),
        Sorting::NameDec => lex_le(b.spec_name(), a.spec_name()),
        Sorting::LengthInc => a.spec_duration() <= b.spec_duration(),
        Sorting::LengthDec => b.spec_duration() <= a.spec_duration(),
        Sorting::IdInc => a.spec_id() <= b.spec_id(),
        Sorting::IdDec => b.spec_id() <= a.spec_id(),
        Sorting::SizeInc => a.spec_bytes() <= b.spec_bytes(),
        Sorting::SizeDec => b.spec_bytes() <= a.spec_bytes(),
    }
}

/// The whole comparator: `a` sorts at or before `b` under key `k`.
pub open spec fn entry_le(k: Sorting, a: LibraryEntry, b: LibraryEntry) -> bool {
    cat_rank(a) < cat_rank(b) || (cat_rank(a) == cat_rank(b) && key_le(k, a, b))
}

pub proof fn lemma_entry_le_refl(k: Sorting, a: LibraryEntry)
    ensures
        entry_le(k, a, a),
{
    lemma_lex_total(a.spec_name(), a.spec_name());
}

/// The comparator is total: two entries always compare in one direction or
/// the other, so sorting never meets an undecided pair.
pub proof fn lemma_entry_le_total(k: Sorting, a: LibraryEntry, b: LibraryEntry)
    ensures
        entry_le(k, a, b) || entry_le(k, b, a),
{
    lemma_lex_total(a.spec_name(), b.spec_name());
}

pub proof fn lemma_entry_le_trans(k: Sorting, a: LibraryEntry, b: LibraryEntry, c: LibraryEntry)
    requires
        entry_le(k, a, b),
        entry_le(k, b, c),
    ensures
        entry_le(k, a, c),
{
    if cat_rank(a) == cat_rank(b) && cat_rank(b) == cat_rank(c) {
        match k {
            Sorting::NameInc => lemma_lex_trans(a.spec_name(), b.spec_name(), c.spec_name()),
            Sorting::NameDec => lemma_lex_trans(c.spec_name(), b.spec_name(), a.spec_name()),
            _ => {
            },
        }
    }
}

/// Each entry sorts at or before the next.
pub open spec fn sorted(k: Sorting, s: Seq<LibraryEntry>) -> bool {
    forall|i: int| 0 <= i < s.len() - 1 ==> entry_le(k, #[trigger] s[i], s[i + 1])
}

/// Stable insertion of `x` into `s`: `x` lands before the first entry it
/// sorts at or before, and so after every entry that ties with it.
pub open spec fn insort(k: Sorting, x: LibraryEntry, s: Seq<LibraryEntry>) -> Seq<LibraryEntry>
    decreases s.len(),
{
    if s.len() == 0 {
        seq![x]
    } else if entry_le(k, x, s[0]) {
        seq![x] + s
    } else {
        seq![s[0]] + insort(k, x, s.drop_first())
    }
}

/// Stable insertion sort of a sibling list under key `k`.
pub open spec fn sort_seq(k: Sorting, s: Seq<LibraryEntry>) -> Seq<LibraryEntry>
    decreases s.len(),
{
    if s.len() == 0 {
        s
    } else {
        insort(k, s[0], sort_seq(k, s.drop_first()))
    }
}

proof fn lemma_insort_len(k: Sorting, x: LibraryEntry, s: Seq<LibraryEntry>)
    ensures
        insort(k, x, s).len() == s.len() + 1,
    decreases s.len(),
{
    if s.len() != 0 && !entry_le(k, x, s[0]) {
        lemma_insort_len(k, x, s.drop_first());
    }
}

proof fn lemma_insort_sorted(k: Sorting, x: LibraryEntry, s: Seq<LibraryEntry>)
    requires
        sorted(k, s),
    ensures
        sorted(k, insort(k, x, s)),
    decreases s.len(),
{
    if s.len() == 0 {
    } else if entry_le(k, x, s[0]) {
        let r = seq![x] + s;
        assert forall|i: int| 0 <= i < r.len() - 1 implies entry_le(k, #[trigger] r[i], r[i + 1]) by {
            if i == 0 {
            } else {
                assert(r[i] == s[i - 1] && r[i + 1] == s[i]);
                assert(entry_le(k, s[i - 1], s[i]));
            }
        }
    } else {
        lemma_entry_le_total(k, x, s[0]);
        let rest = s.drop_first();
        assert forall|i: int| 0 <= i < rest.len() - 1 implies entry_le(k, #[trigger] rest[i], rest[i + 1]) by {
            assert(entry_le(k, s[i + 1], s[i + 2]));
        }
        lemma_insort_sorted(k, x, rest);
        lemma_insort_len(k, x, rest);
        let t = insort(k, x, rest);
        let r = seq![s[0]] + t;
        // the head of the inserted tail is either x or the old second entry
        assert(entry_le(k, s[0], t[0])) by {
            if rest.len() == 0 || entry_le(k, x, rest[0]) {
                assert(t[0] == x);
            } else {
                assert(t[0] == rest[0]);
                assert(entry_le(k, s[0], s[1]));
            }
        }
        assert forall|i: int| 0 <= i < r.len() - 1 implies entry_le(k, #[trigger] r[i], r[i + 1]) by {
            if i == 0 {
            } else {
                assert(r[i] == t[i - 1] && r[i + 1] == t[i]);
                assert(entry_le(k, t[i - 1], t[i]));
            }
        }
    }
}

proof fn lemma_cons_multiset(x: LibraryEntry, s: Seq<LibraryEntry>)
    ensures
        (seq![x] + s).to_multiset() == s.to_multiset().insert(x),
{
    broadcast use vstd::seq_lib::group_to_multiset_ensures;

    lemma_multiset_commutative(seq![x], s);
    assert(s + seq![x] =~= s.push(x));
    assert((seq![x] + s).to_multiset() =~= s.to_multiset().insert(x));
}

proof fn lemma_insort_multiset(k: Sorting, x: LibraryEntry, s: Seq<LibraryEntry>)
    ensures
        insort(k, x, s).to_multiset() == s.to_multiset().insert(x),
    decreases s.len(),
{
    if s.len() == 0 {
        lemma_cons_multiset(x, s);
        assert(seq![x] + s =~= seq![x]);
    } else if entry_le(k, x, s[0]) {
        lemma_cons_multiset(x, s);
    } else {
        let rest = s.drop_first();
        lemma_insort_multiset(k, x, rest);
        lemma_cons_multiset(s[0], insort(k, x, rest));
        lemma_cons_multiset(s[0], rest);
        assert(seq![s[0]] + rest =~= s);
        assert(rest.to_multiset().insert(x).insert(s[0]) =~= rest.to_multiset().insert(
            s[0],
        ).insert(x));
    }
}

/// Sorting permutes the siblings: no entry appears or disappears.
pub proof fn lemma_sort_multiset(k: Sorting, s: Seq<LibraryEntry>)
    ensures
        sort_seq(k, s).to_multiset() == s.to_multiset(),
        sort_seq(k, s).len() == s.len(),
    decreases s.len(),
{
    broadcast use vstd::seq_lib::group_to_multiset_ensures;

    if s.len() != 0 {
        let rest = s.drop_first();
        lemma_sort_multiset(k, rest);
        lemma_insort_multiset(k, s[0], sort_seq(k, rest));
        lemma_insort_len(k, s[0], sort_seq(k, rest));
        lemma_cons_multiset(s[0], rest);
        assert(seq![s[0]] + rest =~= s);
    }
}

/// Sorting sorts: the result is ordered by the comparator.
pub proof fn lemma_sort_sorted(k: Sorting, s: Seq<LibraryEntry>)
    ensures
        sorted(k, sort_seq(k, s)),
    decreases s.len(),
{
    if s.len() != 0 {
        lemma_sort_sorted(k, s.drop_first());
        lemma_insort_sorted(k, s[0], sort_seq(k, s.drop_first()));
    }
}

/// Sorting an already ordered list changes nothing: the sort is stable.
pub proof fn lemma_sorted_sort_id(k: Sorting, s: Seq<LibraryEntry>)
    requires
        sorted(k, s),
    ensures
        sort_seq(k, s) == s,
    decreases s.len(),
{
    if s.len() != 0 {
        let rest = s.drop_first();
        assert forall|i: int| 0 <= i < rest.len() - 1 implies entry_le(k, #[trigger] rest[i], rest[i + 1]) by {
            assert(entry_le(k, s[i + 1], s[i + 2]));
        }
        lemma_sorted_sort_id(k, rest);
        if rest.len() == 0 {
            assert(seq![s[0]] =~= s);
        } else {
            assert(entry_le(k, s[0], rest[0]));
            assert(seq![s[0]] + rest =~= s);
        }
    }
}

/// Applying the sort twice yields the same order as applying it once.
pub proof fn lemma_sort_idempotent(k: Sorting, s: Seq<LibraryEntry>)
    ensures
        sort_seq(k, sort_seq(k, s)) == sort_seq(k, s),
{
    lemma_sort_sorted(k, s);
    lemma_sorted_sort_id(k, sort_seq(k, s));
}

proof fn lemma_sorted_span(k: Sorting, s: Seq<LibraryEntry>, i: int, j: int)
    requires
        sorted(k, s),
        0 <= i <= j < s.len(),
    ensures
        entry_le(k, s[i], s[j]),
    decreases j - i,
{
    if i == j {
        lemma_entry_le_refl(k, s[i]);
    } else {
        lemma_sorted_span(k, s, i, j - 1);
        assert(entry_le(k, s[j - 1], s[j]));
        lemma_entry_le_trans(k, s[i], s[j - 1], s[j]);
    }
}

/// In a sorted sibling list every category precedes every sound, whatever
/// the key.
pub proof fn lemma_sorted_categories_first(k: Sorting, s: Seq<LibraryEntry>)
    requires
        sorted(k, s),
    ensures
        forall|i: int, j: int|
            0 <= i <= j < s.len() && #[trigger] s[j] is Category ==> #[trigger] s[i] is Category,
{
    assert forall|i: int, j: int|
        0 <= i <= j < s.len() && #[trigger] s[j] is Category implies #[trigger] s[i] is Category by {
        lemma_sorted_span(k, s, i, j);
    }
}

/// Inserting at the position found by a scan for the first entry `x` sorts
/// at or before is exactly the stable insertion.
proof fn lemma_insort_at(k: Sorting, x: LibraryEntry, s: Seq<LibraryEntry>, j: int)
    requires
        0 <= j <= s.len(),
        forall|m: int| 0 <= m < j ==> !entry_le(k, x, #[trigger] s[m]),
        j < s.len() ==> entry_le(k, x, s[j]),
    ensures
        insort(k, x, s) == s.insert(j, x),
    decreases j,
{
    if j == 0 {
        if s.len() == 0 {
            assert(seq![x] =~= s.insert(0, x));
        } else {
            assert(seq![x] + s =~= s.insert(0, x));
        }
    } else {
        let rest = s.drop_first();
        assert(!entry_le(k, x, s[0]));
        assert forall|m: int| 0 <= m < j - 1 implies !entry_le(k, x, #[trigger] rest[m]) by {
            assert(rest[m] == s[m + 1]);
        }
        assert(j - 1 < rest.len() ==> entry_le(k, x, rest[j - 1]));
        lemma_insort_at(k, x, rest, j - 1);
        assert(seq![s[0]] + rest.insert(j - 1, x) =~= s.insert(j, x));
    }
}

impl Sorting {
    /// The comparator, executably: does `a` sort at or before `b`?
    pub fn le_entries(&self, a: &LibraryEntry, b: &LibraryEntry) -> (r: bool)
        ensures
            r == entry_le(*self, *a, *b),
    {
        let ac = a.is_category();
        let bc = b.is_category();
        if ac != bc {
            ac
        } else {
            match self {
                Sorting::Default => true,
                Sorting::NameInc => lex_le_exec(a.name().as_str(), b.name().as_str()),
                Sorting::NameDec => lex_le_exec(b.name().as_str(), a.name().as_str()),
                Sorting::LengthInc => a.duration() <= b.duration(),
                Sorting::LengthDec => b.duration() <= a.duration(),
                Sorting::IdInc => a.id() <= b.id(),
                Sorting::IdDec => b.id() <= a.id(),
                Sorting::SizeInc => a.bytes() <= b.bytes(),
                Sorting::SizeDec => b.bytes() <= a.bytes(),
            }
        }
    }

    /// Stably inserts `x` into the already sorted `acc`.
    #[verifier::loop_isolation(false)]
    fn insert_sorted(&self, x: LibraryEntry, acc: &mut Vec<LibraryEntry>)
        ensures
            final(acc)@ == insort(*self, x, old(acc)@),
    {
        let mut j: usize = 0;
        while j < acc.len() && !self.le_entries(&x, &acc[j])
            invariant
                j <= acc@.len(),
                forall|m: int| 0 <= m < j ==> !entry_le(*self, x, #[trigger] acc@[m]),
            decreases acc@.len() - j,
        {
            j = j + 1;
        }
        proof {
            lemma_insort_at(*self, x, acc@, j as int);
        }
        acc.insert(j, x);
    }

    /// Sorts a sibling list: categories first, then by the selected key,
    /// stably.
    #[verifier::loop_isolation(false)]
    pub fn sort_entries(&self, entries: &mut Vec<LibraryEntry>)
        ensures
            final(entries)@ == sort_seq(*self, old(entries)@),
            sorted(*self, final(entries)@),
    {
        let ghost orig = old(entries)@;
        let mut acc: Vec<LibraryEntry> = Vec::new();
        proof {
            assert(orig.skip(orig.len() as int) =~= Seq::<LibraryEntry>::empty());
            assert(orig.take(orig.len() as int) =~= orig);
        }
        while entries.len() > 0
            invariant
                entries@.len() <= orig.len(),
                entries@ == orig.take(entries@.len() as int),
                acc@ == sort_seq(*self, orig.skip(entries@.len() as int)),
            decreases entries@.len(),
        {
            let ghost m = entries@.len() as int - 1;
            let x = entries.pop().unwrap();
            proof {
                assert(0 <= m < orig.len());
                assert(x == orig.take(m + 1).last());
                assert(orig.take(m + 1).last() == orig[m]);
                assert(orig.take(m + 1).drop_last() =~= orig.take(m));
                assert(orig.skip(m).len() == orig.len() - m);
                assert(orig.skip(m)[0] == orig[m]);
                assert(orig.skip(m).drop_first() =~= orig.skip(m + 1));
            }
            self.insert_sorted(x, &mut acc);
            proof {
                assert(acc@ == insort(*self, orig[m], sort_seq(*self, orig.skip(m + 1))));
                assert(sort_seq(*self, orig.skip(m)) == insort(
                    *self,
                    orig.skip(m)[0],
                    sort_seq(*self, orig.skip(m).drop_first()),
                ));
            }
        }
        proof {
            assert(orig.skip(0) =~= orig);
        }
        *entries = acc;
        proof {
            lemma_sort_sorted(*self, orig);
        }
    }
}

} // verus!
