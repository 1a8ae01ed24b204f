//! The aggregation engine: rolled-up statistics over a subtree, summing the
//! contributions of its sound leaves.

use vstd::prelude::*;

use crate::library::LibraryEntry;

verus! {

/// Rolled-up statistics of a subtree.
#[derive(Debug, Clone, Copy, PartialEq, Eq, Structural)]
pub struct Stats {
    pub bytes: u128,
    pub duration: u128,
    pub files: i64,
}

/// Total file size below `e`: the sum of `bytes` over all sound leaves.
pub open spec fn total_bytes(e: LibraryEntry) -> nat
    decreases e,
{
    match e {
        LibraryEntry::Sound { bytes, .. } => bytes as nat,
        LibraryEntry::Category { children, .. } => total_bytes_seq(children@),
    }
}

pub open spec fn total_bytes_seq(s: Seq<LibraryEntry>) -> nat
    decreases s,
{
    if s.len() == 0 {
        0
    } else {
        total_bytes_seq(s.drop_last()) + total_bytes(s.last())
    }
}

/// Total duration below `e`: the sum of `duration` over all sound leaves.
pub open spec fn total_duration(e: LibraryEntry) -> nat
    decreases e,
{
    match e {
        LibraryEntry::Sound { duration, .. } => duration as nat,
        LibraryEntry::Category { children, .. } => total_duration_seq(children@),
    }
}

pub open spec fn total_duration_seq(s: Seq<LibraryEntry>) -> nat
    decreases s,
{
    if s.len() == 0 {
        0
    } else {
        total_duration_seq(s.drop_last()) + total_duration(s.last())
    }
}

/// File count below `e`. A sound counts as one file. A category with zero
/// children also counts as one: a deliberately preserved quirk of the
/// aggregation, exercised by the statistics display.
pub open spec fn file_count(e: LibraryEntry) -> nat
    decreases e,
{
    match e {
        LibraryEntry::Sound { .. } => 1,
        LibraryEntry::Category { children, .. } => if children@.len() == 0 {
            1
        } else {
            file_count_seq(children@)
        },
    }
}

pub open spec fn file_count_seq(s: Seq<LibraryEntry>) -> nat
    decreases s,
{
    if s.len() == 0 {
        0
    } else {
        file_count_seq(s.drop_last()) + file_count(s.last())
    }
}

/// Extending a prefix of siblings by one adds exactly that sibling's
/// contribution.
proof fn lemma_stats_take_step(s: Seq<LibraryEntry>, i: int)
    requires
        0 <= i < s.len(),
    ensures
        total_bytes_seq(s.take(i + 1)) == total_bytes_seq(s.take(i)) + total_bytes(s[i]),
        total_duration_seq(s.take(i + 1)) == total_duration_seq(s.take(i)) + total_duration(
            s[i],
        ),
        file_count_seq(s.take(i + 1)) == file_count_seq(s.take(i)) + file_count(s[i]),
{
    assert(s.take(i + 1).drop_last() =~= s.take(i));
    assert(s.take(i + 1).last() == s[i]);
}

/// A prefix of siblings never contributes more than the whole list.
proof fn lemma_stats_take_le(s: Seq<LibraryEntry>, i: int)
    requires
        0 <= i <= s.len(),
    ensures
        total_bytes_seq(s.take(i)) <= total_bytes_seq(s),
        total_duration_seq(s.take(i)) <= total_duration_seq(s),
        file_count_seq(s.take(i)) <= file_count_seq(s),
    decreases s.len() - i,
{
    if i < s.len() {
        lemma_stats_take_step(s, i);
        lemma_stats_take_le(s, i + 1);
    } else {
        assert(s.take(i) =~= s);
    }
}

/// Aggregation is additive: the statistics of two sibling lists laid end to
/// end are the elementwise sums of their statistics.
pub proof fn lemma_stats_seq_additive(s1: Seq<LibraryEntry>, s2: Seq<LibraryEntry>)
    ensures
        total_bytes_seq(s1 + s2) == total_bytes_seq(s1) + total_bytes_seq(s2),
        total_duration_seq(s1 + s2) == total_duration_seq(s1) + total_duration_seq(s2),
        file_count_seq(s1 + s2) == file_count_seq(s1) + file_count_seq(s2),
    decreases s2.len(),
{
    if s2.len() == 0 {
        assert(s1 + s2 =~= s1);
    } else {
        assert((s1 + s2).drop_last() =~= s1 + s2.drop_last());
        assert((s1 + s2).last() == s2.last());
        lemma_stats_seq_additive(s1, s2.drop_last());
    }
}

/// A nonempty category's statistics are the sums over its children; a
/// single sound leaf contributes exactly its own size, duration and one
/// file.
pub proof fn lemma_category_additive(e: LibraryEntry)
    ensures
        e is Category && e->Category_children@.len() > 0 ==> {
            &&& total_bytes(e) == total_bytes_seq(e->Category_children@)
            &&& total_duration(e) == total_duration_seq(e->Category_children@)
            &&& file_count(e) == file_count_seq(e->Category_children@)
        },
        e is Sound ==> {
            &&& total_bytes(e) == e.spec_bytes()
            &&& total_duration(e) == e.spec_duration()
            &&& file_count(e) == 1
        },
{
}

/// Computes the rolled-up statistics of a subtree.
#[verifier::loop_isolation(false)]
pub fn collect_stats(e: &LibraryEntry) -> (s: Stats)
    requires
        total_bytes(*e) <= u128::MAX,
        total_duration(*e) <= u128::MAX,
        file_count(*e) <= i64::MAX,
    ensures
        s.bytes == total_bytes(*e),
        s.duration == total_duration(*e),
        s.files == file_count(*e),
    decreases *e,
{
    match e {
        LibraryEntry::Sound { bytes, duration, .. } => Stats {
            bytes: *bytes as u128,
            duration: *duration as u128,
            files: 1,
        },
        LibraryEntry::Category { children, .. } => {
            let n = children.len();
            let mut bytes: u128 = 0;
            let mut duration: u128 = 0;
            let mut files: i64 = 0;
            let mut i: usize = 0;
            while i < n
                invariant
                    i <= n,
                    bytes == total_bytes_seq(children@.take(i as int)),
                    duration == total_duration_seq(children@.take(i as int)),
                    files == file_count_seq(children@.take(i as int)),
                decreases n - i,
            {
                proof {
                    lemma_stats_take_le(children@, i as int);
                    lemma_stats_take_le(children@, i + 1);
                    lemma_stats_take_step(children@, i as int);
                }
                let cs = collect_stats(&children[i]);
                bytes = bytes + cs.bytes;
                duration = duration + cs.duration;
                files = files + cs.files;
                i = i + 1;
            }
            proof {
                assert(children@.take(n as int) =~= children@);
            }
            if n == 0 {
                files = 1;
            }
            Stats { bytes, duration, files }
        },
    }
}

} // verus!
