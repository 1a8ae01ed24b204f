//! The favorites set: sound ids marked by the user, queried by the filter
//! engine and mutated by user action. Persistence lives outside the core.

use vstd::prelude::*;

use crate::library::LibraryEntry;

verus! {

/// A set of sound ids. Internally an unordered list without duplicates, so
/// that membership, insertion, removal and enumeration are all simple scans.
#[derive(Debug)]
pub struct FavoritesSet {
    ids: Vec<u32>,
}

impl FavoritesSet {
    /// The abstract contents: the set of ids.
    pub closed spec fn view(&self) -> Set<u32> {
        self.ids@.to_set()
    }

    /// The internal list holds no id twice.
    pub closed spec fn wf(&self) -> bool {
        forall|i: int, j: int|
            0 <= i < j < self.ids@.len() ==> self.ids@[i] != self.ids@[j]
    }

    pub fn new() -> (r: FavoritesSet)
        ensures
            r.wf(),
            r@ == Set::<u32>::empty(),
    {
        let r = FavoritesSet { ids: Vec::new() };
        proof {
            assert(r@ =~= Set::<u32>::empty());
        }
        r
    }

    pub fn contains(&self, id: u32) -> (r: bool)
        ensures
            r == self@.contains(id),
    {
        let mut i: usize = 0;
        while i < self.ids.len()
            invariant
                i <= self.ids@.len(),
                forall|j: int| 0 <= j < i ==> self.ids@[j] != id,
            decreases self.ids@.len() - i,
        {
            if self.ids[i] == id {
                return true;
            }
            i = i + 1;
        }
        false
    }

    /// Adds an id; a second add of the same id changes nothing.
    pub fn add(&mut self, id: u32)
        requires
            old(self).wf(),
        ensures
            final(self).wf(),
            final(self)@ == old(self)@.insert(id),
    {
        if !self.contains(id) {
            self.ids.push(id);
            proof {
                let so = old(self).ids@;
                let sn = self.ids@;
                assert forall|a: u32| #[trigger] sn.contains(a) implies old(self)@.insert(
                    id,
                ).contains(a) by {
                    let k = choose|k: int| 0 <= k < sn.len() && sn[k] == a;
                    if k < so.len() {
                        assert(so[k] == a);
                    }
                }
                assert forall|a: u32| old(self)@.insert(id).contains(a) implies #[trigger] sn.contains(
                    a,
                ) by {
                    if a == id {
                        assert(sn[sn.len() - 1] == a);
                    } else {
                        let k = choose|k: int| 0 <= k < so.len() && so[k] == a;
                        assert(sn[k] == a);
                    }
                }
            }
        } else {
            proof {
                assert(old(self)@.contains(id));
            }
        }
        proof {
            assert(self@ =~= old(self)@.insert(id));
        }
    }

    /// Removes an id; removing an absent id changes nothing.
    pub fn remove(&mut self, id: u32)
        requires
            old(self).wf(),
        ensures
            final(self).wf(),
            final(self)@ == old(self)@.remove(id),
    {
        let mut i: usize = 0;
        while i < self.ids.len()
            invariant
                self.wf(),
                i <= self.ids@.len(),
                self.ids == old(self).ids,
                forall|j: int| 0 <= j < i ==> self.ids@[j] != id,
            decreases self.ids@.len() - i,
        {
            if self.ids[i] == id {
                self.ids.remove(i);
                proof {
                    let so = old(self).ids@;
                    let sn = self.ids@;
                    assert forall|a: u32| #[trigger] sn.contains(a) implies old(self)@.remove(
                        id,
                    ).contains(a) by {
                        let k = choose|k: int| 0 <= k < sn.len() && sn[k] == a;
                        if k < i {
                            assert(so[k] == a);
                        } else {
                            assert(so[k + 1] == a);
                        }
                    }
                    assert forall|a: u32| old(self)@.remove(id).contains(a) implies #[trigger] sn.contains(
                        a,
                    ) by {
                        let k = choose|k: int| 0 <= k < so.len() && so[k] == a;
                        if k < i {
                            assert(sn[k] == a);
                        } else {
                            assert(k != i);
                            assert(sn[k - 1] == a);
                        }
                    }
                    assert(self@ =~= old(self)@.remove(id));
                    assert forall|p: int, q: int|
                        0 <= p < q < sn.len() implies sn[p] != sn[q] by {
                        if q < i {
                        } else if p < i {
                            assert(so[p] == sn[p] && so[q + 1] == sn[q]);
                        } else {
                            assert(so[p + 1] == sn[p] && so[q + 1] == sn[q]);
                        }
                    }
                }
                return ;
            }
            i = i + 1;
        }
        proof {
            assert(self@ =~= old(self)@.remove(id));
        }
    }

    /// The ids for bulk display, each exactly once.
    pub fn ids(&self) -> (r: &Vec<u32>)
        requires
            self.wf(),
        ensures
            r@.to_set() == self@,
            forall|i: int, j: int| 0 <= i < j < r@.len() ==> r@[i] != r@[j],
    {
        &self.ids
    }
}

/// Round trip of the favorites set: after an add the id is a member, after
/// a remove it is not, whatever the set held before.
pub proof fn lemma_favorites_round_trip(s: Set<u32>, id: u32)
    ensures
        s.insert(id).contains(id),
        !s.remove(id).contains(id),
{
}

/// The favorite sounds below `e`, in tree order.
pub open spec fn fav_sounds(favs: Set<u32>, e: LibraryEntry) -> Seq<LibraryEntry>
    decreases e,
{
    match e {
        LibraryEntry::Sound { id, .. } => if favs.contains(id) {
            seq![e]
        } else {
            Seq::<LibraryEntry>::empty()
        },
        LibraryEntry::Category { children, .. } => fav_sounds_seq(favs, children@),
    }
}

pub open spec fn fav_sounds_seq(favs: Set<u32>, s: Seq<LibraryEntry>) -> Seq<LibraryEntry>
    decreases s,
{
    if s.len() == 0 {
        Seq::<LibraryEntry>::empty()
    } else {
        fav_sounds_seq(favs, s.drop_last()) + fav_sounds(favs, s.last())
    }
}

/// Collects the favorite sounds of the subtree, in tree order: the compute
/// half of the favourites screen.
#[verifier::loop_isolation(false)]
pub fn favourite_sounds(favs: &FavoritesSet, e: &LibraryEntry) -> (r: Vec<LibraryEntry>)
    ensures
        r@ == fav_sounds(favs@, *e),
    decreases *e,
{
    match e {
        LibraryEntry::Sound { id, name, parent_id, bytes, duration, enabled } => {
            let mut out: Vec<LibraryEntry> = Vec::new();
            if favs.contains(*id) {
                let copy = LibraryEntry::Sound {
                    id: *id,
                    name: name.clone(),
                    parent_id: *parent_id,
                    bytes: *bytes,
                    duration: *duration,
                    enabled: *enabled,
                };
                proof {
                    assert(copy == *e);
                }
                out.push(copy);
                proof {
                    assert(out@ =~= seq![*e]);
                }
            } else {
                proof {
                    assert(out@ =~= Seq::<LibraryEntry>::empty());
                }
            }
            out
        },
        LibraryEntry::Category { children, .. } => {
            let mut out: Vec<LibraryEntry> = Vec::new();
            let n = children.len();
            let mut i: usize = 0;
            proof {
                assert(children@.take(0) =~= Seq::<LibraryEntry>::empty());
            }
            while i < n
                invariant
                    i <= n,
                    out@ == fav_sounds_seq(favs@, children@.take(i as int)),
                decreases n - i,
            {
                let mut part = favourite_sounds(favs, &children[i]);
                proof {
                    assert(children@.take(i + 1).drop_last() =~= children@.take(i as int));
                    assert(children@.take(i + 1).last() == children@[i as int]);
                }
                out.append(&mut part);
                i = i + 1;
            }
            proof {
                assert(children@.take(n as int) =~= children@);
            }
            out
        },
    }
}

} // verus!
