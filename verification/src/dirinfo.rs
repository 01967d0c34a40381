//! The cursor of one directory enumeration: the listing, sorted once, and
//! how far the host has read it.

use vstd::prelude::*;
use crate::conv::WStr;
use crate::order::{
    is_sorted, lemma_insertion_order_is_irrelevant, lemma_insertion_point_unique,
    lemma_stable_sort_idempotent, lemma_stable_sort_sorted, stable_insert, stable_sort,
    strict_weak_order, tells_apart,
};
use vstd::seq_lib::to_multiset_insert;

verus! {

/// One entry of a directory listing.
#[derive(Debug)]
pub struct DirEntry {
    pub filename: WStr,
    pub is_directory: bool,
    pub size: i64,
}

/// What an entry says.
pub struct DirEntryView {
    pub filename: Seq<u16>,
    pub is_directory: bool,
    pub size: i64,
}

impl View for DirEntry {
    type V = DirEntryView;

    open spec fn view(&self) -> DirEntryView {
        DirEntryView {
            filename: self.filename@,
            is_directory: self.is_directory,
            size: self.size,
        }
    }
}

/// The metadata that the host takes for an entry; everything it holds
/// besides these two fields is left at zero.
#[derive(Clone, Copy, Debug, PartialEq, Eq)]
pub struct BasicInfo {
    pub is_directory: bool,
    pub file_size: i64,
}

/// What each entry of a listing says, in the listing's order.
pub open spec fn entry_views(entries: Seq<DirEntry>) -> Seq<DirEntryView> {
    Seq::new(entries.len(), |i: int| entries[i]@)
}

/// Whether `order` may answer that the name `a` comes before the name
/// `b`: there is a negative answer of it to them.
pub open spec fn answers_before<F: Fn(&WStr, &WStr) -> i32>(
    order: F,
    a: Seq<u16>,
    b: Seq<u16>,
) -> bool {
    exists|x: WStr, y: WStr, r: i32|
        x@ == a && y@ == b && #[trigger] call_ensures(order, (&x, &y), r) && r < 0
}

/// Whether `order` may answer that the name `a` does not come before the
/// name `b`: there is an answer of it to them that is not negative.
pub open spec fn answers_not_before<F: Fn(&WStr, &WStr) -> i32>(
    order: F,
    a: Seq<u16>,
    b: Seq<u16>,
) -> bool {
    exists|x: WStr, y: WStr, r: i32|
        x@ == a && y@ == b && #[trigger] call_ensures(order, (&x, &y), r) && r >= 0
}

/// Whether `order` allows the name `a` to stand directly in front of the
/// name `b`: it may answer that `a` comes before `b`, or that `b` does not
/// come before `a`.
pub open spec fn may_precede<F: Fn(&WStr, &WStr) -> i32>(
    order: F,
    a: Seq<u16>,
    b: Seq<u16>,
) -> bool {
    answers_before(order, a, b) || answers_not_before(order, b, a)
}

/// Whether `order` follows the relation `lt` on names: whenever it
/// answers, its answer is negative exactly where `lt` puts the first name
/// before the second.
pub open spec fn order_follows<F: Fn(&WStr, &WStr) -> i32>(
    order: F,
    lt: spec_fn(Seq<u16>, Seq<u16>) -> bool,
) -> bool {
    forall|x: WStr, y: WStr, r: i32| #[trigger]
        call_ensures(order, (&x, &y), r) ==> (r < 0 <==> lt(x@, y@))
}

/// The relation `lt` on names as a relation on entries: by their names
/// alone.
pub open spec fn by_name(lt: spec_fn(Seq<u16>, Seq<u16>) -> bool) -> spec_fn(
    DirEntryView,
    DirEntryView,
) -> bool {
    |a: DirEntryView, b: DirEntryView| lt(a.filename, b.filename)
}

/// Whether `after` is `before` sorted by what `order` answered.
///
/// Whatever `order` answers, `after` holds the entries of `before`, each
/// as often, and `order` allows each entry to stand in front of the next.
/// If `order` follows a relation on names, `after` is `before` in the
/// stable sorted order of that relation: entries whose names it does not
/// tell apart keep the order they had.
pub open spec fn sorted_by_order<F: Fn(&WStr, &WStr) -> i32>(
    order: F,
    before: Seq<DirEntryView>,
    after: Seq<DirEntryView>,
) -> bool {
    &&& after.len() == before.len()
    &&& after.to_multiset() == before.to_multiset()
    &&& forall|i: int|
        0 <= i < after.len() - 1 ==> may_precede(
            order,
            (#[trigger] after[i]).filename,
            after[i + 1].filename,
        )
    &&& forall|lt: spec_fn(Seq<u16>, Seq<u16>) -> bool| #[trigger]
        order_follows(order, lt) ==> after == stable_sort(before, by_name(lt))
}

/// What sorting by an order that follows a strict weak order gives: the
/// one stable sorted order of the entries, which is sorted, and which
/// sorting again leaves as it is.
pub proof fn lemma_sorted_by_order<F: Fn(&WStr, &WStr) -> i32>(
    order: F,
    lt: spec_fn(Seq<u16>, Seq<u16>) -> bool,
    before: Seq<DirEntryView>,
    after: Seq<DirEntryView>,
)
    requires
        order_follows(order, lt),
        strict_weak_order(by_name(lt)),
        sorted_by_order(order, before, after),
    ensures
        after == stable_sort(before, by_name(lt)),
        is_sorted(after, by_name(lt)),
        stable_sort(after, by_name(lt)) == after,
        forall|again: Seq<DirEntryView>| #[trigger]
            sorted_by_order(order, after, again) ==> again == after,
{
    lemma_stable_sort_sorted(before, by_name(lt));
    lemma_stable_sort_idempotent(before, by_name(lt));
}

/// Two listings that hold the same entries, put together in different
/// orders, are sorted into the same sequence, if the order follows a
/// strict weak order that tells the names of different entries apart.
/// Where it ranks the names of two different entries alike, the two keep
/// the order in which they were put in, and the sequences may differ.
pub proof fn lemma_sorting_ignores_insertion_order<F: Fn(&WStr, &WStr) -> i32>(
    order: F,
    lt: spec_fn(Seq<u16>, Seq<u16>) -> bool,
    first: Seq<DirEntryView>,
    second: Seq<DirEntryView>,
    first_sorted: Seq<DirEntryView>,
    second_sorted: Seq<DirEntryView>,
)
    requires
        order_follows(order, lt),
        strict_weak_order(by_name(lt)),
        first.to_multiset() == second.to_multiset(),
        tells_apart(first, by_name(lt)),
        sorted_by_order(order, first, first_sorted),
        sorted_by_order(order, second, second_sorted),
    ensures
        first_sorted == second_sorted,
{
    lemma_insertion_order_is_irrelevant(first, second, by_name(lt));
}

/// The state of one enumeration.
pub struct DirInfoView {
    /// The directory that is listed.
    pub path: Seq<u16>,
    /// How many entries the host has taken.
    pub index: usize,
    /// Whether the listing has been brought in and sorted.
    pub filled: bool,
    pub entries: Seq<DirEntryView>,
}

impl DirInfoView {
    /// An enumeration of `path` that has not begun.
    pub open spec fn fresh(path: Seq<u16>) -> DirInfoView {
        DirInfoView { path, index: 0, filled: false, entries: Seq::empty() }
    }

    /// The enumeration set back to its start: nothing read, nothing listed.
    pub open spec fn reset(self) -> DirInfoView {
        DirInfoView { index: 0, filled: false, entries: Seq::empty(), ..self }
    }

    /// Whether the cursor stands on an entry.
    pub open spec fn current_is_valid(self) -> bool {
        self.index < self.entries.len()
    }

    /// The number of entries from the cursor to the end.
    pub open spec fn remaining(self) -> nat {
        if self.index < self.entries.len() {
            (self.entries.len() - self.index) as nat
        } else {
            0
        }
    }
}

/// The cursor of one directory enumeration.
#[derive(Debug)]
pub struct DirInfo {
    path: WStr,
    index: usize,
    filled: bool,
    entries: Vec<DirEntry>,
}

impl View for DirInfo {
    type V = DirInfoView;

    closed spec fn view(&self) -> DirInfoView {
        DirInfoView {
            path: self.path@,
            index: self.index,
            filled: self.filled,
            entries: entry_views(self.entries@),
        }
    }
}

impl DirInfo {
    /// A cursor for an enumeration of `path` that has not begun.
    pub fn new(path: WStr) -> (d: DirInfo)
        ensures
            d@ == DirInfoView::fresh(path@),
    {
        let d = DirInfo { path, index: 0, filled: false, entries: Vec::new() };
        assert(d@.entries =~= Seq::empty());
        d
    }

    /// The directory that is listed.
    pub fn path(&self) -> (p: &WStr)
        ensures
            p@ == self@.path,
    {
        &self.path
    }

    /// Sets the enumeration back to its start and drops the listing, so
    /// that it is brought in again.
    pub fn reset(&mut self)
        ensures
            final(self)@ == old(self)@.reset(),
    {
        self.index = 0;
        self.filled = false;
        self.entries.clear();
        assert(self@.entries =~= Seq::empty());
    }

    /// Whether the listing has been brought in and sorted.
    pub fn filled(&self) -> (b: bool)
        ensures
            b == self@.filled,
    {
        self.filled
    }

    /// The number of entries in the listing.
    pub fn len(&self) -> (n: usize)
        ensures
            n == self@.entries.len(),
    {
        self.entries.len()
    }

    /// The entry at position `i` of the listing.
    pub fn entry(&self, i: usize) -> (e: &DirEntry)
        requires
            i < self@.entries.len(),
        ensures
            e@ == self@.entries[i as int],
    {
        &self.entries[i]
    }

    /// How many entries the host has taken.
    pub fn index(&self) -> (i: usize)
        ensures
            i == self@.index,
    {
        self.index
    }

    /// Whether the cursor stands on an entry.
    pub fn current_is_valid(&self) -> (b: bool)
        ensures
            b == self@.current_is_valid(),
    {
        self.index < self.entries.len()
    }

    /// The name of the entry under the cursor.
    pub fn current_file_name(&self) -> (name: &WStr)
        requires
            self@.current_is_valid(),
        ensures
            name@ == self@.entries[self@.index as int].filename,
    {
        &self.entries[self.index].filename
    }

    /// The metadata of the entry under the cursor.
    pub fn current_basic_info(&self) -> (info: BasicInfo)
        requires
            self@.current_is_valid(),
        ensures
            info.is_directory == self@.entries[self@.index as int].is_directory,
            info.file_size == self@.entries[self@.index as int].size,
    {
        BasicInfo {
            is_directory: self.entries[self.index].is_directory,
            file_size: self.entries[self.index].size,
        }
    }

    /// Moves the cursor one entry on and says whether it stands on an entry
    /// then.
    pub fn move_next(&mut self) -> (more: bool)
        requires
            old(self)@.index < usize::MAX,
        ensures
            final(self)@ == (DirInfoView { index: (old(self)@.index + 1) as usize, ..old(self)@ }),
            more == final(self)@.current_is_valid(),
    {
        self.index = self.index + 1;
        self.index < self.entries.len()
    }

    /// Appends an entry to the listing.
    pub fn fill_item_entry(&mut self, filename: WStr, size: i64, is_directory: bool)
        ensures
            final(self)@ == (DirInfoView {
                entries: old(self)@.entries.push(
                    DirEntryView { filename: filename@, is_directory, size },
                ),
                ..old(self)@
            }),
    {
        self.entries.push(DirEntry { filename, is_directory, size });
        assert(self@.entries =~= old(self)@.entries.push(
            DirEntryView { filename: filename@, is_directory, size },
        ));
    }

    /// Sorts the listing by name, as `order` answers, and marks it as
    /// brought in: see [`sorted_by_order`]. Path and cursor stay as they
    /// are.
    pub fn sort_entries_and_mark_filled<F: Fn(&WStr, &WStr) -> i32>(&mut self, order: &F)
        requires
            forall|x: WStr, y: WStr| #[trigger] call_requires(*order, (&x, &y)),
        ensures
            final(self)@ == (DirInfoView {
                filled: true,
                entries: final(self)@.entries,
                ..old(self)@
            }),
            sorted_by_order(*order, old(self)@.entries, final(self)@.entries),
    {
        let ghost all = self@.entries;
        let mut sorted: Vec<DirEntry> = Vec::new();
        assert(all.skip(all.len() as int) =~= Seq::empty());
        assert(entry_views(sorted@) =~= Seq::empty());
        while self.entries.len() > 0
            invariant
                forall|x: WStr, y: WStr| #[trigger] call_requires(*order, (&x, &y)),
                self.entries@.len() <= all.len(),
                entry_views(self.entries@) == all.take(self.entries@.len() as int),
                sorted_by_order(
                    *order,
                    all.skip(self.entries@.len() as int),
                    entry_views(sorted@),
                ),
                self.path == old(self).path,
                self.index == old(self).index,
            decreases self.entries@.len(),
        {
            let ghost n = self.entries@.len() as int;
            let ghost before = entry_views(self.entries@);
            let ghost placed = entry_views(sorted@);
            let entry = self.entries.pop().unwrap();
            assert(entry@ == before[n - 1]);
            assert(entry@ == all[n - 1]);
            let mut p: usize = 0;
            loop
                invariant
                    forall|x: WStr, y: WStr| #[trigger] call_requires(*order, (&x, &y)),
                    p <= sorted@.len(),
                    placed == entry_views(sorted@),
                    forall|k: int|
                        0 <= k < p ==> answers_before(
                            *order,
                            (#[trigger] placed[k]).filename,
                            entry@.filename,
                        ),
                ensures
                    p <= sorted@.len(),
                    forall|k: int|
                        0 <= k < p ==> answers_before(
                            *order,
                            (#[trigger] placed[k]).filename,
                            entry@.filename,
                        ),
                    p < sorted@.len() ==> answers_not_before(
                        *order,
                        placed[p as int].filename,
                        entry@.filename,
                    ),
                decreases sorted@.len() - p,
            {
                if p >= sorted.len() {
                    break;
                }
                let r = order(&sorted[p].filename, &entry.filename);
                assert(call_ensures(*order, (&sorted@[p as int].filename, &entry.filename), r));
                if r >= 0 {
                    assert(answers_not_before(
                        *order,
                        placed[p as int].filename,
                        entry@.filename,
                    ));
                    break;
                }
                assert(answers_before(*order, placed[p as int].filename, entry@.filename));
                p = p + 1;
            }
            sorted.insert(p, entry);
            proof {
                let now = entry_views(sorted@);
                let rest = all.skip(n - 1);
                assert(now =~= placed.insert(p as int, entry@));
                assert(rest.drop_first() =~= all.skip(n));
                assert(rest[0] == all[n - 1]);
                assert(rest =~= all.skip(n).insert(0, all[n - 1]));
                assert(entry_views(self.entries@) =~= all.take(n - 1));
                to_multiset_insert(placed, p as int, entry@);
                to_multiset_insert(all.skip(n), 0, all[n - 1]);
                assert forall|i: int| 0 <= i < now.len() - 1 implies may_precede(
                    *order,
                    (#[trigger] now[i]).filename,
                    now[i + 1].filename,
                ) by {
                    if i + 1 < p {
                        assert(now[i] == placed[i] && now[i + 1] == placed[i + 1]);
                    } else if i + 1 == p {
                        assert(now[i] == placed[i]);
                    } else if i == p {
                        assert(now[i + 1] == placed[p as int]);
                    } else {
                        assert(now[i] == placed[i - 1] && now[i + 1] == placed[i]);
                    }
                }
                assert forall|lt: spec_fn(Seq<u16>, Seq<u16>) -> bool| #[trigger]
                    order_follows(*order, lt) implies now == stable_sort(rest, by_name(lt)) by {
                    assert forall|k: int| 0 <= k < p implies by_name(lt)(
                        #[trigger] placed[k],
                        entry@,
                    ) by {
                        assert(answers_before(*order, placed[k].filename, entry@.filename));
                    }
                    lemma_insertion_point_unique(placed, entry@, by_name(lt), p as int);
                    assert(now =~= stable_insert(placed, entry@, by_name(lt)));
                }
            }
        }
        assert(all.skip(0) =~= all);
        self.entries = sorted;
        self.filled = true;
    }

    /// Replaces the listing by `listing`, sorted by name as `order`
    /// answers, and marks it as brought in: see [`sorted_by_order`]. Path
    /// and cursor stay as they are.
    pub fn populate<F: Fn(&WStr, &WStr) -> i32>(&mut self, listing: Vec<DirEntry>, order: &F)
        requires
            forall|x: WStr, y: WStr| #[trigger] call_requires(*order, (&x, &y)),
        ensures
            final(self)@ == (DirInfoView {
                filled: true,
                entries: final(self)@.entries,
                ..old(self)@
            }),
            sorted_by_order(*order, entry_views(listing@), final(self)@.entries),
    {
        self.entries = listing;
        self.sort_entries_and_mark_filled(order);
    }
}

} // verus!
