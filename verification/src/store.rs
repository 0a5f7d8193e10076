use vstd::prelude::*;

use crate::entry::{EntryView, ToDoListEntry};

verus! {

/// The views of a sequence of entries, position by position.
pub open spec fn views_of(v: Seq<ToDoListEntry>) -> Seq<EntryView> {
    v.map_values(|e: ToDoListEntry| e@)
}

/// Ids are pairwise distinct across the sequence.
pub open spec fn distinct_ids(s: Seq<EntryView>) -> bool {
    forall|i: int, j: int|
        0 <= i < j < s.len() ==> #[trigger] s[i].id != #[trigger] s[j].id
}

/// The largest id present, floored at zero: the quantity the create
/// operation derives the next id from.
pub open spec fn max_id(s: Seq<EntryView>) -> int
    decreases s.len(),
{
    if s.len() == 0 {
        0
    } else if s.last().id > max_id(s.drop_last()) {
        s.last().id
    } else {
        max_id(s.drop_last())
    }
}

/// Some entry in the sequence carries this id.
pub open spec fn has_id(s: Seq<EntryView>, id: int) -> bool {
    exists|i: int| 0 <= i < s.len() && #[trigger] s[i].id == id
}

/// The sequence with every entry carrying this id removed: exactly the
/// entries whose id differs survive, in their original order, with all
/// their fields unchanged.
pub open spec fn remove_id(s: Seq<EntryView>, id: int) -> Seq<EntryView>
    decreases s.len(),
{
    if s.len() == 0 {
        Seq::empty()
    } else if s.last().id == id {
        remove_id(s.drop_last(), id)
    } else {
        remove_id(s.drop_last(), id).push(s.last())
    }
}

/// The store holding the in-memory collection of entries, in insertion
/// order. One instance lives for the whole process; the surrounding
/// program guards it with a lock and calls one operation at a time.
pub struct ToDoList {
    entries: Vec<ToDoListEntry>,
}

impl View for ToDoList {
    type V = Seq<EntryView>;

    closed spec fn view(&self) -> Seq<EntryView> {
        views_of(self.entries@)
    }
}

impl ToDoList {
    /// The store's invariant: id values are pairwise distinct.
    pub open spec fn wf(&self) -> bool {
        distinct_ids(self@)
    }

    /// A store starts empty.
    pub fn new() -> (r: Self)
        ensures
            r@ == Seq::<EntryView>::empty(),
            r.wf(),
    {
        let r = ToDoList { entries: Vec::new() };
        proof {
            assert(r@ =~= Seq::<EntryView>::empty());
        }
        r
    }

    /// A snapshot of the whole collection, in storage order, with no side
    /// effect on the store.
    pub fn list(&self) -> (r: Vec<ToDoListEntry>)
        ensures
            views_of(r@) == self@,
    {
        clone_entries(&self.entries)
    }

    /// The largest id currently in use, or zero for an empty store: the
    /// quantity the next create derives its id from.
    pub fn max_entry_id(&self) -> (r: i32)
        ensures
            r as int == max_id(self@),
    {
        let mut max: i32 = 0;
        let mut i: usize = 0;
        while i < self.entries.len()
            invariant
                i <= self.entries.len(),
                max as int == max_id(self@.take(i as int)),
            decreases self.entries.len() - i,
        {
            proof {
                assert(self@.take(i as int + 1).drop_last() =~= self@.take(i as int));
                assert(self@.take(i as int + 1).last() == self@[i as int]);
            }
            if self.entries[i].id > max {
                max = self.entries[i].id;
            }
            i = i + 1;
        }
        proof {
            assert(self@.take(self@.len() as int) =~= self@);
        }
        max
    }

    /// Appends one entry carrying the given title and date under the id
    /// `1 + max(existing ids, 0)`, and returns the updated collection.
    /// Deriving the id from the current maximum rather than a counter
    /// means that deleting the highest-numbered entry frees its id for
    /// the next create.
    pub fn create(&mut self, title: String, date: i64) -> (r: Vec<ToDoListEntry>)
        requires
            old(self).wf(),
            max_id(old(self)@) < i32::MAX as int,
        ensures
            final(self)@ == old(self)@.push(
                (EntryView { id: max_id(old(self)@) + 1, date: date as int, title: title@ }),
            ),
            final(self).wf(),
            views_of(r@) == final(self)@,
    {
        let max = self.max_entry_id();
        let new_id = max + 1;
        self.entries.push(ToDoListEntry { id: new_id, title, date });
        proof {
            let e = (EntryView { id: max_id(old(self)@) + 1, date: date as int, title: title@ });
            assert(self@ =~= old(self)@.push(e));
            lemma_max_id_bounds(old(self)@);
            assert forall|i: int, j: int|
                0 <= i < j < self@.len() implies #[trigger] self@[i].id != #[trigger] self@[j].id by {
                if j == self@.len() - 1 {
                    assert(self@[i].id <= max_id(old(self)@));
                } else {
                    assert(old(self)@[i].id != old(self)@[j].id);
                }
            }
        }
        clone_entries(&self.entries)
    }

    /// Replaces the title of the entry whose id matches, if there is
    /// one, leaving its id and date and every other entry untouched; a
    /// missing id is a silent no-op. Returns the resulting collection.
    pub fn update(&mut self, id: i32, title: String) -> (r: Vec<ToDoListEntry>)
        requires
            old(self).wf(),
        ensures
            final(self)@.len() == old(self)@.len(),
            forall|j: int|
                0 <= j < old(self)@.len() && old(self)@[j].id != id as int ==> final(self)@[j]
                    == old(self)@[j],
            forall|j: int|
                0 <= j < old(self)@.len() && old(self)@[j].id == id as int ==> final(self)@[j]
                    == (EntryView { id: id as int, date: old(self)@[j].date, title: title@ }),
            !has_id(old(self)@, id as int) ==> final(self)@ == old(self)@,
            final(self).wf(),
            views_of(r@) == final(self)@,
    {
        let mut i: usize = 0;
        while i < self.entries.len()
            invariant
                old(self).wf(),
                *self == *old(self),
                i <= self.entries.len(),
                forall|j: int| 0 <= j < i as int ==> old(self)@[j].id != id as int,
            decreases self.entries.len() - i,
        {
            if self.entries[i].id == id {
                self.entries[i].title = title;
                proof {
                    let e = (EntryView {
                        id: id as int,
                        date: old(self)@[i as int].date,
                        title: title@,
                    });
                    assert(old(self)@[i as int].id == id as int);
                    assert(has_id(old(self)@, id as int));
                    assert(self@ =~= old(self)@.update(i as int, e));
                    assert forall|a: int, b: int|
                        0 <= a < b < self@.len() implies #[trigger] self@[a].id
                        != #[trigger] self@[b].id by {
                        assert(old(self)@[a].id != old(self)@[b].id);
                    }
                    assert forall|j: int|
                        0 <= j < old(self)@.len() && old(self)@[j].id == id as int implies self@[j]
                        == e by {
                        if j != i as int {
                            assert(old(self)@[j].id != old(self)@[i as int].id);
                        }
                    }
                }
                return clone_entries(&self.entries);
            }
            i = i + 1;
        }
        proof {
            if has_id(old(self)@, id as int) {
                let k = choose|k: int|
                    0 <= k < old(self)@.len() && #[trigger] old(self)@[k].id == id as int;
                assert(false);
            }
        }
        clone_entries(&self.entries)
    }

    /// Removes every entry whose id equals the argument (at most one,
    /// since ids are distinct), keeping all others unchanged and in
    /// order; an absent id leaves the collection as it was. Returns the
    /// resulting collection.
    pub fn delete(&mut self, id: i32) -> (r: Vec<ToDoListEntry>)
        requires
            old(self).wf(),
        ensures
            final(self)@ == remove_id(old(self)@, id as int),
            !has_id(old(self)@, id as int) ==> final(self)@ == old(self)@,
            final(self).wf(),
            views_of(r@) == final(self)@,
    {
        let mut kept: Vec<ToDoListEntry> = Vec::new();
        let mut i: usize = 0;
        while i < self.entries.len()
            invariant
                *self == *old(self),
                i <= self.entries.len(),
                views_of(kept@) == remove_id(self@.take(i as int), id as int),
            decreases self.entries.len() - i,
        {
            proof {
                assert(self@.take(i as int + 1).drop_last() =~= self@.take(i as int));
                assert(self@.take(i as int + 1).last() == self@[i as int]);
            }
            if self.entries[i].id != id {
                kept.push(self.entries[i].clone());
                proof {
                    assert(views_of(kept@) =~= remove_id(self@.take(i as int + 1), id as int));
                }
            }
            i = i + 1;
        }
        proof {
            assert(self@.take(self@.len() as int) =~= self@);
        }
        self.entries = kept;
        proof {
            lemma_remove_id_distinct(old(self)@, id as int);
            if !has_id(old(self)@, id as int) {
                lemma_remove_id_noop(old(self)@, id as int);
            }
        }
        clone_entries(&self.entries)
    }
}

/// An id found after a removal was present before the removal and is
/// not the removed one.
pub proof fn lemma_remove_id_has_id(s: Seq<EntryView>, id: int, x: int)
    ensures
        has_id(remove_id(s, id), x) ==> has_id(s, x) && x != id,
    decreases s.len(),
{
    if s.len() > 0 {
        lemma_remove_id_has_id(s.drop_last(), id, x);
        if has_id(remove_id(s, id), x) {
            let r = remove_id(s, id);
            let k = choose|k: int| 0 <= k < r.len() && #[trigger] r[k].id == x;
            if s.last().id == id {
                let m = choose|m: int|
                    0 <= m < s.drop_last().len() && #[trigger] s.drop_last()[m].id == x;
                assert(s[m].id == x);
            } else {
                let prev = remove_id(s.drop_last(), id);
                if k < prev.len() {
                    assert(prev[k].id == x);
                    let m = choose|m: int|
                        0 <= m < s.drop_last().len() && #[trigger] s.drop_last()[m].id == x;
                    assert(s[m].id == x);
                } else {
                    assert(s[s.len() - 1].id == x);
                }
            }
        }
    }
}

/// Removal keeps ids pairwise distinct.
pub proof fn lemma_remove_id_distinct(s: Seq<EntryView>, id: int)
    requires
        distinct_ids(s),
    ensures
        distinct_ids(remove_id(s, id)),
    decreases s.len(),
{
    if s.len() > 0 {
        assert forall|a: int, b: int|
            0 <= a < b < s.drop_last().len() implies #[trigger] s.drop_last()[a].id
            != #[trigger] s.drop_last()[b].id by {
            assert(s[a].id != s[b].id);
        }
        lemma_remove_id_distinct(s.drop_last(), id);
        if s.last().id != id {
            let prev = remove_id(s.drop_last(), id);
            lemma_remove_id_has_id(s.drop_last(), id, s.last().id);
            if has_id(prev, s.last().id) {
                let m = choose|m: int|
                    0 <= m < s.drop_last().len() && #[trigger] s.drop_last()[m].id == s.last().id;
                assert(s[m].id != s[s.len() - 1].id);
                assert(false);
            }
            let out = prev.push(s.last());
            assert forall|a: int, b: int|
                0 <= a < b < out.len() implies #[trigger] out[a].id != #[trigger] out[b].id by {
                if b == prev.len() {
                    if out[a].id == s.last().id {
                        assert(prev[a].id == s.last().id);
                        assert(has_id(prev, s.last().id));
                        assert(false);
                    }
                } else {
                    assert(prev[a].id != prev[b].id);
                }
            }
        }
    }
}

/// Removing an id that no entry carries changes nothing.
pub proof fn lemma_remove_id_noop(s: Seq<EntryView>, id: int)
    requires
        !has_id(s, id),
    ensures
        remove_id(s, id) == s,
    decreases s.len(),
{
    if s.len() > 0 {
        assert(s[s.len() - 1].id != id);
        assert(!has_id(s.drop_last(), id)) by {
            if has_id(s.drop_last(), id) {
                let m = choose|m: int|
                    0 <= m < s.drop_last().len() && #[trigger] s.drop_last()[m].id == id;
                assert(s[m].id == id);
                assert(false);
            }
        }
        lemma_remove_id_noop(s.drop_last(), id);
        assert(remove_id(s, id) =~= s);
    } else {
        assert(remove_id(s, id) =~= s);
    }
}

/// Deleting an id twice in a row gives the same collection as deleting
/// it once: after the first removal no entry carries the id, so the
/// second removal finds nothing to take out.
pub proof fn lemma_delete_idempotent(s: Seq<EntryView>, id: int)
    ensures
        remove_id(remove_id(s, id), id) == remove_id(s, id),
{
    lemma_remove_id_has_id(s, id, id);
    lemma_remove_id_noop(remove_id(s, id), id);
}

/// Every id in the sequence is at most `max_id`, and `max_id` is never
/// negative.
pub proof fn lemma_max_id_bounds(s: Seq<EntryView>)
    ensures
        0 <= max_id(s),
        forall|i: int| 0 <= i < s.len() ==> #[trigger] s[i].id <= max_id(s),
    decreases s.len(),
{
    if s.len() > 0 {
        lemma_max_id_bounds(s.drop_last());
        assert forall|i: int| 0 <= i < s.len() implies #[trigger] s[i].id <= max_id(s) by {
            if i < s.len() - 1 {
                assert(s.drop_last()[i] == s[i]);
            }
        }
    }
}

/// A copy of the entries, entry by entry; every operation returns one as
/// its snapshot of the collection.
fn clone_entries(v: &Vec<ToDoListEntry>) -> (r: Vec<ToDoListEntry>)
    ensures
        views_of(r@) == views_of(v@),
{
    let mut r: Vec<ToDoListEntry> = Vec::new();
    let mut i: usize = 0;
    while i < v.len()
        invariant
            i <= v.len(),
            views_of(r@) == views_of(v@.take(i as int)),
        decreases v.len() - i,
    {
        r.push(v[i].clone());
        proof {
            v@.lemma_map_take_succ(|e: ToDoListEntry| e@, i as int);
            assert(views_of(r@) =~= views_of(v@.take(i as int + 1)));
        }
        i = i + 1;
    }
    proof {
        assert(v@.take(v@.len() as int) =~= v@);
    }
    r
}

} // verus!
