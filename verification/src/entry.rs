use vstd::prelude::*;

verus! {

/// One to-do item: a server-assigned numeric id, a client-supplied numeric
/// date (opaque to the service, never interpreted) and a free-form title.
pub struct ToDoListEntry {
    pub id: i32,
    pub date: i64,
    pub title: String,
}

/// The mathematical value of an entry: its three fields as plain
/// mathematical values. Contracts over the store speak of sequences of
/// these.
pub ghost struct EntryView {
    pub id: int,
    pub date: int,
    pub title: Seq<char>,
}

impl View for ToDoListEntry {
    type V = EntryView;

    open spec fn view(&self) -> EntryView {
        EntryView { id: self.id as int, date: self.date as int, title: self.title@ }
    }
}

impl Clone for ToDoListEntry {
    fn clone(&self) -> (r: Self)
        ensures
            r == *self,
    {
        ToDoListEntry { id: self.id, date: self.date, title: self.title.clone() }
    }
}

} // verus!
