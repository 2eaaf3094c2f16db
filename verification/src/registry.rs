//! The registry of symbolic names: action sets and actions, each with the
//! handle that the runtime gave it.

use vstd::prelude::*;

verus! {

/// What a table holds, in registration order: each name with its handle.
pub type Entries = Seq<(Seq<char>, u64)>;

/// The names of the entries, in registration order.
pub open spec fn names_of(entries: Entries) -> Seq<Seq<char>> {
    entries.map_values(|entry: (Seq<char>, u64)| entry.0)
}

/// No name is registered twice.
pub open spec fn distinct_names(entries: Entries) -> bool {
    forall|i: int, j: int|
        0 <= i < j < entries.len() ==> (#[trigger] entries[i]).0 != (#[trigger] entries[j]).0
}

/// The handle registered under `key`: that of the first entry of that name.
pub open spec fn handle_of(entries: Entries, key: Seq<char>) -> Option<u64> {
    match names_of(entries).index_of_first(key) {
        Some(position) => Some(entries[position].1),
        None => None,
    }
}

/// A registered action set or action: a symbolic name and the opaque handle
/// of the runtime.
pub struct NamedHandle {
    pub name: String,
    pub handle: u64,
}

impl View for NamedHandle {
    type V = (Seq<char>, u64);

    open spec fn view(&self) -> (Seq<char>, u64) {
        (self.name@, self.handle)
    }
}

/// The registered names of one kind, in registration order. A name is the
/// lookup key and occurs once.
pub struct HandleTable {
    entries: Vec<NamedHandle>,
}

impl View for HandleTable {
    type V = Entries;

    closed spec fn view(&self) -> Entries {
        self.entries@.map_values(|entry: NamedHandle| entry@)
    }
}

impl HandleTable {
    /// The table's invariant: a name occurs once. `new` establishes it and
    /// `register` keeps it.
    pub open spec fn wf(&self) -> bool {
        distinct_names(self@)
    }

    /// A table without entries.
    pub fn new() -> (table: HandleTable)
        ensures
            table@ == Entries::empty(),
            table.wf(),
    {
        let table = HandleTable { entries: Vec::new() };
        table
    }

    /// The number of registered names.
    pub fn len(&self) -> (count: usize)
        ensures
            count == self@.len(),
    {
        self.entries.len()
    }

    /// Looks a name up by exact match.
    pub fn lookup(&self, key: &String) -> (handle: Option<u64>)
        ensures
            handle == handle_of(self@, key@),
            handle is Some <==> names_of(self@).contains(key@),
    {
        let mut i: usize = 0;
        while i < self.entries.len()
            invariant
                i <= self.entries@.len(),
                self@.len() == self.entries@.len(),
                forall|j: int| 0 <= j < self.entries@.len() ==> self@[j] == self.entries@[j]@,
                forall|j: int| 0 <= j < i ==> names_of(self@)[j] != key@,
            decreases self.entries@.len() - i,
        {
            if self.entries[i].name == *key {
                proof {
                    names_of(self@).index_of_first_ensures(key@);
                    assert(names_of(self@)[i as int] == key@);
                }
                return Some(self.entries[i].handle);
            }
            i += 1;
        }
        proof {
            names_of(self@).index_of_first_ensures(key@);
        }
        None
    }

    /// Registers `name` with `handle`, unless the name is registered already:
    /// the first registration of a name stands.
    pub fn register(&mut self, name: String, handle: u64) -> (accepted: bool)
        ensures
            accepted == !names_of(old(self)@).contains(name@),
            accepted ==> final(self)@ == old(self)@.push((name@, handle)),
            !accepted ==> final(self)@ == old(self)@,
            old(self).wf() ==> final(self).wf(),
    {
        if self.lookup(&name).is_some() {
            return false;
        }
        let ghost before = self@;
        self.entries.push(NamedHandle { name, handle });
        proof {
            assert(self@ =~= before.push((name@, handle)));
            if distinct_names(before) {
                assert forall|i: int, j: int| 0 <= i < j < self@.len() implies (
                #[trigger] self@[i]).0 != (#[trigger] self@[j]).0 by {
                    if j == before.len() {
                        assert(names_of(before)[i] == before[i].0);
                    }
                }
            }
        }
        true
    }
}

} // verus!
