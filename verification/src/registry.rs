//! The rooms whose gossip has been entered, each with a handle to its network.
use vstd::prelude::*;
use crate::text::concat3;

verus! {

/// A room, with its handle.
struct RoomEntry<H> {
    name: String,
    handle: H,
}

/// The rooms that have been entered: a map from their names to their handles.
pub struct RoomRegistry<H> {
    entries: Vec<RoomEntry<H>>,
}

/// A room that is not in the registry.
#[derive(Debug)]
pub struct RoomNotFound {
    pub room: String,
}

impl RoomNotFound {
    /// What went wrong, in words.
    pub fn message(&self) -> (message: String)
        ensures
            message@ == "room '"@ + self.room@ + "' not found"@,
    {
        concat3("room '", self.room.as_str(), "' not found")
    }
}

spec fn names<H>(entries: Seq<RoomEntry<H>>) -> Seq<Seq<char>> {
    entries.map_values(|e: RoomEntry<H>| e.name@)
}

spec fn map_of<H>(entries: Seq<RoomEntry<H>>) -> Map<Seq<char>, H> {
    Map::new(
        |name: Seq<char>| names(entries).contains(name),
        |name: Seq<char>| entries[names(entries).index_of(name)].handle,
    )
}

proof fn lemma_entry<H>(entries: Seq<RoomEntry<H>>, i: int)
    requires
        0 <= i < entries.len(),
        names(entries).no_duplicates(),
    ensures
        map_of(entries).contains_key(entries[i].name@),
        map_of(entries)[entries[i].name@] == entries[i].handle,
{
    let name = entries[i].name@;
    assert(names(entries)[i] == name);
    let found = names(entries).index_of(name);
    assert(names(entries).contains(name));
    assert(names(entries)[found] == name);
    assert(found == i);
}

impl<H> View for RoomRegistry<H> {
    type V = Map<Seq<char>, H>;

    closed spec fn view(&self) -> Map<Seq<char>, H> {
        map_of(self.entries@)
    }
}

impl<H> RoomRegistry<H> {
    /// No room is entered twice.
    pub closed spec fn wf(&self) -> bool {
        names(self.entries@).no_duplicates()
    }

    /// No rooms.
    pub fn new() -> (registry: Self)
        ensures
            registry.wf(),
            registry@ == Map::<Seq<char>, H>::empty(),
    {
        let registry = RoomRegistry { entries: Vec::new() };
        assert(registry@ =~= Map::<Seq<char>, H>::empty());
        registry
    }

    fn position(&self, room: &str) -> (place: Option<usize>)
        ensures
            match place {
                Some(i) => i < self.entries@.len() && self.entries@[i as int].name@ == room@,
                None => !self@.contains_key(room@),
            },
    {
        let wanted = room.to_owned();
        let mut i: usize = 0;
        while i < self.entries.len()
            invariant
                i <= self.entries@.len(),
                wanted@ == room@,
                forall|j: int| 0 <= j < i ==> #[trigger] names(self.entries@)[j] != room@,
            decreases self.entries@.len() - i,
        {
            if self.entries[i].name == wanted {
                return Some(i);
            }
            i = i + 1;
        }
        None
    }

    /// Whether a room has been entered.
    pub fn contains(&self, room: &str) -> (found: bool)
        ensures
            found == self@.contains_key(room@),
    {
        match self.position(room) {
            Some(i) => {
                assert(names(self.entries@)[i as int] == room@);
                true
            },
            None => false,
        }
    }

    /// Enters a room, unless it has been entered already: then its handle stays.
    pub fn insert(&mut self, room: String, handle: H)
        requires
            old(self).wf(),
        ensures
            final(self).wf(),
            old(self)@.contains_key(room@) ==> final(self)@ == old(self)@,
            !old(self)@.contains_key(room@) ==> final(self)@ == old(self)@.insert(room@, handle),
    {
        if self.contains(room.as_str()) {
            return;
        }
        let ghost before = self.entries@;
        let ghost name = room@;
        self.entries.push(RoomEntry { name: room, handle });
        proof {
            let after = self.entries@;
            assert(names(after) =~= names(before).push(name));
            assert(!names(before).contains(name));
            assert forall|i: int, j: int|
                0 <= i < names(after).len() && 0 <= j < names(after).len() && i
                    != j implies names(after)[i] != names(after)[j] by {
                if i < before.len() && j < before.len() {
                    assert(names(before)[i] != names(before)[j]);
                } else if i < before.len() {
                    assert(names(before).contains(names(before)[i]));
                } else {
                    assert(names(before).contains(names(before)[j]));
                }
            }
            assert(map_of(after) =~= map_of(before).insert(name, handle)) by {
                assert forall|other: Seq<char>| #[trigger]
                    map_of(after).contains_key(other) <==> map_of(before).insert(
                        name,
                        handle,
                    ).contains_key(other) by {
                    if names(before).contains(other) {
                        let i = names(before).index_of(other);
                        assert(names(after)[i] == other);
                    }
                    assert(names(after)[before.len() as int] == name);
                    if names(after).contains(other) && other != name {
                        let i = names(after).index_of(other);
                        assert(names(before)[i] == other);
                    }
                }
                assert forall|other: Seq<char>| #[trigger]
                    map_of(after).contains_key(other) implies map_of(after)[other]
                    == map_of(before).insert(name, handle)[other] by {
                    let i = names(after).index_of(other);
                    assert(names(after)[i] == other);
                    lemma_entry(after, i);
                    if other != name {
                        assert(names(before)[i] == other);
                        lemma_entry(before, i);
                        assert(after[i] == before[i]);
                    }
                }
            }
        }
    }

    /// Leaves a room. Returns its handle, if it had been entered.
    pub fn remove(&mut self, room: &str) -> (handle: Option<H>)
        requires
            old(self).wf(),
        ensures
            final(self).wf(),
            final(self)@ == old(self)@.remove(room@),
            match handle {
                Some(found) => old(self)@.contains_key(room@) && found == old(self)@[room@],
                None => !old(self)@.contains_key(room@),
            },
    {
        match self.position(room) {
            Some(i) => {
                let ghost before = self.entries@;
                let ghost name = room@;
                proof {
                    lemma_entry(before, i as int);
                }
                let entry = self.entries.remove(i);
                proof {
                    let after = self.entries@;
                    assert(names(after) =~= names(before).remove(i as int));
                    assert(names(after).no_duplicates());
                    assert(map_of(after) =~= map_of(before).remove(name)) by {
                        assert forall|other: Seq<char>| #[trigger]
                            map_of(after).contains_key(other) <==> map_of(before).remove(
                                name,
                            ).contains_key(other) by {
                            if names(before).contains(other) && other != name {
                                let k = names(before).index_of(other);
                                assert(names(before)[k] == other);
                                assert(names(after)[if k < i { k } else { k - 1 }] == other);
                            }
                            if names(after).contains(other) {
                                let k = names(after).index_of(other);
                                assert(names(after)[k] == other);
                                let b = if k < i { k } else { k + 1 };
                                assert(names(before)[b] == other);
                                assert(names(before)[i as int] == name);
                            }
                        }
                        assert forall|other: Seq<char>| #[trigger]
                            map_of(after).contains_key(other) implies map_of(after)[other]
                            == map_of(before).remove(name)[other] by {
                            let k = names(after).index_of(other);
                            assert(names(after)[k] == other);
                            lemma_entry(after, k);
                            let b = if k < i { k } else { k + 1 };
                            assert(names(before)[b] == other);
                            lemma_entry(before, b);
                            assert(after[k] == before[b]);
                        }
                    }
                }
                Some(entry.handle)
            },
            None => {
                assert(self@.remove(room@) =~= self@);
                None
            },
        }
    }

    /// The handle of a room.
    pub fn get(&self, room: &str) -> (handle: Result<&H, RoomNotFound>)
        requires
            self.wf(),
        ensures
            match handle {
                Ok(found) => self@.contains_key(room@) && *found == self@[room@],
                Err(error) => !self@.contains_key(room@) && error.room@ == room@,
            },
    {
        match self.position(room) {
            Some(i) => {
                proof {
                    lemma_entry(self.entries@, i as int);
                }
                Ok(&self.entries[i].handle)
            },
            None => Err(RoomNotFound { room: room.to_owned() }),
        }
    }

    /// Leaves all rooms. Returns the handle of each.
    pub fn drain(&mut self) -> (handles: Vec<H>)
        requires
            old(self).wf(),
        ensures
            final(self).wf(),
            final(self)@ == Map::<Seq<char>, H>::empty(),
            lists_all(handles@, old(self)@),
    {
        let ghost all = self.entries@;
        let mut handles: Vec<H> = Vec::new();
        while self.entries.len() > 0
            invariant
                handles@.len() + self.entries@.len() == all.len(),
                self.entries@ == all.take(self.entries@.len() as int),
                forall|i: int|
                    0 <= i < handles@.len() ==> #[trigger] handles@[i] == all[all.len() - 1
                        - i].handle,
            decreases self.entries@.len(),
        {
            if let Some(entry) = self.entries.pop() {
                handles.push(entry.handle);
            }
            assert(self.entries@ =~= all.take(self.entries@.len() as int));
        }
        proof {
            assert(names(self.entries@) =~= Seq::<Seq<char>>::empty());
            assert(self@ =~= Map::<Seq<char>, H>::empty());
            let order = names(all).reverse();
            assert forall|i: int| 0 <= i < handles@.len() implies map_of(all).contains_key(
                #[trigger] order[i],
            ) && handles@[i] == map_of(all)[order[i]] by {
                assert(order[i] == all[all.len() - 1 - i].name@);
                lemma_entry(all, all.len() - 1 - i);
            }
            assert forall|i: int, j: int|
                0 <= i < order.len() && 0 <= j < order.len() && i != j implies order[i]
                != order[j] by {
                assert(names(all)[all.len() - 1 - i] != names(all)[all.len() - 1 - j]);
            }
            assert forall|room: Seq<char>| #[trigger]
                map_of(all).contains_key(room) implies order.contains(room) by {
                let i = names(all).index_of(room);
                assert(names(all)[i] == room);
                assert(order[all.len() - 1 - i] == room);
            }
            assert(is_order(order, handles@, map_of(all)));
        }
        handles
    }
}

/// `order` names each room of the map once, and `handles` are their handles.
pub open spec fn is_order<H>(order: Seq<Seq<char>>, handles: Seq<H>, map: Map<Seq<char>, H>) -> bool {
    &&& order.len() == handles.len()
    &&& order.no_duplicates()
    &&& forall|room: Seq<char>| #[trigger] map.contains_key(room) ==> order.contains(room)
    &&& forall|i: int|
        0 <= i < handles.len() ==> map.contains_key(#[trigger] order[i]) && handles[i]
            == map[order[i]]
}

/// The handles are those of the rooms of the map, each once.
pub open spec fn lists_all<H>(handles: Seq<H>, map: Map<Seq<char>, H>) -> bool {
    exists|order: Seq<Seq<char>>| #[trigger] is_order(order, handles, map)
}

/// Leaving a room that was just entered brings the registry back.
pub proof fn law_leaving_undoes_entering<H>(rooms: Map<Seq<char>, H>, room: Seq<char>, handle: H)
    requires
        !rooms.contains_key(room),
    ensures
        rooms.insert(room, handle).remove(room) == rooms,
{
    assert(rooms.insert(room, handle).remove(room) =~= rooms);
}

}
