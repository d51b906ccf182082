use vstd::prelude::*;
use crate::text::str_eq;

verus! {

/// What is kept of a notification while it is shown: its id, and the room,
/// event and tag it came with.
#[derive(Debug)]
pub struct NotificationData {
    pub id: String,
    pub room_id: Option<String>,
    pub event_id: Option<String>,
    pub tag: Option<String>,
}

/// A copy of an optional string.
pub fn clone_text(text: &Option<String>) -> (copy: Option<String>)
    ensures
        copy == *text,
{
    match text {
        Some(s) => Some(s.clone()),
        None => None,
    }
}

impl Clone for NotificationData {
    fn clone(&self) -> (copy: Self)
        ensures
            copy == *self,
    {
        NotificationData {
            id: self.id.clone(),
            room_id: clone_text(&self.room_id),
            event_id: clone_text(&self.event_id),
            tag: clone_text(&self.tag),
        }
    }
}

/// Whether a notification belongs to the room `room`.
pub open spec fn in_room(data: NotificationData, room: Seq<char>) -> bool {
    match data.room_id {
        Some(r) => r@ == room,
        None => false,
    }
}

/// What a store whose view is `m` gives back for the id `id`.
pub open spec fn lookup(m: Map<Seq<char>, NotificationData>, id: Seq<char>) -> Option<NotificationData> {
    if m.contains_key(id) {
        Some(m[id])
    } else {
        None
    }
}

/// No two entries of `s` share an id.
pub open spec fn ids_distinct(s: Seq<NotificationData>) -> bool {
    forall|i: int, j: int|
        0 <= i < s.len() && 0 <= j < s.len() && i != j ==> (#[trigger] s[i]).id@ != (#[trigger] s[j]).id@
}

/// Some entry of `s` has the id `id`.
pub open spec fn has_id(s: Seq<NotificationData>, id: Seq<char>) -> bool {
    exists|i: int| 0 <= i < s.len() && (#[trigger] s[i]).id@ == id
}

/// The entries of `s` as a map from each id to the entry that carries it.
pub open spec fn map_of(s: Seq<NotificationData>) -> Map<Seq<char>, NotificationData> {
    Map::new(
        |id: Seq<char>| has_id(s, id),
        |id: Seq<char>| s[choose|i: int| 0 <= i < s.len() && (#[trigger] s[i]).id@ == id],
    )
}

/// In a sequence without repeated ids, the map holds each entry under its id.
proof fn lemma_map_of_at(s: Seq<NotificationData>, i: int)
    requires
        ids_distinct(s),
        0 <= i < s.len(),
    ensures
        map_of(s).contains_key(s[i].id@),
        map_of(s)[s[i].id@] == s[i],
{
    let id = s[i].id@;
    assert(has_id(s, id));
    let j = choose|j: int| 0 <= j < s.len() && (#[trigger] s[j]).id@ == id;
    assert(s[j].id@ == id);
    assert(j == i);
}

/// The notifications that are currently shown, keyed by their ids.
pub struct NotificationState {
    entries: Vec<NotificationData>,
}

impl View for NotificationState {
    type V = Map<Seq<char>, NotificationData>;

    closed spec fn view(&self) -> Map<Seq<char>, NotificationData> {
        map_of(self.entries@)
    }
}

impl NotificationState {
    /// The store's invariant: each id is held at most once.
    pub closed spec fn wf(self) -> bool {
        ids_distinct(self.entries@)
    }

    pub fn new() -> (state: Self)
        ensures
            state.wf(),
            state@ == Map::<Seq<char>, NotificationData>::empty(),
    {
        let state = NotificationState { entries: Vec::new() };
        assert(state@ =~= Map::<Seq<char>, NotificationData>::empty());
        state
    }

    /// The position of the entry with the id `id`, if there is one.
    fn find(&self, id: &str) -> (pos: Option<usize>)
        requires
            self.wf(),
        ensures
            match pos {
                Some(i) => i < self.entries@.len() && self.entries@[i as int].id@ == id@,
                None => !has_id(self.entries@, id@),
            },
    {
        let n = self.entries.len();
        for i in 0..n
            invariant
                n == self.entries@.len(),
                forall|j: int| 0 <= j < i ==> (#[trigger] self.entries@[j]).id@ != id@,
        {
            if str_eq(self.entries[i].id.as_str(), id) {
                return Some(i);
            }
        }
        None
    }

    /// Stores `data` under its id, replacing what was stored under that id.
    pub fn add(&mut self, data: NotificationData)
        requires
            old(self).wf(),
        ensures
            final(self).wf(),
            final(self)@ == old(self)@.insert(data.id@, data),
    {
        let ghost s = self.entries@;
        let ghost key = data.id@;
        match self.find(data.id.as_str()) {
            Some(i) => {
                self.entries.set(i, data);
                proof {
                    let t = self.entries@;
                    assert(t == s.update(i as int, data));
                    assert(ids_distinct(t));
                    assert forall|k: Seq<char>| #[trigger] map_of(t).contains_key(k)
                        == (map_of(s).contains_key(k) || k == key) by {
                        if has_id(s, k) {
                            let j = choose|j: int| 0 <= j < s.len() && (#[trigger] s[j]).id@ == k;
                            assert(t[j].id@ == k);
                        }
                        if has_id(t, k) {
                            let j = choose|j: int| 0 <= j < t.len() && (#[trigger] t[j]).id@ == k;
                            if j != i {
                                assert(s[j].id@ == k);
                            }
                        }
                        if k == key {
                            assert(t[i as int].id@ == k);
                        }
                    }
                    assert forall|k: Seq<char>| #[trigger] map_of(t).contains_key(k) implies
                        map_of(t)[k] == map_of(s).insert(key, data)[k] by {
                        let j = choose|j: int| 0 <= j < t.len() && (#[trigger] t[j]).id@ == k;
                        lemma_map_of_at(t, j);
                        if j != i {
                            lemma_map_of_at(s, j);
                        }
                    }
                    assert(map_of(t) =~= map_of(s).insert(key, data));
                }
            },
            None => {
                self.entries.push(data);
                proof {
                    let t = self.entries@;
                    let n = s.len() as int;
                    assert(t == s.push(data));
                    assert(ids_distinct(t));
                    assert forall|k: Seq<char>| #[trigger] map_of(t).contains_key(k)
                        == (map_of(s).contains_key(k) || k == key) by {
                        if has_id(s, k) {
                            let j = choose|j: int| 0 <= j < s.len() && (#[trigger] s[j]).id@ == k;
                            assert(t[j].id@ == k);
                        }
                        if has_id(t, k) {
                            let j = choose|j: int| 0 <= j < t.len() && (#[trigger] t[j]).id@ == k;
                            if j != n {
                                assert(s[j].id@ == k);
                            }
                        }
                        if k == key {
                            assert(t[n].id@ == k);
                        }
                    }
                    assert forall|k: Seq<char>| #[trigger] map_of(t).contains_key(k) implies
                        map_of(t)[k] == map_of(s).insert(key, data)[k] by {
                        let j = choose|j: int| 0 <= j < t.len() && (#[trigger] t[j]).id@ == k;
                        lemma_map_of_at(t, j);
                        if j != n {
                            lemma_map_of_at(s, j);
                        }
                    }
                    assert(map_of(t) =~= map_of(s).insert(key, data));
                }
            },
        }
    }

    /// A copy of the notification stored under `id`, if any.
    pub fn get(&self, id: &str) -> (found: Option<NotificationData>)
        requires
            self.wf(),
        ensures
            found == lookup(self@, id@),
    {
        match self.find(id) {
            Some(i) => {
                proof {
                    lemma_map_of_at(self.entries@, i as int);
                }
                Some(self.entries[i].clone())
            },
            None => None,
        }
    }

    /// Takes the notification stored under `id` out of the store, and returns it.
    pub fn remove(&mut self, id: &str) -> (removed: Option<NotificationData>)
        requires
            old(self).wf(),
        ensures
            final(self).wf(),
            final(self)@ == old(self)@.remove(id@),
            removed == lookup(old(self)@, id@),
    {
        let ghost s = self.entries@;
        let ghost key = id@;
        match self.find(id) {
            Some(i) => {
                proof {
                    lemma_map_of_at(s, i as int);
                }
                let data = self.entries.remove(i);
                proof {
                    let t = self.entries@;
                    assert(t == s.remove(i as int));
                    assert(forall|j: int| 0 <= j < t.len() ==> #[trigger] t[j] == s[if j < i { j } else { j + 1 }]);
                    assert(ids_distinct(t));
                    assert forall|k: Seq<char>| #[trigger] map_of(t).contains_key(k)
                        == (map_of(s).contains_key(k) && k != key) by {
                        if has_id(s, k) && k != key {
                            let j = choose|j: int| 0 <= j < s.len() && (#[trigger] s[j]).id@ == k;
                            assert(j != i);
                            if j < i {
                                assert(t[j].id@ == k);
                            } else {
                                assert(t[j - 1].id@ == k);
                            }
                        }
                        if has_id(t, k) {
                            let j = choose|j: int| 0 <= j < t.len() && (#[trigger] t[j]).id@ == k;
                            if j < i {
                                assert(s[j].id@ == k);
                            } else {
                                assert(s[j + 1].id@ == k);
                            }
                        }
                    }
                    assert forall|k: Seq<char>| #[trigger] map_of(t).contains_key(k) implies
                        map_of(t)[k] == map_of(s).remove(key)[k] by {
                        let j = choose|j: int| 0 <= j < t.len() && (#[trigger] t[j]).id@ == k;
                        lemma_map_of_at(t, j);
                        if j < i {
                            lemma_map_of_at(s, j);
                        } else {
                            lemma_map_of_at(s, j + 1);
                        }
                    }
                    assert(map_of(t) =~= map_of(s).remove(key));
                }
                Some(data)
            },
            None => {
                proof {
                    assert(map_of(s) =~= map_of(s).remove(key));
                }
                None
            },
        }
    }

    /// Copies of the notifications that belong to the room `room_id`, each
    /// once; their order is left open.
    pub fn get_by_room(&self, room_id: &str) -> (found: Vec<NotificationData>)
        requires
            self.wf(),
        ensures
            ids_distinct(found@),
            forall|i: int| 0 <= i < found@.len() ==> {
                &&& self@.contains_key((#[trigger] found@[i]).id@)
                &&& self@[found@[i].id@] == found@[i]
                &&& in_room(found@[i], room_id@)
            },
            forall|k: Seq<char>| #[trigger] self@.contains_key(k) && in_room(self@[k], room_id@)
                ==> has_id(found@, k),
    {
        let ghost s = self.entries@;
        let mut found: Vec<NotificationData> = Vec::new();
        let ghost mut picked: Seq<int> = Seq::empty();
        let n = self.entries.len();
        for i in 0..n
            invariant
                n == s.len(),
                s == self.entries@,
                ids_distinct(s),
                picked.len() == found@.len(),
                forall|a: int, b: int| 0 <= a < b < picked.len() ==> picked[a] < picked[b],
                forall|a: int| 0 <= a < picked.len() ==> {
                    &&& 0 <= #[trigger] picked[a] < i
                    &&& found@[a] == s[picked[a]]
                    &&& in_room(s[picked[a]], room_id@)
                },
                forall|j: int| 0 <= j < i && in_room(#[trigger] s[j], room_id@)
                    ==> exists|a: int| 0 <= a < picked.len() && picked[a] == j,
        {
            let ghost before = picked;
            let here = match &self.entries[i].room_id {
                Some(r) => str_eq(r.as_str(), room_id),
                None => false,
            };
            if here {
                found.push(self.entries[i].clone());
                proof {
                    picked = picked.push(i as int);
                    assert(picked[picked.len() - 1] == i);
                }
            }
            proof {
                assert forall|j: int| 0 <= j < i + 1 && in_room(#[trigger] s[j], room_id@)
                    implies exists|a: int| 0 <= a < picked.len() && picked[a] == j by {
                    if j == i {
                        assert(picked[picked.len() - 1] == j);
                    } else {
                        let a = choose|a: int| 0 <= a < before.len() && before[a] == j;
                        assert(picked[a] == j);
                    }
                }
            }
        }
        proof {
            assert forall|a: int, b: int| 0 <= a < found@.len() && 0 <= b < found@.len() && a != b
                implies (#[trigger] found@[a]).id@ != (#[trigger] found@[b]).id@ by {
                if a < b {
                    assert(picked[a] < picked[b]);
                } else {
                    assert(picked[b] < picked[a]);
                }
            }
            assert forall|a: int| 0 <= a < found@.len() implies {
                &&& self@.contains_key((#[trigger] found@[a]).id@)
                &&& self@[found@[a].id@] == found@[a]
                &&& in_room(found@[a], room_id@)
            } by {
                lemma_map_of_at(s, picked[a]);
            }
            assert forall|k: Seq<char>| #[trigger] self@.contains_key(k) && in_room(self@[k], room_id@)
                implies has_id(found@, k) by {
                let j = choose|j: int| 0 <= j < s.len() && (#[trigger] s[j]).id@ == k;
                lemma_map_of_at(s, j);
                let a = choose|a: int| 0 <= a < picked.len() && picked[a] == j;
                assert(found@[a].id@ == k);
            }
        }
        found
    }

    /// Drops every stored notification.
    pub fn clear(&mut self)
        requires
            old(self).wf(),
        ensures
            final(self).wf(),
            final(self)@ == Map::<Seq<char>, NotificationData>::empty(),
    {
        self.entries.clear();
        assert(self@ =~= Map::<Seq<char>, NotificationData>::empty());
    }
}

impl Default for NotificationState {
    fn default() -> (state: Self)
        ensures
            state.wf(),
            state@ == Map::<Seq<char>, NotificationData>::empty(),
    {
        Self::new()
    }
}

/// Every stored notification is stored under its own id.
pub proof fn lemma_stored_under_own_id(state: NotificationState)
    requires
        state.wf(),
    ensures
        forall|k: Seq<char>| #[trigger] state@.contains_key(k) ==> state@[k].id@ == k,
{
    assert forall|k: Seq<char>| #[trigger] state@.contains_key(k) implies state@[k].id@ == k by {
        let s = state.entries@;
        let j = choose|j: int| 0 <= j < s.len() && (#[trigger] s[j]).id@ == k;
        lemma_map_of_at(s, j);
    }
}

/// Reading an id right after adding a notification under it gives that
/// notification back, and leaves what every other id gives unchanged.
pub proof fn lemma_get_after_add(m: Map<Seq<char>, NotificationData>, data: NotificationData, other: Seq<char>)
    ensures
        lookup(m.insert(data.id@, data), data.id@) == Some(data),
        other != data.id@ ==> lookup(m.insert(data.id@, data), other) == lookup(m, other),
{
}

/// Adding twice under one id keeps only the later notification.
pub proof fn lemma_add_replaces(m: Map<Seq<char>, NotificationData>, first: NotificationData, second: NotificationData)
    requires
        first.id@ == second.id@,
    ensures
        m.insert(first.id@, first).insert(second.id@, second) == m.insert(second.id@, second),
{
    assert(m.insert(first.id@, first).insert(second.id@, second) =~= m.insert(second.id@, second));
}

/// After a removal the id gives nothing, and every other id gives what it gave
/// before; removing what was just added under a new id restores the store.
pub proof fn lemma_get_after_remove(m: Map<Seq<char>, NotificationData>, id: Seq<char>, other: Seq<char>, data: NotificationData)
    ensures
        lookup(m.remove(id), id) == None::<NotificationData>,
        other != id ==> lookup(m.remove(id), other) == lookup(m, other),
        !m.contains_key(data.id@) ==> m.insert(data.id@, data).remove(data.id@) == m,
{
    assert(!m.contains_key(data.id@) ==> m.insert(data.id@, data).remove(data.id@) =~= m);
}

/// After `clear` no id gives anything.
pub proof fn lemma_get_after_clear(id: Seq<char>)
    ensures
        lookup(Map::<Seq<char>, NotificationData>::empty(), id) == None::<NotificationData>,
{
}

/// A notification added with a room is among those `get_by_room` lists for
/// that room afterwards.
pub proof fn lemma_added_is_listed_by_room(m: Map<Seq<char>, NotificationData>, data: NotificationData, room: Seq<char>)
    requires
        in_room(data, room),
    ensures
        m.insert(data.id@, data).contains_key(data.id@),
        in_room(m.insert(data.id@, data)[data.id@], room),
{
}

/// Room membership depends on the room id alone: a notification with room id
/// `r` belongs to exactly the room `r`, one without a room id to no room, and
/// its id, tag and event id play no part.
pub proof fn lemma_room_membership(
    data: NotificationData,
    room: Seq<char>,
    id: String,
    tag: Option<String>,
    event_id: Option<String>,
)
    ensures
        data.room_id matches Some(r) ==> (in_room(data, room) <==> r@ == room),
        data.room_id is None ==> !in_room(data, room),
        in_room(NotificationData { id: id, tag: tag, event_id: event_id, ..data }, room) == in_room(data, room),
{
}

} // verus!
