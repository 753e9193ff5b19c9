use vstd::prelude::*;

use crate::keyed_store::KeyedStore;
use crate::room::{project, RegisteredRoom, RegisteredView, Room, RoomView};

verus! {

/// The identifier of a room: the owner's account id followed by the room's
/// name, with no separator.
pub open spec fn room_id(owner_id: Seq<char>, name: Seq<char>) -> Seq<char> {
    owner_id + name
}

/// The registry: an index from each owner to the identifiers of the rooms it
/// registered, in order of registration, and a store from identifier to room.
pub struct Contract {
    rooms_per_owner: KeyedStore<Vec<String>>,
    rooms_by_id: KeyedStore<Room>,
}

impl Contract {
    /// Owner index: owner account id to the room identifiers it registered.
    pub closed spec fn owner_index(&self) -> Map<Seq<char>, Seq<Seq<char>>> {
        self.rooms_per_owner.view_map()
    }

    /// Room store: room identifier to room record.
    pub closed spec fn room_store(&self) -> Map<Seq<char>, RoomView> {
        self.rooms_by_id.view_map()
    }

    /// Both stores hold nothing.
    pub open spec fn is_empty(&self) -> bool {
        &&& self.owner_index() == Map::<Seq<char>, Seq<Seq<char>>>::empty()
        &&& self.room_store() == Map::<Seq<char>, RoomView>::empty()
    }

    /// Every identifier in the owner index names a room of the store.
    pub open spec fn wf(&self) -> bool {
        &&& self.stores_wf()
        &&& forall|o: Seq<char>, i: int|
            #![trigger self.owner_index()[o][i]]
            self.owner_index().contains_key(o) && 0 <= i < self.owner_index()[o].len()
                ==> self.room_store().contains_key(self.owner_index()[o][i])
    }

    pub closed spec fn stores_wf(&self) -> bool {
        self.rooms_per_owner.wf() && self.rooms_by_id.wf()
    }

    /// The identifiers that an owner registered, none if it registered none.
    pub open spec fn rooms_of(&self, owner_id: Seq<char>) -> Seq<Seq<char>> {
        if self.owner_index().contains_key(owner_id) {
            self.owner_index()[owner_id]
        } else {
            Seq::empty()
        }
    }

    /// The listing of an owner's rooms: one entry per identifier in the
    /// owner index, in its order.
    pub open spec fn listing(&self, owner_id: Seq<char>) -> Seq<RegisteredView> {
        self.rooms_of(owner_id).map_values(|id: Seq<char>| project(self.room_store()[id]))
    }

    /// `after` is this registry once the room `r` has been registered by its
    /// owner: the record stands under its identifier, replacing any earlier
    /// one, and the identifier is appended to the owner's list.
    pub open spec fn registers(&self, after: Contract, r: RoomView) -> bool {
        let id = room_id(r.owner_id, r.name);
        &&& after.room_store() == self.room_store().insert(id, r)
        &&& after.owner_index() == self.owner_index().insert(
            r.owner_id,
            self.rooms_of(r.owner_id).push(id),
        )
    }

    pub fn new() -> (r: Contract)
        ensures
            r.wf(),
            r.is_empty(),
    {
        Contract { rooms_per_owner: KeyedStore::new(), rooms_by_id: KeyedStore::new() }
    }

    /// Registers a room owned by `owner_id`. A room already stored under the
    /// same identifier is overwritten, and the identifier is appended to the
    /// owner's list in either case.
    pub fn add_room_to_owner(
        &mut self,
        owner_id: String,
        name: String,
        image: String,
        beds: u8,
        description: String,
        location: String,
        price: u128,
    )
        requires
            old(self).wf(),
        ensures
            final(self).wf(),
            old(self).registers(
                *final(self),
                Room::fresh(owner_id@, name@, image@, beds, description@, location@, price),
            ),
    {
        let room_id = owner_id.clone().concat(name.as_str());
        let new_room = Room::new(owner_id.clone(), name, image, beds, description, location, price);
        self.rooms_by_id.insert(room_id.clone(), new_room);
        let mut rooms: Vec<String> = match self.rooms_per_owner.get(&owner_id) {
            Some(existing) => {
                let copy = existing.clone();
                assert(copy.deep_view() =~= existing.deep_view());
                copy
            },
            None => Vec::new(),
        };
        assert(rooms.deep_view() =~= old(self).rooms_of(owner_id@));
        rooms.push(room_id);
        assert(rooms.deep_view() =~= old(self).rooms_of(owner_id@).push(room_id@));
        self.rooms_per_owner.insert(owner_id, rooms);
    }

    /// Whether a room is stored under the identifier of this owner and name.
    pub fn room_exists(&self, owner_id: String, room_name: String) -> (r: bool)
        ensures
            r == self.room_store().contains_key(room_id(owner_id@, room_name@)),
    {
        let room_id = owner_id.concat(room_name.as_str());
        self.rooms_by_id.contains_key(&room_id)
    }

    /// The listing entries of the rooms that `owner_id` registered, in order
    /// of registration; empty for an owner that registered none.
    pub fn get_rooms_registered_by_owner(&self, owner_id: String) -> (r: Vec<RegisteredRoom>)
        requires
            self.wf(),
        ensures
            r.deep_view() == self.listing(owner_id@),
    {
        let mut registered_rooms: Vec<RegisteredRoom> = Vec::new();
        match self.rooms_per_owner.get(&owner_id) {
            Some(rooms) => {
                let ghost ids = self.rooms_of(owner_id@);
                let mut i: usize = 0;
                while i < rooms.len()
                    invariant
                        i <= rooms@.len(),
                        rooms.deep_view() == ids,
                        ids == self.rooms_of(owner_id@),
                        self.owner_index().contains_key(owner_id@),
                        self.wf(),
                        registered_rooms.deep_view() =~= self.listing(owner_id@).take(i as int),
                    decreases rooms@.len() - i,
                {
                    assert(ids[i as int] == rooms[i as int]@);
                    assert(self.room_store().contains_key(self.owner_index()[owner_id@][i as int]));
                    match self.rooms_by_id.get(&rooms[i]) {
                        Some(room) => {
                            let entry = room.to_registered();
                            let ghost before = registered_rooms.deep_view();
                            registered_rooms.push(entry);
                            assert(registered_rooms.deep_view() =~= before.push(
                                entry.deep_view(),
                            ));
                            assert(self.listing(owner_id@)[i as int] == entry.deep_view());
                        },
                        None => {},
                    }
                    i = i + 1;
                }
                assert(self.listing(owner_id@).take(i as int) =~= self.listing(owner_id@));
            },
            None => {
                assert(self.listing(owner_id@) =~= Seq::<RegisteredView>::empty());
            },
        }
        registered_rooms
    }
}

impl Default for Contract {
    fn default() -> (r: Contract)
        ensures
            r.wf(),
            r.is_empty(),
    {
        Contract::new()
    }
}

/// Two different owners never get the same identifier for rooms of the same
/// name.
pub proof fn lemma_owners_do_not_share_ids(o1: Seq<char>, o2: Seq<char>, name: Seq<char>)
    requires
        o1 != o2,
    ensures
        room_id(o1, name) != room_id(o2, name),
{
    if room_id(o1, name) == room_id(o2, name) {
        assert((o1 + name).len() == o1.len() + name.len());
        assert((o2 + name).len() == o2.len() + name.len());
        assert(o1 =~= room_id(o1, name).subrange(0, o1.len() as int));
        assert(o2 =~= room_id(o2, name).subrange(0, o2.len() as int));
    }
}

/// One owner's rooms of different names get different identifiers.
pub proof fn lemma_names_do_not_share_ids(owner_id: Seq<char>, n1: Seq<char>, n2: Seq<char>)
    requires
        n1 != n2,
    ensures
        room_id(owner_id, n1) != room_id(owner_id, n2),
{
    if room_id(owner_id, n1) == room_id(owner_id, n2) {
        let k = owner_id.len() as int;
        assert(n1 =~= room_id(owner_id, n1).subrange(k, room_id(owner_id, n1).len() as int));
        assert(n2 =~= room_id(owner_id, n2).subrange(k, room_id(owner_id, n2).len() as int));
    }
}

/// Registering a room leaves what another owner has, and whether a room of
/// that owner exists under any name, as it was.
pub proof fn lemma_registration_leaves_other_owners(
    before: Contract,
    after: Contract,
    r: RoomView,
    other: Seq<char>,
)
    requires
        before.registers(after, r),
        other != r.owner_id,
    ensures
        after.rooms_of(other) == before.rooms_of(other),
        after.room_store().contains_key(room_id(other, r.name)) == before.room_store().contains_key(
            room_id(other, r.name),
        ),
{
    lemma_owners_do_not_share_ids(r.owner_id, other, r.name);
}

/// After a room is registered, a room exists under its owner and name.
pub proof fn lemma_registered_room_exists(before: Contract, after: Contract, r: RoomView)
    requires
        before.registers(after, r),
    ensures
        after.room_store().contains_key(room_id(r.owner_id, r.name)),
        after.room_store()[room_id(r.owner_id, r.name)] == r,
{
}

/// Starting from an empty registry, no room exists under an owner and name
/// whose identifier none of the registered rooms has.
pub proof fn lemma_unregistered_room_absent(
    states: Seq<Contract>,
    rooms: Seq<RoomView>,
    owner_id: Seq<char>,
    name: Seq<char>,
)
    requires
        states.len() == rooms.len() + 1,
        states[0].is_empty(),
        forall|i: int| 0 <= i < rooms.len() ==> #[trigger] states[i].registers(states[i + 1], rooms[i]),
        forall|i: int|
            0 <= i < rooms.len() ==> room_id(#[trigger] rooms[i].owner_id, rooms[i].name) != room_id(
                owner_id,
                name,
            ),
    ensures
        !states.last().room_store().contains_key(room_id(owner_id, name)),
    decreases rooms.len(),
{
    if rooms.len() > 0 {
        let n = rooms.len() - 1;
        let s = states.drop_last();
        let rs = rooms.drop_last();
        assert forall|i: int| 0 <= i < rs.len() implies #[trigger] s[i].registers(s[i + 1], rs[i]) by {
            assert(states[i].registers(states[i + 1], rooms[i]));
        }
        assert forall|i: int| 0 <= i < rs.len() implies room_id(#[trigger] rs[i].owner_id, rs[i].name)
            != room_id(owner_id, name) by {
            assert(rooms[i] == rs[i]);
        }
        lemma_unregistered_room_absent(s, rs, owner_id, name);
        assert(states[n].registers(states[n + 1], rooms[n]));
        assert(room_id(rooms[n].owner_id, rooms[n].name) != room_id(owner_id, name));
    }
}

/// Starting from an empty registry, an owner that registered no room has an
/// empty listing.
pub proof fn lemma_owner_without_rooms_lists_nothing(
    states: Seq<Contract>,
    rooms: Seq<RoomView>,
    owner_id: Seq<char>,
)
    requires
        states.len() == rooms.len() + 1,
        states[0].is_empty(),
        forall|i: int| 0 <= i < rooms.len() ==> #[trigger] states[i].registers(states[i + 1], rooms[i]),
        forall|i: int| 0 <= i < rooms.len() ==> #[trigger] rooms[i].owner_id != owner_id,
    ensures
        !states.last().owner_index().contains_key(owner_id),
        states.last().listing(owner_id) == Seq::<RegisteredView>::empty(),
    decreases rooms.len(),
{
    if rooms.len() > 0 {
        let n = rooms.len() - 1;
        let s = states.drop_last();
        let rs = rooms.drop_last();
        assert forall|i: int| 0 <= i < rs.len() implies #[trigger] s[i].registers(s[i + 1], rs[i]) by {
            assert(states[i].registers(states[i + 1], rooms[i]));
        }
        assert forall|i: int| 0 <= i < rs.len() implies #[trigger] rs[i].owner_id != owner_id by {
            assert(rooms[i] == rs[i]);
        }
        lemma_owner_without_rooms_lists_nothing(s, rs, owner_id);
        assert(states[n].registers(states[n + 1], rooms[n]));
        assert(rooms[n].owner_id != owner_id);
    }
    assert(states.last().listing(owner_id) =~= Seq::<RegisteredView>::empty());
}

/// An owner with no rooms who registers two rooms of different names lists
/// exactly those two, in order of registration.
pub proof fn lemma_listing_in_registration_order(
    s0: Contract,
    s1: Contract,
    s2: Contract,
    r1: RoomView,
    r2: RoomView,
)
    requires
        s0.registers(s1, r1),
        s1.registers(s2, r2),
        r1.owner_id == r2.owner_id,
        r1.name != r2.name,
        !s0.owner_index().contains_key(r1.owner_id),
    ensures
        s2.listing(r1.owner_id) == seq![project(r1), project(r2)],
{
    let o = r1.owner_id;
    let id1 = room_id(o, r1.name);
    let id2 = room_id(o, r2.name);
    lemma_names_do_not_share_ids(o, r1.name, r2.name);
    assert(s1.rooms_of(o) =~= seq![id1]);
    assert(s2.rooms_of(o) =~= seq![id1, id2]);
    assert(s2.listing(o) =~= seq![project(r1), project(r2)]);
}

/// Registering a room again under the same owner and name replaces the
/// stored record and appends the identifier a second time: every listing
/// entry under that identifier shows the newest record.
pub proof fn lemma_reregistration_overwrites(
    s0: Contract,
    s1: Contract,
    s2: Contract,
    r1: RoomView,
    r2: RoomView,
)
    requires
        s0.registers(s1, r1),
        s1.registers(s2, r2),
        r1.owner_id == r2.owner_id,
        r1.name == r2.name,
    ensures
        ({
            let o = r1.owner_id;
            let id = room_id(o, r1.name);
            &&& s2.room_store()[id] == r2
            &&& s2.rooms_of(o) == s0.rooms_of(o).push(id).push(id)
            &&& s2.listing(o).len() == s0.listing(o).len() + 2
            &&& forall|i: int|
                0 <= i < s2.listing(o).len() && s2.rooms_of(o)[i] == id ==> s2.listing(o)[i]
                    == project(r2)
        }),
{
}

} // verus!
