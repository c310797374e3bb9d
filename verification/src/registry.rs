//! The shared registry of rooms.
//!
//! A room is a named group of connections. Its first member is its owner:
//! the room lives until the owner leaves. Every room carries a handle that
//! is issued once and never reused, so a handle held by a connection keeps
//! naming the same room however the registry changes around it.
//!
//! Whatever changes the registry takes it by `&mut`: no two operations ever
//! overlap. A program that shares one registry among its tasks keeps it
//! behind a single lock.
use vstd::prelude::*;
use crate::lines::texts;
use crate::text::{lemma_trimmed_end_is, trim_end, trimmed_end};

verus! {

/// Identifier of a connection.
pub type UserID = u32;

/// Handle of a room: the count of rooms created up to and including it.
pub type RoomID = u64;

/// What a room is: its handle, its name and its members in order of arrival.
pub struct RoomModel {
    pub id: RoomID,
    pub name: Seq<char>,
    pub users: Seq<UserID>,
}

/// What a connection is in a room. Rooms keep no record of it: the owner
/// is whoever stands first among the members.
#[derive(Clone, Copy, Debug, PartialEq, Eq, Structural)]
pub enum Role {
    /// The first member, with whom the room stands and falls.
    Owner,
    /// Any other member.
    Member,
}

/// What a registry is: its rooms in order of creation, and how many handles
/// it has issued so far.
pub struct RegistryModel {
    pub rooms: Seq<RoomModel>,
    pub issued: nat,
}

impl RegistryModel {
    /// The registry without rooms that has issued no handle yet.
    pub open spec fn empty() -> Self {
        RegistryModel { rooms: Seq::empty(), issued: 0 }
    }

    /// No room is without members, and handles grow with the position: every
    /// handle was issued, and none names two rooms.
    pub open spec fn wf(self) -> bool {
        &&& self.issued <= u64::MAX
        &&& forall|i: int| 0 <= i < self.rooms.len() ==> (#[trigger] self.rooms[i]).users.len() > 0
        &&& forall|i: int|
            0 <= i < self.rooms.len() ==> 1 <= (#[trigger] self.rooms[i]).id <= self.issued
        &&& forall|i: int, j: int|
            0 <= i < j < self.rooms.len() ==> (#[trigger] self.rooms[i]).id < (
            #[trigger] self.rooms[j]).id
    }

    /// The names of the rooms, in registry order.
    pub open spec fn names(self) -> Seq<Seq<char>> {
        Seq::new(self.rooms.len(), |i: int| self.rooms[i].name)
    }

    /// The handles of the rooms, in registry order.
    pub open spec fn ids(self) -> Seq<RoomID> {
        Seq::new(self.rooms.len(), |i: int| self.rooms[i].id)
    }

    /// The handle that the next room gets.
    pub open spec fn next_id(self) -> RoomID {
        (self.issued + 1) as RoomID
    }

    /// The registry after `user` has opened a room called `name`.
    pub open spec fn create(self, user: UserID, name: Seq<char>) -> Self {
        RegistryModel {
            rooms: self.rooms.push(RoomModel { id: self.next_id(), name, users: seq![user] }),
            issued: self.issued + 1,
        }
    }

    /// The room at position `i` with `user` as its newest member.
    pub open spec fn with_member(self, i: int, user: UserID) -> Self {
        RegistryModel {
            rooms: self.rooms.update(
                i,
                RoomModel { users: self.rooms[i].users.push(user), ..self.rooms[i] },
            ),
            ..self
        }
    }

    /// The room at position `i` without the first entry of `user`.
    pub open spec fn without_member(self, i: int, user: UserID) -> Self {
        RegistryModel {
            rooms: self.rooms.update(
                i,
                RoomModel { users: self.rooms[i].users.remove_value(user), ..self.rooms[i] },
            ),
            ..self
        }
    }

    /// The registry without the room at position `i`.
    pub open spec fn without_room(self, i: int) -> Self {
        RegistryModel { rooms: self.rooms.remove(i), ..self }
    }

    /// The registry after `user` has asked to join the room called `name`:
    /// the first room of that name takes the user in; without such a room
    /// nothing changes.
    pub open spec fn join(self, user: UserID, name: Seq<char>) -> Self {
        match self.names().index_of_first(name) {
            Some(i) => self.with_member(i, user),
            None => self,
        }
    }

    /// The handle that a join by `name` returns.
    pub open spec fn joined(self, name: Seq<char>) -> Option<RoomID> {
        match self.names().index_of_first(name) {
            Some(i) => Some(self.rooms[i].id),
            None => None,
        }
    }

    /// What `user` is in the room that `handle` names: nothing where no such
    /// room is open or `user` is not among its members.
    pub open spec fn role(self, user: UserID, handle: RoomID) -> Option<Role> {
        match self.ids().index_of_first(handle) {
            Some(i) => if self.rooms[i].users[0] == user {
                Some(Role::Owner)
            } else if self.rooms[i].users.contains(user) {
                Some(Role::Member)
            } else {
                None
            },
            None => None,
        }
    }

    /// The registry after `user` has left the room that `handle` names. The
    /// owner takes the room with it; any other user only gives up its place.
    /// A handle that names no room changes nothing.
    pub open spec fn leave(self, user: UserID, handle: RoomID) -> Self {
        match self.ids().index_of_first(handle) {
            Some(i) => if self.rooms[i].users[0] == user {
                self.without_room(i)
            } else {
                self.without_member(i, user)
            },
            None => self,
        }
    }
}

/// Every name followed by a line feed, one after the other.
pub open spec fn name_lines(names: Seq<Seq<char>>) -> Seq<char>
    decreases names.len(),
{
    if names.len() == 0 {
        Seq::empty()
    } else {
        name_lines(names.drop_last()) + names.last() + seq!['\n']
    }
}

/// The lobby listing of rooms called `names`: one name to a line, without
/// the white space that would end the text.
pub open spec fn listing(names: Seq<Seq<char>>) -> Seq<char> {
    trimmed_end(name_lines(names))
}

impl RegistryModel {
    /// Opening a room keeps the invariant while handles are left.
    pub proof fn lemma_create_wf(self, user: UserID, name: Seq<char>)
        requires
            self.wf(),
            self.issued < u64::MAX,
        ensures
            self.create(user, name).wf(),
    {
        let after = self.create(user, name);
        assert forall|i: int| 0 <= i < after.rooms.len() implies (
        #[trigger] after.rooms[i]).users.len() > 0 && 1 <= after.rooms[i].id <= after.issued by {
            if i < self.rooms.len() {
                assert(after.rooms[i] == self.rooms[i]);
            }
        }
        assert forall|i: int, j: int| 0 <= i < j < after.rooms.len() implies (
        #[trigger] after.rooms[i]).id < (#[trigger] after.rooms[j]).id by {
            assert(after.rooms[i] == self.rooms[i]);
            if j < self.rooms.len() {
                assert(after.rooms[j] == self.rooms[j]);
            }
        }
    }

    /// Joining keeps the invariant.
    pub proof fn lemma_join_wf(self, user: UserID, name: Seq<char>)
        requires
            self.wf(),
        ensures
            self.join(user, name).wf(),
    {
        self.names().index_of_first_ensures(name);
        match self.names().index_of_first(name) {
            Some(k) => {
                let after = self.with_member(k, user);
                assert forall|i: int| 0 <= i < after.rooms.len() implies (
                #[trigger] after.rooms[i]).users.len() > 0 && after.rooms[i].id
                    == self.rooms[i].id by {
                    if i != k {
                        assert(after.rooms[i] == self.rooms[i]);
                    }
                }
            },
            None => {},
        }
    }

    /// Leaving keeps the invariant.
    pub proof fn lemma_leave_wf(self, user: UserID, handle: RoomID)
        requires
            self.wf(),
        ensures
            self.leave(user, handle).wf(),
    {
        self.ids().index_of_first_ensures(handle);
        match self.ids().index_of_first(handle) {
            Some(k) => {
                let after = self.leave(user, handle);
                if self.rooms[k].users[0] == user {
                    assert forall|i: int| 0 <= i < after.rooms.len() implies
                        #[trigger] after.rooms[i] == self.rooms[if i < k {
                        i
                    } else {
                        i + 1
                    }] by {}
                } else {
                    let users = self.rooms[k].users;
                    users.index_of_first_ensures(user);
                    assert(users.remove_value(user).len() > 0);
                    assert forall|i: int| 0 <= i < after.rooms.len() implies (
                    #[trigger] after.rooms[i]).users.len() > 0 && after.rooms[i].id
                        == self.rooms[i].id by {
                        if i != k {
                            assert(after.rooms[i] == self.rooms[i]);
                        }
                    }
                }
            },
            None => {},
        }
    }
}

/// A room of the registry.
#[derive(Debug, PartialEq, Eq)]
pub struct Room {
    id: RoomID,
    name: String,
    users: Vec<UserID>,
}

impl View for Room {
    type V = RoomModel;

    closed spec fn view(&self) -> RoomModel {
        RoomModel { id: self.id, name: self.name@, users: self.users@ }
    }
}

impl Room {
    /// The handle of the room.
    pub fn id(&self) -> (id: RoomID)
        ensures
            id == self@.id,
    {
        self.id
    }

    /// The name of the room.
    pub fn name(&self) -> (name: &String)
        ensures
            name@ == self@.name,
    {
        &self.name
    }

    /// The members of the room, the owner first.
    pub fn users(&self) -> (users: &Vec<UserID>)
        ensures
            users@ == self@.users,
    {
        &self.users
    }
}

/// Why a room could not be created.
#[derive(Clone, Copy, Debug, PartialEq, Eq, Structural)]
pub enum CreateError {
    /// The name is empty.
    EmptyName,
    /// Every handle has been issued.
    HandlesExhausted,
}

/// The rooms that are open, in order of creation.
#[derive(Debug)]
pub struct Registry {
    rooms: Vec<Room>,
    issued: u64,
}

/// What the rooms of a registry are.
pub open spec fn models(rooms: Seq<Room>) -> Seq<RoomModel> {
    Seq::new(rooms.len(), |i: int| rooms[i]@)
}

impl View for Registry {
    type V = RegistryModel;

    closed spec fn view(&self) -> RegistryModel {
        RegistryModel { rooms: models(self.rooms@), issued: self.issued as nat }
    }
}

impl Registry {
    #[verifier::type_invariant]
    spec fn well_formed(&self) -> bool {
        self@.wf()
    }

    /// A registry without rooms.
    pub fn new() -> (registry: Registry)
        ensures
            registry@ == RegistryModel::empty(),
    {
        let registry = Registry { rooms: Vec::new(), issued: 0 };
        assert(registry@.rooms =~= Seq::empty());
        registry
    }

    /// The number of rooms.
    pub fn len(&self) -> (n: usize)
        ensures
            self@.wf(),
            n == self@.rooms.len(),
    {
        proof {
            use_type_invariant(self);
        }
        self.rooms.len()
    }

    /// The names of the rooms, in registry order.
    pub fn list_names(&self) -> (names: Vec<String>)
        ensures
            names@.len() == self@.rooms.len(),
            texts(names@) == self@.names(),
    {
        let mut names: Vec<String> = Vec::new();
        let mut i: usize = 0;
        while i < self.rooms.len()
            invariant
                i <= self.rooms.len(),
                names.len() == i,
                forall|j: int| 0 <= j < i ==> names@[j]@ == self.rooms@[j].name@,
            decreases self.rooms.len() - i,
        {
            names.push(self.rooms[i].name.clone());
            i = i + 1;
        }
        assert(texts(names@) =~= self@.names());
        names
    }

    /// The lobby listing: the names of the rooms in registry order, one to a
    /// line, without white space at the end of the text. Empty where no room
    /// is open.
    pub fn concat_room_names(&self) -> (text: String)
        ensures
            text@ == listing(self@.names()),
            text@.len() > 0 ==> text@.last() != '\n',
    {
        let mut result = String::new();
        let mut i: usize = 0;
        assert(self@.names().take(0) =~= Seq::<Seq<char>>::empty());
        while i < self.rooms.len()
            invariant
                i <= self.rooms.len(),
                result@ == name_lines(self@.names().take(i as int)),
            decreases self.rooms.len() - i,
        {
            result.append(self.rooms[i].name.as_str());
            result.append("\n");
            proof {
                reveal_strlit("\n");
                let done = self@.names().take(i + 1);
                assert(done.drop_last() =~= self@.names().take(i as int));
                assert("\n"@ =~= seq!['\n']);
            }
            i = i + 1;
        }
        assert(self@.names().take(i as int) =~= self@.names());
        let trimmed = trim_end(result.as_str());
        proof {
            lemma_trimmed_end_is(result@, trimmed@.len() as int);
        }
        trimmed.to_owned()
    }

    /// Position of the first room called `name`.
    fn named(&self, name: &String) -> (result: Option<usize>)
        ensures
            match result {
                Some(i) => i < self.rooms.len() && self@.names().index_of_first(name@) == Some(
                    i as int,
                ),
                None => self@.names().index_of_first(name@) == None::<int>,
            },
    {
        let mut i: usize = 0;
        while i < self.rooms.len()
            invariant
                i <= self.rooms.len(),
                forall|j: int| 0 <= j < i ==> self@.names()[j] != name@,
            decreases self.rooms.len() - i,
        {
            if self.rooms[i].name == *name {
                proof {
                    lemma_first_is(self@.names(), name@, i as int);
                }
                return Some(i);
            }
            i = i + 1;
        }
        proof {
            lemma_first_is_none(self@.names(), name@);
        }
        None
    }

    /// Position of the room that `handle` names.
    fn position(&self, handle: RoomID) -> (result: Option<usize>)
        ensures
            match result {
                Some(i) => i < self.rooms.len() && self@.ids().index_of_first(handle) == Some(
                    i as int,
                ),
                None => self@.ids().index_of_first(handle) == None::<int>,
            },
    {
        let mut i: usize = 0;
        while i < self.rooms.len()
            invariant
                i <= self.rooms.len(),
                forall|j: int| 0 <= j < i ==> self@.ids()[j] != handle,
            decreases self.rooms.len() - i,
        {
            if self.rooms[i].id == handle {
                proof {
                    lemma_first_is(self@.ids(), handle, i as int);
                }
                return Some(i);
            }
            i = i + 1;
        }
        proof {
            lemma_first_is_none(self@.ids(), handle);
        }
        None
    }

    /// The room that `handle` names, while it is open.
    pub fn find_room(&self, handle: RoomID) -> (result: Option<&Room>)
        ensures
            match result {
                Some(room) => {
                    &&& self@.ids().index_of_first(handle) matches Some(i)
                    &&& room@ == self@.rooms[i]
                },
                None => self@.ids().index_of_first(handle) == None::<int>,
            },
    {
        match self.position(handle) {
            Some(i) => {
                proof {
                    self@.ids().index_of_first_ensures(handle);
                }
                Some(&self.rooms[i])
            },
            None => None,
        }
    }

    /// What `user` is in the room that `handle` names.
    pub fn role(&self, user: UserID, handle: RoomID) -> (role: Option<Role>)
        ensures
            role == self@.role(user, handle),
    {
        proof {
            use_type_invariant(self);
            self@.ids().index_of_first_ensures(handle);
        }
        match self.position(handle) {
            Some(i) => {
                let users = &self.rooms[i].users;
                proof {
                    users@.index_of_first_ensures(user);
                }
                if users[0] == user {
                    Some(Role::Owner)
                } else if position_of(users, user).is_some() {
                    Some(Role::Member)
                } else {
                    None
                }
            },
            None => None,
        }
    }

    /// Opens a room called `name` with `user` as its owner and only member,
    /// behind the rooms that exist, and returns its handle. An empty name is
    /// refused. Names need not differ: a room is opened whether or not
    /// another has the same name.
    pub fn create(&mut self, user: UserID, name: String) -> (result: Result<RoomID, CreateError>)
        ensures
            old(self)@.wf(),
            final(self)@.wf(),
            match result {
                Ok(id) => {
                    &&& name@.len() > 0
                    &&& old(self)@.issued < u64::MAX
                    &&& id == old(self)@.next_id()
                    &&& final(self)@ == old(self)@.create(user, name@)
                },
                Err(CreateError::EmptyName) => name@.len() == 0 && final(self)@ == old(self)@,
                Err(CreateError::HandlesExhausted) => {
                    &&& name@.len() > 0
                    &&& old(self)@.issued == u64::MAX
                    &&& final(self)@ == old(self)@
                },
            },
    {
        proof {
            use_type_invariant(&*self);
        }
        if name.as_str().is_empty() {
            return Err(CreateError::EmptyName);
        }
        if self.issued == u64::MAX {
            return Err(CreateError::HandlesExhausted);
        }
        let id = self.issued + 1;
        let mut users: Vec<UserID> = Vec::new();
        users.push(user);
        let room = Room { id, name, users };
        let mut rooms: Vec<Room> = Vec::new();
        std::mem::swap(&mut rooms, &mut self.rooms);
        self.issued = id;
        rooms.push(room);
        proof {
            assert(room@.users =~= seq![user]);
            assert(models(rooms@) =~= old(self)@.create(user, name@).rooms);
            old(self)@.lemma_create_wf(user, name@);
        }
        self.rooms = rooms;
        Ok(id)
    }

    /// Takes `user` into the first room called `name`, behind its members,
    /// and returns the room's handle; `None` where no room has that name.
    pub fn join(&mut self, user: UserID, name: String) -> (result: Option<RoomID>)
        ensures
            old(self)@.wf(),
            final(self)@.wf(),
            final(self)@ == old(self)@.join(user, name@),
            result == old(self)@.joined(name@),
    {
        proof {
            use_type_invariant(&*self);
            self@.lemma_join_wf(user, name@);
        }
        match self.named(&name) {
            Some(i) => {
                let mut rooms: Vec<Room> = Vec::new();
                std::mem::swap(&mut rooms, &mut self.rooms);
                let id = rooms[i].id;
                rooms[i].users.push(user);
                proof {
                    assert(models(rooms@) =~= old(self)@.with_member(i as int, user).rooms);
                }
                self.rooms = rooms;
                Some(id)
            },
            None => None,
        }
    }

    /// Takes `user` out of the room that `handle` names. Where `user` is the
    /// owner, the first member, the whole room is closed and its other
    /// members are left with a handle that names nothing. Any other user
    /// gives up its place and the rest keep their order. A handle that names
    /// no open room changes nothing.
    pub fn leave(&mut self, user: UserID, handle: RoomID)
        ensures
            old(self)@.wf(),
            final(self)@.wf(),
            final(self)@ == old(self)@.leave(user, handle),
    {
        proof {
            use_type_invariant(&*self);
            self@.lemma_leave_wf(user, handle);
            self@.ids().index_of_first_ensures(handle);
        }
        match self.position(handle) {
            Some(i) => {
                let mut rooms: Vec<Room> = Vec::new();
                std::mem::swap(&mut rooms, &mut self.rooms);
                if rooms[i].users[0] == user {
                    rooms.remove(i);
                    proof {
                        assert(models(rooms@) =~= old(self)@.without_room(i as int).rooms);
                    }
                } else {
                    match position_of(&rooms[i].users, user) {
                        Some(k) => {
                            rooms[i].users.remove(k);
                        },
                        None => {},
                    }
                    proof {
                        let before = old(self)@.rooms[i as int].users;
                        assert(rooms@[i as int]@.users =~= before.remove_value(user));
                        assert(models(rooms@) =~= old(self)@.without_member(i as int, user).rooms);
                    }
                }
                self.rooms = rooms;
            },
            None => {},
        }
    }
}

/// First position of `user` among `users`.
fn position_of(users: &Vec<UserID>, user: UserID) -> (result: Option<usize>)
    ensures
        match result {
            Some(k) => k < users.len() && users@.index_of_first(user) == Some(k as int),
            None => users@.index_of_first(user) == None::<int>,
        },
{
    let mut k: usize = 0;
    while k < users.len()
        invariant
            k <= users.len(),
            forall|j: int| 0 <= j < k ==> users@[j] != user,
        decreases users.len() - k,
    {
        if users[k] == user {
            proof {
                lemma_first_is(users@, user, k as int);
            }
            return Some(k);
        }
        k = k + 1;
    }
    proof {
        lemma_first_is_none(users@, user);
    }
    None
}

/// `k` is the first position of `x` in `s` where it holds `x` and no earlier
/// position does.
pub proof fn lemma_first_is<A>(s: Seq<A>, x: A, k: int)
    requires
        0 <= k < s.len(),
        s[k] == x,
        forall|j: int| 0 <= j < k ==> s[j] != x,
    ensures
        s.index_of_first(x) == Some(k),
{
    s.index_of_first_ensures(x);
    assert(s.contains(x));
}

/// `x` has no first position in `s` where no position holds it.
pub proof fn lemma_first_is_none<A>(s: Seq<A>, x: A)
    requires
        forall|j: int| 0 <= j < s.len() ==> s[j] != x,
    ensures
        s.index_of_first(x) == None::<int>,
{
    s.index_of_first_ensures(x);
}

} // verus!
