//! The registry together with the sessions that use it.
//!
//! Sessions and registry are kept by different parties: each connection
//! keeps its own session, and all of them share the registry. What one
//! knows agrees with what the other holds. This module states that
//! agreement and shows that every event keeps it.
use vstd::prelude::*;
use crate::command::{decoded, CommandModel};
use crate::registry::{RegistryModel, RoomID, UserID};
use crate::session::{EventModel, SessionModel, State};

verus! {

/// The registry and the sessions of the connections that are alive, each
/// under its connection's identifier.
pub struct Hub {
    pub rooms: RegistryModel,
    pub sessions: Map<UserID, SessionModel>,
}

impl Hub {
    /// No room and no connection.
    pub open spec fn empty() -> Hub {
        Hub { rooms: RegistryModel::empty(), sessions: Map::empty() }
    }

    /// The member at place `k` of the room at position `i` is a connection
    /// that is alive and knows itself to be in that room.
    pub open spec fn seated(self, i: int, k: int) -> bool {
        let room = self.rooms.rooms[i];
        &&& self.sessions.contains_key(room.users[k])
        &&& self.sessions[room.users[k]].state == State::InRoom(room.id)
    }

    /// The session of `user` is filed under its own identifier. Where it
    /// holds a handle, the handle was issued, and the room that it names, if
    /// it is still open, has `user` among its members.
    pub open spec fn bound(self, user: UserID) -> bool {
        &&& self.sessions[user].id == user
        &&& match self.sessions[user].state {
            State::InRoom(room) => {
                &&& 1 <= room <= self.rooms.issued
                &&& forall|i: int|
                    0 <= i < self.rooms.rooms.len() && (#[trigger] self.rooms.rooms[i]).id == room
                        ==> self.rooms.rooms[i].users.contains(user)
            },
            _ => true,
        }
    }

    /// Sessions and registry agree: the registry keeps its invariant; every
    /// member of every room is a connection that is alive and knows itself
    /// to be in that room; nobody is in a room twice; and every session is
    /// bound to the registry as `bound` says.
    pub open spec fn consistent(self) -> bool {
        &&& self.rooms.wf()
        &&& forall|i: int, k: int|
            0 <= i < self.rooms.rooms.len() && 0 <= k < self.rooms.rooms[i].users.len()
                ==> #[trigger] self.seated(i, k)
        &&& forall|i: int|
            0 <= i < self.rooms.rooms.len() ==> (
            #[trigger] self.rooms.rooms[i]).users.no_duplicates()
        &&& forall|user: UserID| self.sessions.contains_key(user) ==> #[trigger] self.bound(user)
    }

    /// The hub with a new connection `user`.
    pub open spec fn connect(self, user: UserID) -> Hub {
        Hub { sessions: self.sessions.insert(user, SessionModel::connecting(user)), ..self }
    }

    /// The hub after connection `user` has taken `event`. A session that
    /// closes is no longer kept.
    pub open spec fn step(self, user: UserID, event: EventModel) -> Hub {
        let next = self.sessions[user].step(self.rooms, event);
        Hub {
            rooms: next.rooms,
            sessions: if next.session.state == State::Closed {
                self.sessions.remove(user)
            } else {
                self.sessions.insert(user, next.session)
            },
        }
    }

    /// A connection that is in no room is a member of none.
    proof fn lemma_outsider(self, user: UserID, i: int, k: int)
        requires
            self.consistent(),
            self.sessions.contains_key(user) ==> !(self.sessions[user].state is InRoom),
            0 <= i < self.rooms.rooms.len(),
            0 <= k < self.rooms.rooms[i].users.len(),
        ensures
            self.rooms.rooms[i].users[k] != user,
    {
        assert(self.seated(i, k));
    }

    /// A connection is a member of the room that its handle names, and of
    /// no other.
    proof fn lemma_insider(self, user: UserID, room: RoomID, i: int, k: int)
        requires
            self.consistent(),
            self.sessions.contains_key(user),
            self.sessions[user].state == State::InRoom(room),
            0 <= i < self.rooms.rooms.len(),
            0 <= k < self.rooms.rooms[i].users.len(),
            self.rooms.rooms[i].users[k] == user,
        ensures
            self.rooms.rooms[i].id == room,
    {
        assert(self.seated(i, k));
    }

    /// A change of one session that neither enters nor leaves a room, and
    /// the arrival of a connection, keep the agreement.
    proof fn lemma_quiet(self, user: UserID, session: SessionModel)
        requires
            self.consistent(),
            session.id == user,
            self.sessions.contains_key(user) ==> (self.sessions[user].state is InRoom
                || session.state is InRoom ==> session.state == self.sessions[user].state),
            !self.sessions.contains_key(user) ==> !(session.state is InRoom),
        ensures
            (Hub { sessions: self.sessions.insert(user, session), ..self }).consistent(),
    {
        let after = Hub { sessions: self.sessions.insert(user, session), ..self };
        assert forall|i: int, k: int|
            0 <= i < after.rooms.rooms.len() && 0 <= k < after.rooms.rooms[i].users.len()
            implies #[trigger] after.seated(i, k) by {
            assert(self.seated(i, k));
        }
        assert forall|u: UserID| after.sessions.contains_key(u) implies #[trigger] after.bound(
            u,
        ) by {
            if u != user || self.sessions.contains_key(user) {
                assert(self.bound(u));
            }
        }
    }

    /// The end of a session that is in no room keeps the agreement.
    proof fn lemma_gone(self, user: UserID)
        requires
            self.consistent(),
            self.sessions.contains_key(user) ==> !(self.sessions[user].state is InRoom),
        ensures
            (Hub { sessions: self.sessions.remove(user), ..self }).consistent(),
    {
        let after = Hub { sessions: self.sessions.remove(user), ..self };
        assert forall|i: int, k: int|
            0 <= i < after.rooms.rooms.len() && 0 <= k < after.rooms.rooms[i].users.len()
            implies #[trigger] after.seated(i, k) by {
            assert(self.seated(i, k));
            self.lemma_outsider(user, i, k);
        }
        assert forall|u: UserID| after.sessions.contains_key(u) implies #[trigger] after.bound(
            u,
        ) by {
            assert(self.bound(u));
        }
    }

    /// A connection in the lobby that creates a room keeps the agreement.
    proof fn lemma_create(self, user: UserID, name: Seq<char>)
        requires
            self.consistent(),
            self.sessions.contains_key(user),
            !(self.sessions[user].state is InRoom),
            self.rooms.issued < u64::MAX,
        ensures
            (Hub {
                rooms: self.rooms.create(user, name),
                sessions: self.sessions.insert(
                    user,
                    self.sessions[user].at(State::InRoom(self.rooms.next_id())),
                ),
            }).consistent(),
    {
        let after = Hub {
            rooms: self.rooms.create(user, name),
            sessions: self.sessions.insert(
                user,
                self.sessions[user].at(State::InRoom(self.rooms.next_id())),
            ),
        };
        let last = self.rooms.rooms.len() as int;
        self.rooms.lemma_create_wf(user, name);
        assert(self.bound(user));
        assert forall|i: int, k: int|
            0 <= i < after.rooms.rooms.len() && 0 <= k < after.rooms.rooms[i].users.len()
            implies #[trigger] after.seated(i, k) by {
            if i < last {
                assert(after.rooms.rooms[i] == self.rooms.rooms[i]);
                assert(self.seated(i, k));
                self.lemma_outsider(user, i, k);
            }
        }
        assert forall|i: int| 0 <= i < after.rooms.rooms.len() implies (
        #[trigger] after.rooms.rooms[i]).users.no_duplicates() by {
            if i < last {
                assert(after.rooms.rooms[i] == self.rooms.rooms[i]);
            }
        }
        assert forall|u: UserID| after.sessions.contains_key(u) implies #[trigger] after.bound(
            u,
        ) by {
            assert(self.bound(u));
            if u == user {
                assert forall|i: int|
                    0 <= i < after.rooms.rooms.len() && (#[trigger] after.rooms.rooms[i]).id
                        == self.rooms.next_id() implies after.rooms.rooms[i].users.contains(
                    user,
                ) by {
                    if i < last {
                        assert(after.rooms.rooms[i] == self.rooms.rooms[i]);
                    } else {
                        assert(after.rooms.rooms[i].users[0] == user);
                    }
                }
            } else {
                match self.sessions[u].state {
                    State::InRoom(room) => {
                        assert forall|i: int|
                            0 <= i < after.rooms.rooms.len() && (
                            #[trigger] after.rooms.rooms[i]).id
                                == room implies after.rooms.rooms[i].users.contains(u) by {
                            if i < last {
                                assert(after.rooms.rooms[i] == self.rooms.rooms[i]);
                            }
                        }
                    },
                    _ => {},
                }
            }
        }
    }

    /// A connection in the lobby that joins a room keeps the agreement.
    proof fn lemma_join(self, user: UserID, name: Seq<char>)
        requires
            self.consistent(),
            self.sessions.contains_key(user),
            !(self.sessions[user].state is InRoom),
            self.rooms.joined(name) is Some,
        ensures
            (Hub {
                rooms: self.rooms.join(user, name),
                sessions: self.sessions.insert(
                    user,
                    self.sessions[user].at(State::InRoom(self.rooms.joined(name)->0)),
                ),
            }).consistent(),
    {
        let room = self.rooms.joined(name)->0;
        let after = Hub {
            rooms: self.rooms.join(user, name),
            sessions: self.sessions.insert(user, self.sessions[user].at(State::InRoom(room))),
        };
        self.rooms.names().index_of_first_ensures(name);
        let at = self.rooms.names().index_of_first(name)->0;
        let before = self.rooms.rooms[at].users;
        self.rooms.lemma_join_wf(user, name);
        assert(self.bound(user));
        assert forall|i: int| 0 <= i < after.rooms.rooms.len() implies (
        #[trigger] after.rooms.rooms[i]).id == self.rooms.rooms[i].id by {
            if i != at {
                assert(after.rooms.rooms[i] == self.rooms.rooms[i]);
            }
        }
        assert forall|i: int, k: int|
            0 <= i < after.rooms.rooms.len() && 0 <= k < after.rooms.rooms[i].users.len()
            implies #[trigger] after.seated(i, k) by {
            if i != at {
                assert(after.rooms.rooms[i] == self.rooms.rooms[i]);
            }
            if i != at || k < before.len() {
                assert(self.seated(i, k));
                self.lemma_outsider(user, i, k);
            }
        }
        assert forall|i: int| 0 <= i < after.rooms.rooms.len() implies (
        #[trigger] after.rooms.rooms[i]).users.no_duplicates() by {
            if i != at {
                assert(after.rooms.rooms[i] == self.rooms.rooms[i]);
            } else {
                assert(self.rooms.rooms[at].users.no_duplicates());
                assert forall|k: int| 0 <= k < before.len() implies before[k] != user by {
                    self.lemma_outsider(user, at, k);
                }
            }
        }
        assert forall|u: UserID| after.sessions.contains_key(u) implies #[trigger] after.bound(
            u,
        ) by {
            assert(self.bound(u));
            match after.sessions[u].state {
                State::InRoom(held) => {
                    assert forall|i: int|
                        0 <= i < after.rooms.rooms.len() && (#[trigger] after.rooms.rooms[i]).id
                            == held implies after.rooms.rooms[i].users.contains(u) by {
                        if i != at {
                            assert(after.rooms.rooms[i] == self.rooms.rooms[i]);
                        } else if u == user {
                            assert(after.rooms.rooms[at].users[before.len() as int] == user);
                        } else {
                            assert(self.rooms.rooms[at].id == held);
                            let k = choose|k: int| 0 <= k < before.len() && before[k] == u;
                            assert(after.rooms.rooms[at].users[k] == u);
                        }
                    }
                },
                _ => {},
            }
        }
    }

    /// The end of a session that is in a room keeps the agreement.
    proof fn lemma_leave(self, user: UserID, room: RoomID)
        requires
            self.consistent(),
            self.sessions.contains_key(user),
            self.sessions[user].state == State::InRoom(room),
        ensures
            (Hub {
                rooms: self.rooms.leave(user, room),
                sessions: self.sessions.remove(user),
            }).consistent(),
    {
        let after = Hub {
            rooms: self.rooms.leave(user, room),
            sessions: self.sessions.remove(user),
        };
        self.rooms.lemma_leave_wf(user, room);
        self.rooms.ids().index_of_first_ensures(room);
        match self.rooms.ids().index_of_first(room) {
            None => {
                assert forall|i: int, k: int|
                    0 <= i < after.rooms.rooms.len() && 0 <= k < after.rooms.rooms[i].users.len()
                    implies #[trigger] after.seated(i, k) by {
                    assert(self.seated(i, k));
                    if self.rooms.rooms[i].users[k] == user {
                        assert(self.rooms.ids()[i] == room);
                    }
                }
                assert forall|u: UserID| after.sessions.contains_key(u) implies
                    #[trigger] after.bound(u) by {
                    assert(self.bound(u));
                }
            },
            Some(at) => {
                let before = self.rooms.rooms[at].users;
                if before[0] == user {
                    assert forall|i: int| 0 <= i < after.rooms.rooms.len() implies
                        #[trigger] after.rooms.rooms[i] == self.rooms.rooms[if i < at {
                        i
                    } else {
                        i + 1
                    }] by {}
                    assert forall|i: int, k: int|
                        0 <= i < after.rooms.rooms.len() && 0 <= k
                            < after.rooms.rooms[i].users.len() implies #[trigger] after.seated(
                        i,
                        k,
                    ) by {
                        let j = if i < at {
                            i
                        } else {
                            i + 1
                        };
                        assert(self.seated(j, k));
                        if self.rooms.rooms[j].users[k] == user {
                            self.lemma_insider(user, room, j, k);
                            assert(self.rooms.rooms[j].id != self.rooms.rooms[at].id);
                        }
                    }
                    assert forall|i: int| 0 <= i < after.rooms.rooms.len() implies (
                    #[trigger] after.rooms.rooms[i]).users.no_duplicates() by {
                        let j = if i < at {
                            i
                        } else {
                            i + 1
                        };
                        assert(self.rooms.rooms[j].users.no_duplicates());
                    }
                    assert forall|u: UserID| after.sessions.contains_key(u) implies
                        #[trigger] after.bound(u) by {
                        assert(self.bound(u));
                        match self.sessions[u].state {
                            State::InRoom(held) => {
                                assert forall|i: int|
                                    0 <= i < after.rooms.rooms.len() && (
                                    #[trigger] after.rooms.rooms[i]).id
                                        == held implies after.rooms.rooms[i].users.contains(u) by {
                                    let j = if i < at {
                                        i
                                    } else {
                                        i + 1
                                    };
                                    assert(self.rooms.rooms[j].id == held);
                                }
                            },
                            _ => {},
                        }
                    }
                } else {
                    assert(self.rooms.rooms[at].users.no_duplicates());
                    assert(self.bound(user));
                    assert(before.contains(user));
                    before.index_of_first_ensures(user);
                    let place = before.index_of_first(user)->0;
                    let rest = before.remove(place);
                    assert forall|i: int| 0 <= i < after.rooms.rooms.len() implies (
                    #[trigger] after.rooms.rooms[i]).id == self.rooms.rooms[i].id by {
                        if i != at {
                            assert(after.rooms.rooms[i] == self.rooms.rooms[i]);
                        }
                    }
                    assert forall|i: int, k: int|
                        0 <= i < after.rooms.rooms.len() && 0 <= k
                            < after.rooms.rooms[i].users.len() implies #[trigger] after.seated(
                        i,
                        k,
                    ) by {
                        if i != at {
                            assert(after.rooms.rooms[i] == self.rooms.rooms[i]);
                            assert(self.seated(i, k));
                            if self.rooms.rooms[i].users[k] == user {
                                self.lemma_insider(user, room, i, k);
                                assert(self.rooms.rooms[i].id != self.rooms.rooms[at].id);
                            }
                        } else {
                            let j = if k < place {
                                k
                            } else {
                                k + 1
                            };
                            assert(rest[k] == before[j]);
                            assert(self.seated(at, j));
                        }
                    }
                    assert forall|i: int| 0 <= i < after.rooms.rooms.len() implies (
                    #[trigger] after.rooms.rooms[i]).users.no_duplicates() by {
                        if i != at {
                            assert(after.rooms.rooms[i] == self.rooms.rooms[i]);
                        } else {
                            assert forall|k: int, l: int|
                                0 <= k < rest.len() && 0 <= l < rest.len() && k != l implies rest[k]
                                != rest[l] by {
                                let a = if k < place {
                                    k
                                } else {
                                    k + 1
                                };
                                let b = if l < place {
                                    l
                                } else {
                                    l + 1
                                };
                                assert(rest[k] == before[a] && rest[l] == before[b]);
                            }
                        }
                    }
                    assert forall|u: UserID| after.sessions.contains_key(u) implies
                        #[trigger] after.bound(u) by {
                        assert(self.bound(u));
                        match self.sessions[u].state {
                            State::InRoom(held) => {
                                assert forall|i: int|
                                    0 <= i < after.rooms.rooms.len() && (
                                    #[trigger] after.rooms.rooms[i]).id
                                        == held implies after.rooms.rooms[i].users.contains(u) by {
                                    if i != at {
                                        assert(after.rooms.rooms[i] == self.rooms.rooms[i]);
                                    } else {
                                        assert(self.rooms.rooms[at].id == held);
                                        let j = choose|j: int|
                                            0 <= j < before.len() && before[j] == u;
                                        let k = if j < place {
                                            j
                                        } else {
                                            j - 1
                                        };
                                        assert(rest[k] == u);
                                    }
                                }
                            },
                            _ => {},
                        }
                    }
                }
            },
        }
    }

    /// The agreement holds before anything has happened.
    pub proof fn empty_is_consistent()
        ensures
            Hub::empty().consistent(),
    {
    }

    /// A new connection keeps the agreement.
    pub proof fn connect_keeps_consistency(self, user: UserID)
        requires
            self.consistent(),
            !self.sessions.contains_key(user),
        ensures
            self.connect(user).consistent(),
    {
        self.lemma_quiet(user, SessionModel::connecting(user));
    }

    /// Every event of every connection keeps the agreement.
    pub proof fn step_keeps_consistency(self, user: UserID, event: EventModel)
        requires
            self.consistent(),
            self.sessions.contains_key(user),
        ensures
            self.step(user, event).consistent(),
    {
        let session = self.sessions[user];
        let next = session.step(self.rooms, event);
        assert(self.bound(user));
        if next.session.state == State::Closed {
            match session.state {
                State::InRoom(room) => {
                    self.lemma_leave(user, room);
                },
                _ => {
                    self.lemma_gone(user);
                },
            }
        } else if next.rooms == self.rooms && (session.state is InRoom
            || next.session.state is InRoom ==> next.session.state == session.state) {
            self.lemma_quiet(user, next.session);
        } else {
            let data = event->Frame_0->Binary_0;
            match decoded(data) {
                CommandModel::Create(name) => {
                    self.lemma_create(user, name);
                },
                CommandModel::Join(name) => {
                    self.lemma_join(user, name);
                },
                _ => {},
            }
        }
    }
}

} // verus!
