//! What holds of the registry and of sessions, whatever their state.
use vstd::prelude::*;
use crate::command::{decoded, CommandModel, CREATE_ROOM, JOIN_ROOM};
use crate::frame::FrameModel;
use crate::handshake::accepts;
use crate::registry::{
    lemma_first_is, lemma_first_is_none, listing, RegistryModel, RoomID, RoomModel, UserID,
};
use crate::session::{rejection, ActionModel, EventModel, SessionModel, State};

verus! {

/// A handshake takes a session into the lobby and is answered with the lobby
/// listing. Any other first frame, and the end or failure of the stream
/// before one, closes the session without a reply. Neither touches the
/// registry.
pub proof fn handshake_decides(session: SessionModel, rooms: RegistryModel, event: EventModel)
    requires
        session.state == State::Handshaking,
        event != EventModel::Accepted,
    ensures
        session.step(rooms, event).rooms == rooms,
        (event matches EventModel::Frame(frame) && accepts(frame)) ==> {
            &&& session.step(rooms, event).session.state == State::Lobby
            &&& session.step(rooms, event).action == ActionModel::Send(listing(rooms.names()))
        },
        !(event matches EventModel::Frame(frame) && accepts(frame)) ==> {
            &&& session.step(rooms, event).session.state == State::Closed
            &&& session.step(rooms, event).action == ActionModel::Close
        },
{
}

/// A room that was just created is listed, behind the rooms that were
/// there before.
pub proof fn created_room_is_listed(rooms: RegistryModel, user: UserID, name: Seq<char>)
    ensures
        rooms.create(user, name).names() == rooms.names().push(name),
        rooms.create(user, name).names().contains(name),
{
    let after = rooms.create(user, name);
    assert(after.names() =~= rooms.names().push(name));
    assert(after.names()[rooms.names().len() as int] == name);
}

/// In a registry that has no room called `name`, a join by that name right
/// after `owner` has created the room finds that room, and puts `guest`
/// behind `owner` in it. The other rooms stay as they were.
pub proof fn join_follows_owner(
    rooms: RegistryModel,
    owner: UserID,
    guest: UserID,
    name: Seq<char>,
)
    requires
        !rooms.names().contains(name),
    ensures
        rooms.create(owner, name).joined(name) == Some(rooms.next_id()),
        rooms.create(owner, name).join(guest, name).rooms == rooms.rooms.push(
            RoomModel { id: rooms.next_id(), name, users: seq![owner, guest] },
        ),
{
    let created = rooms.create(owner, name);
    let last = rooms.rooms.len() as int;
    assert forall|j: int| 0 <= j < last implies created.names()[j] != name by {
        assert(created.names()[j] == rooms.names()[j]);
    }
    lemma_first_is(created.names(), name, last);
    assert(seq![owner].push(guest) =~= seq![owner, guest]);
    assert(created.join(guest, name).rooms =~= rooms.rooms.push(
        RoomModel { id: rooms.next_id(), name, users: seq![owner, guest] },
    ));
}

/// A session that is in a room cannot create or join: every create and join
/// command, with or without a name, is answered with the rejection, and
/// neither the session nor the registry changes.
pub proof fn commands_refused_in_room(session: SessionModel, rooms: RegistryModel, data: Seq<u8>)
    requires
        session.state is InRoom,
        data.len() > 0,
        data[0] == CREATE_ROOM || data[0] == JOIN_ROOM,
    ensures
        session.step(rooms, EventModel::Frame(FrameModel::Binary(data))).session == session,
        session.step(rooms, EventModel::Frame(FrameModel::Binary(data))).rooms == rooms,
        session.step(rooms, EventModel::Frame(FrameModel::Binary(data))).action
            == ActionModel::Send(rejection()),
{
}

/// Two such commands in a row are refused alike.
pub proof fn commands_refused_twice(
    session: SessionModel,
    rooms: RegistryModel,
    first: Seq<u8>,
    second: Seq<u8>,
)
    requires
        session.state is InRoom,
        first.len() > 0,
        first[0] == CREATE_ROOM || first[0] == JOIN_ROOM,
        second.len() > 0,
        second[0] == CREATE_ROOM || second[0] == JOIN_ROOM,
    ensures
        ({
            let one = session.step(rooms, EventModel::Frame(FrameModel::Binary(first)));
            let two = one.session.step(one.rooms, EventModel::Frame(FrameModel::Binary(second)));
            &&& one.action == ActionModel::Send(rejection())
            &&& two.action == ActionModel::Send(rejection())
            &&& two.session == session
            &&& two.rooms == rooms
        }),
{
    commands_refused_in_room(session, rooms, first);
    commands_refused_in_room(session, rooms, second);
}

/// When the owner of the room at position `i` leaves, the room is gone: the
/// registry holds the other rooms as before, and the handle names nothing.
/// Where no other room has its name, a join by that name finds nothing.
pub proof fn owner_exit_closes_room(rooms: RegistryModel, i: int, guest: UserID)
    requires
        rooms.wf(),
        0 <= i < rooms.rooms.len(),
    ensures
        ({
            let room = rooms.rooms[i];
            let after = rooms.leave(room.users[0], room.id);
            &&& after.rooms == rooms.rooms.remove(i)
            &&& after.issued == rooms.issued
            &&& !after.ids().contains(room.id)
            &&& (forall|j: int| 0 <= j < rooms.rooms.len() && j != i ==> rooms.rooms[j].name
                != room.name) ==> {
                &&& after.joined(room.name) is None
                &&& after.join(guest, room.name) == after
            }
        }),
{
    let room = rooms.rooms[i];
    let after = rooms.leave(room.users[0], room.id);
    assert forall|j: int| 0 <= j < i implies rooms.ids()[j] != room.id by {
        assert(rooms.rooms[j].id < rooms.rooms[i].id);
    }
    lemma_first_is(rooms.ids(), room.id, i);
    assert forall|j: int| 0 <= j < after.rooms.len() implies after.ids()[j] != room.id by {
        if j < i {
            assert(after.rooms[j] == rooms.rooms[j]);
            assert(rooms.rooms[j].id < rooms.rooms[i].id);
        } else {
            assert(after.rooms[j] == rooms.rooms[j + 1]);
            assert(rooms.rooms[i].id < rooms.rooms[j + 1].id);
        }
    }
    if forall|j: int| 0 <= j < rooms.rooms.len() && j != i ==> rooms.rooms[j].name != room.name {
        assert forall|j: int| 0 <= j < after.names().len() implies after.names()[j]
            != room.name by {
            if j < i {
                assert(after.rooms[j] == rooms.rooms[j]);
            } else {
                assert(after.rooms[j] == rooms.rooms[j + 1]);
            }
        }
        lemma_first_is_none(after.names(), room.name);
    }
}

/// When a member that is not the owner leaves the room at position `i`, the
/// room stays, under its handle and name, with its other members in the
/// order they had. `k` is the member's place in the room.
pub proof fn member_exit_keeps_room(rooms: RegistryModel, i: int, k: int)
    requires
        rooms.wf(),
        0 <= i < rooms.rooms.len(),
        0 < k < rooms.rooms[i].users.len(),
        forall|j: int| 0 <= j < k ==> rooms.rooms[i].users[j] != rooms.rooms[i].users[k],
    ensures
        ({
            let room = rooms.rooms[i];
            let after = rooms.leave(room.users[k], room.id);
            &&& after.rooms == rooms.rooms.update(
                i,
                RoomModel { users: room.users.remove(k), ..room },
            )
            &&& after.issued == rooms.issued
            &&& after.rooms[i].users[0] == room.users[0]
        }),
{
    let room = rooms.rooms[i];
    assert forall|j: int| 0 <= j < i implies rooms.ids()[j] != room.id by {
        assert(rooms.rooms[j].id < rooms.rooms[i].id);
    }
    lemma_first_is(rooms.ids(), room.id, i);
    lemma_first_is(room.users, room.users[k], k);
}

/// A session that ends while in a room leaves that room, and a session that
/// ends otherwise leaves the registry alone. The stream's end, the empty
/// binary frame and a failure of the transport all end a session that reads
/// commands.
pub proof fn closing_leaves_room(session: SessionModel, rooms: RegistryModel, event: EventModel)
    requires
        session.active(),
        event == EventModel::Ended || event == EventModel::Failed || event == EventModel::Frame(
            FrameModel::Binary(Seq::empty()),
        ),
    ensures
        session.step(rooms, event).session.state == State::Closed,
        session.step(rooms, event).rooms == match session.state {
            State::InRoom(room) => rooms.leave(session.id, room),
            _ => rooms,
        },
        session.step(rooms, event).action == if event == EventModel::Failed {
            ActionModel::Abort
        } else {
            ActionModel::Close
        },
{
}

/// The registry after the calls of `create` in `calls`, each a user and a
/// name, one after the other.
pub open spec fn created_all(rooms: RegistryModel, calls: Seq<(UserID, Seq<char>)>) -> RegistryModel
    decreases calls.len(),
{
    if calls.len() == 0 {
        rooms
    } else {
        created_all(rooms, calls.drop_last()).create(calls.last().0, calls.last().1)
    }
}

/// Creates never mix: however many connections create rooms in an empty
/// registry, and in whatever order the registry takes their calls, it ends
/// up with one room for each call, in that order, and the only member of
/// each room is the user that created it.
pub proof fn creates_do_not_mix(calls: Seq<(UserID, Seq<char>)>)
    requires
        calls.len() <= u64::MAX,
    ensures
        created_all(RegistryModel::empty(), calls).wf(),
        created_all(RegistryModel::empty(), calls).issued == calls.len(),
        created_all(RegistryModel::empty(), calls).rooms.len() == calls.len(),
        forall|i: int|
            0 <= i < calls.len() ==> #[trigger] created_all(RegistryModel::empty(), calls).rooms[i]
                == (RoomModel { id: (i + 1) as RoomID, name: calls[i].1, users: seq![calls[i].0] }),
    decreases calls.len(),
{
    if calls.len() > 0 {
        let before = created_all(RegistryModel::empty(), calls.drop_last());
        creates_do_not_mix(calls.drop_last());
        before.lemma_create_wf(calls.last().0, calls.last().1);
        let after = created_all(RegistryModel::empty(), calls);
        assert forall|i: int| 0 <= i < calls.len() implies #[trigger] after.rooms[i] == (RoomModel {
            id: (i + 1) as RoomID,
            name: calls[i].1,
            users: seq![calls[i].0],
        }) by {
            if i < calls.len() - 1 {
                assert(after.rooms[i] == before.rooms[i]);
                assert(calls.drop_last()[i] == calls[i]);
            }
        }
    }
}

/// Every event leaves the registry with its invariant.
pub proof fn step_keeps_registry(session: SessionModel, rooms: RegistryModel, event: EventModel)
    requires
        rooms.wf(),
    ensures
        session.step(rooms, event).rooms.wf(),
{
    match session.state {
        State::InRoom(room) => {
            rooms.lemma_leave_wf(session.id, room);
        },
        _ => {},
    }
    match event {
        EventModel::Frame(FrameModel::Binary(data)) => {
            match decoded(data) {
                CommandModel::Create(name) => {
                    if rooms.issued < u64::MAX {
                        rooms.lemma_create_wf(session.id, name);
                    }
                },
                CommandModel::Join(name) => {
                    rooms.lemma_join_wf(session.id, name);
                },
                _ => {},
            }
        },
        _ => {},
    }
}

} // verus!
