//! The binary command protocol.
//!
//! After the handshake a client sends binary frames. The first byte of a
//! frame is the opcode, the rest is the opcode's argument: the name of the
//! room to create or to join, in UTF-8. Bytes that are no valid UTF-8 do not
//! spoil a name; the replacement character stands in for them. A frame
//! without any byte says that the client is leaving.
use vstd::prelude::*;
use vstd::slice::slice_subrange;
use crate::registry::{Registry, RegistryModel, RoomID, UserID};
use crate::text::{from_utf8_lossy, utf8_lossy};

verus! {

/// Opcode of the command that creates a room.
pub const CREATE_ROOM: u8 = 1;

/// Opcode of the command that joins a room.
pub const JOIN_ROOM: u8 = 2;

/// A command as a client sent it.
#[derive(Debug, PartialEq, Eq)]
pub enum Command {
    /// Create a room of this name.
    Create(String),
    /// Join the room of this name.
    Join(String),
    /// A create or join command without a name.
    Nameless,
    /// A frame with an opcode that the protocol does not know.
    Unknown,
    /// The empty frame: the client leaves.
    Disconnect,
}

/// What a command says.
pub enum CommandModel {
    Create(Seq<char>),
    Join(Seq<char>),
    Nameless,
    Unknown,
    Disconnect,
}

impl View for Command {
    type V = CommandModel;

    open spec fn view(&self) -> CommandModel {
        match self {
            Command::Create(name) => CommandModel::Create(name@),
            Command::Join(name) => CommandModel::Join(name@),
            Command::Nameless => CommandModel::Nameless,
            Command::Unknown => CommandModel::Unknown,
            Command::Disconnect => CommandModel::Disconnect,
        }
    }
}

/// What became of a command.
#[derive(Clone, Copy, Debug, PartialEq, Eq, Structural)]
pub enum Reply {
    /// The command was carried out. The client hears nothing.
    Accepted,
    /// The command was refused and changed nothing. The client is told.
    Rejected,
    /// The frame was no command and changed nothing. The client hears nothing.
    Ignored,
    /// The client leaves.
    Disconnect,
}

/// The command that a binary frame holds.
pub open spec fn decoded(bytes: Seq<u8>) -> CommandModel {
    if bytes.len() == 0 {
        CommandModel::Disconnect
    } else if bytes[0] != CREATE_ROOM && bytes[0] != JOIN_ROOM {
        CommandModel::Unknown
    } else if bytes.len() == 1 {
        CommandModel::Nameless
    } else if bytes[0] == CREATE_ROOM {
        CommandModel::Create(utf8_lossy(bytes.skip(1)))
    } else {
        CommandModel::Join(utf8_lossy(bytes.skip(1)))
    }
}

/// A connection's membership and the registry after a command, with the
/// reply that the command gets.
pub struct Dispatched {
    pub room: Option<RoomID>,
    pub rooms: RegistryModel,
    pub reply: Reply,
}

/// What `command` does when `user`, whose membership is `room`, sends it.
///
/// A connection is in one room at most: create and join are refused while
/// it is in one. Create is also refused without a name or when the registry
/// has no handle left, join when no room has the name. A command that is
/// carried out puts the connection into the room. Nothing else changes
/// anything.
pub open spec fn dispatched(
    user: UserID,
    room: Option<RoomID>,
    command: CommandModel,
    rooms: RegistryModel,
) -> Dispatched {
    match command {
        CommandModel::Create(name) => if room is None && name.len() > 0 && rooms.issued
            < u64::MAX {
            Dispatched {
                room: Some(rooms.next_id()),
                rooms: rooms.create(user, name),
                reply: Reply::Accepted,
            }
        } else {
            Dispatched { room, rooms, reply: Reply::Rejected }
        },
        CommandModel::Join(name) => if room is None && rooms.joined(name) is Some {
            Dispatched {
                room: rooms.joined(name),
                rooms: rooms.join(user, name),
                reply: Reply::Accepted,
            }
        } else {
            Dispatched { room, rooms, reply: Reply::Rejected }
        },
        CommandModel::Nameless => Dispatched { room, rooms, reply: Reply::Rejected },
        CommandModel::Unknown => Dispatched { room, rooms, reply: Reply::Ignored },
        CommandModel::Disconnect => Dispatched { room, rooms, reply: Reply::Disconnect },
    }
}

/// Decodes one binary frame.
pub fn decode(bytes: &[u8]) -> (command: Command)
    ensures
        command@ == decoded(bytes@),
{
    let len = bytes.len();
    if len == 0 {
        return Command::Disconnect;
    }
    let opcode = bytes[0];
    if opcode != CREATE_ROOM && opcode != JOIN_ROOM {
        return Command::Unknown;
    }
    if len == 1 {
        return Command::Nameless;
    }
    let name = from_utf8_lossy(slice_subrange(bytes, 1, len));
    assert(bytes@.subrange(1, len as int) == bytes@.skip(1));
    if opcode == CREATE_ROOM {
        Command::Create(name)
    } else {
        Command::Join(name)
    }
}

/// Carries out a decoded command for `user`, whose membership is `room`.
pub fn dispatch(
    user: UserID,
    room: &mut Option<RoomID>,
    command: Command,
    rooms: &mut Registry,
) -> (reply: Reply)
    ensures
        (Dispatched { room: *final(room), rooms: final(rooms)@, reply }) == dispatched(
            user,
            *old(room),
            command@,
            old(rooms)@,
        ),
{
    match command {
        Command::Create(name) => {
            if room.is_some() {
                return Reply::Rejected;
            }
            match rooms.create(user, name) {
                Ok(id) => {
                    *room = Some(id);
                    Reply::Accepted
                },
                Err(_) => Reply::Rejected,
            }
        },
        Command::Join(name) => {
            if room.is_some() {
                return Reply::Rejected;
            }
            match rooms.join(user, name) {
                Some(id) => {
                    *room = Some(id);
                    Reply::Accepted
                },
                None => Reply::Rejected,
            }
        },
        Command::Nameless => Reply::Rejected,
        Command::Unknown => Reply::Ignored,
        Command::Disconnect => Reply::Disconnect,
    }
}

/// Decodes one binary frame from `user`, whose membership is `room`, and
/// carries the command out.
pub fn packet_receive(
    user: UserID,
    room: &mut Option<RoomID>,
    bytes: &[u8],
    rooms: &mut Registry,
) -> (reply: Reply)
    ensures
        (Dispatched { room: *final(room), rooms: final(rooms)@, reply }) == dispatched(
            user,
            *old(room),
            decoded(bytes@),
            old(rooms)@,
        ),
{
    let command = decode(bytes);
    dispatch(user, room, command, rooms)
}

} // verus!
