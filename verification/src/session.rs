//! The life of one connection.
//!
//! A connection is accepted, shakes hands, and then sends commands until it
//! closes. `Session::step` decides what each event does: how the session and
//! the registry change, and what the program around this library has to do
//! next. The program reads the events from the transport and carries the
//! actions out.
use vstd::prelude::*;
use crate::command::{decoded, dispatched, packet_receive, Reply};
use crate::frame::{Frame, FrameModel};
use crate::handshake::{accepts, read_metadata, Metadata};
use crate::lines::lines_of;
use crate::registry::{listing, Registry, RegistryModel, RoomID, UserID};

verus! {

/// Where a connection stands.
#[derive(Clone, Copy, Debug, PartialEq, Eq, Structural)]
pub enum State {
    /// The transport has not finished accepting the connection.
    Connecting,
    /// The connection is accepted and owes its handshake.
    Handshaking,
    /// The handshake is done and the connection is in no room.
    Lobby,
    /// The connection is in the room that the handle names.
    InRoom(RoomID),
    /// The connection is over.
    Closed,
}

/// What the transport reports of a connection.
#[derive(Debug, PartialEq, Eq)]
pub enum Event {
    /// The transport has accepted the connection.
    Accepted,
    /// A frame has arrived.
    Frame(Frame),
    /// The stream of frames has ended.
    Ended,
    /// The transport has failed.
    Failed,
}

/// What an event holds.
pub enum EventModel {
    Accepted,
    Frame(FrameModel),
    Ended,
    Failed,
}

impl View for Event {
    type V = EventModel;

    open spec fn view(&self) -> EventModel {
        match self {
            Event::Accepted => EventModel::Accepted,
            Event::Frame(frame) => EventModel::Frame(frame@),
            Event::Ended => EventModel::Ended,
            Event::Failed => EventModel::Failed,
        }
    }
}

/// What the program has to do after an event.
#[derive(Debug, PartialEq, Eq)]
pub enum Action {
    /// Send nothing and wait for the next event.
    Continue,
    /// Send this text frame and wait for the next event.
    Send(String),
    /// End the connection without sending anything.
    Close,
    /// End the connection as failed, without sending anything.
    Abort,
}

/// What an action holds.
pub enum ActionModel {
    Continue,
    Send(Seq<char>),
    Close,
    Abort,
}

impl View for Action {
    type V = ActionModel;

    open spec fn view(&self) -> ActionModel {
        match self {
            Action::Continue => ActionModel::Continue,
            Action::Send(text) => ActionModel::Send(text@),
            Action::Close => ActionModel::Close,
            Action::Abort => ActionModel::Abort,
        }
    }
}

/// The text that tells a client that its command was refused.
pub open spec fn rejection() -> Seq<char> {
    "oopsies"@
}

/// What a session is: whose it is, where it stands, and what the client
/// said of itself in its handshake.
pub struct SessionModel {
    pub id: UserID,
    pub state: State,
    pub metadata: Option<Seq<Seq<char>>>,
}

/// A session and the registry after an event, with the action that the
/// event asks for.
pub struct Step {
    pub session: SessionModel,
    pub rooms: RegistryModel,
    pub action: ActionModel,
}

impl SessionModel {
    /// A session that waits for the transport to accept its connection.
    pub open spec fn connecting(id: UserID) -> Self {
        SessionModel { id, state: State::Connecting, metadata: None }
    }

    /// The room that the session is in.
    pub open spec fn room(self) -> Option<RoomID> {
        match self.state {
            State::InRoom(room) => Some(room),
            _ => None,
        }
    }

    /// Whether the session reads commands.
    pub open spec fn active(self) -> bool {
        self.state == State::Lobby || self.state is InRoom
    }

    /// The session in state `state`.
    pub open spec fn at(self, state: State) -> Self {
        SessionModel { state, ..self }
    }

    /// The registry once the session has gone: a session that is in a room
    /// leaves it.
    pub open spec fn departed(self, rooms: RegistryModel) -> RegistryModel {
        match self.state {
            State::InRoom(room) => rooms.leave(self.id, room),
            _ => rooms,
        }
    }

    /// The end of the session, with `action` as its last action.
    pub open spec fn close(self, rooms: RegistryModel, action: ActionModel) -> Step {
        Step { session: self.at(State::Closed), rooms: self.departed(rooms), action }
    }

    /// What a binary frame does to a session that reads commands.
    pub open spec fn command(self, rooms: RegistryModel, data: Seq<u8>) -> Step {
        let done = dispatched(self.id, self.room(), decoded(data), rooms);
        match done.reply {
            Reply::Accepted => Step {
                session: match done.room {
                    Some(room) => self.at(State::InRoom(room)),
                    None => self,
                },
                rooms: done.rooms,
                action: ActionModel::Continue,
            },
            Reply::Rejected => Step {
                session: self,
                rooms,
                action: ActionModel::Send(rejection()),
            },
            Reply::Ignored => Step { session: self, rooms, action: ActionModel::Continue },
            Reply::Disconnect => self.close(rooms, ActionModel::Close),
        }
    }

    /// What `event` does to the session and to the registry.
    ///
    /// While connecting, the session waits to be accepted. The first frame
    /// after that must be the handshake: it is answered with the lobby
    /// listing, and anything else ends the session without a word. From then
    /// on binary frames are commands and all other frames are passed over.
    /// The session ends with the stream, with the empty binary frame, or
    /// with a failure of the transport; a session that ends while in a room
    /// leaves the room. Nothing happens to a session that is closed.
    pub open spec fn step(self, rooms: RegistryModel, event: EventModel) -> Step {
        match self.state {
            State::Connecting => match event {
                EventModel::Accepted => Step {
                    session: self.at(State::Handshaking),
                    rooms,
                    action: ActionModel::Continue,
                },
                EventModel::Ended => self.close(rooms, ActionModel::Close),
                _ => self.close(rooms, ActionModel::Abort),
            },
            State::Handshaking => match event {
                EventModel::Accepted => Step {
                    session: self,
                    rooms,
                    action: ActionModel::Continue,
                },
                EventModel::Frame(frame) => if accepts(frame) {
                    Step {
                        session: SessionModel {
                            state: State::Lobby,
                            metadata: Some(lines_of(frame->Text_0)),
                            ..self
                        },
                        rooms,
                        action: ActionModel::Send(listing(rooms.names())),
                    }
                } else {
                    self.close(rooms, ActionModel::Close)
                },
                _ => self.close(rooms, ActionModel::Close),
            },
            State::Lobby | State::InRoom(_) => match event {
                EventModel::Frame(FrameModel::Binary(data)) => self.command(rooms, data),
                EventModel::Ended => self.close(rooms, ActionModel::Close),
                EventModel::Failed => self.close(rooms, ActionModel::Abort),
                _ => Step { session: self, rooms, action: ActionModel::Continue },
            },
            State::Closed => Step { session: self, rooms, action: ActionModel::Close },
        }
    }
}

/// The session of one connection.
#[derive(Debug)]
pub struct Session {
    id: UserID,
    state: State,
    metadata: Option<Metadata>,
}

impl View for Session {
    type V = SessionModel;

    closed spec fn view(&self) -> SessionModel {
        SessionModel {
            id: self.id,
            state: self.state,
            metadata: match self.metadata {
                Some(metadata) => Some(metadata@),
                None => None,
            },
        }
    }
}

impl Session {
    /// The session of connection `id`, before the transport has accepted it.
    pub fn new(id: UserID) -> (session: Session)
        ensures
            session@ == SessionModel::connecting(id),
    {
        Session { id, state: State::Connecting, metadata: None }
    }

    /// The identifier of the connection.
    pub fn id(&self) -> (id: UserID)
        ensures
            id == self@.id,
    {
        self.id
    }

    /// Where the session stands.
    pub fn state(&self) -> (state: State)
        ensures
            state == self@.state,
    {
        self.state
    }

    /// The room that the session is in.
    pub fn room(&self) -> (room: Option<RoomID>)
        ensures
            room == self@.room(),
    {
        match self.state {
            State::InRoom(room) => Some(room),
            _ => None,
        }
    }

    /// What the client said of itself, once its handshake is accepted.
    pub fn metadata(&self) -> (metadata: Option<&Metadata>)
        ensures
            match metadata {
                Some(m) => self@.metadata == Some(m@),
                None => self@.metadata is None,
            },
    {
        self.metadata.as_ref()
    }

    /// Ends the session with `action`: a session that is in a room leaves it.
    fn close(&mut self, rooms: &mut Registry, action: Action) -> (last: Action)
        ensures
            last == action,
            (Step { session: final(self)@, rooms: final(rooms)@, action: action@ }) == old(
                self,
            )@.close(old(rooms)@, action@),
    {
        match self.state {
            State::InRoom(room) => {
                rooms.leave(self.id, room);
            },
            _ => {},
        }
        self.state = State::Closed;
        action
    }

    /// Takes one event of the connection: changes the session and the
    /// registry as `SessionModel::step` says, and returns what to do next.
    pub fn step(&mut self, rooms: &mut Registry, event: Event) -> (action: Action)
        ensures
            (Step { session: final(self)@, rooms: final(rooms)@, action: action@ }) == old(
                self,
            )@.step(old(rooms)@, event@),
    {
        match self.state {
            State::Connecting => match event {
                Event::Accepted => {
                    self.state = State::Handshaking;
                    Action::Continue
                },
                Event::Ended => self.close(rooms, Action::Close),
                _ => self.close(rooms, Action::Abort),
            },
            State::Handshaking => match event {
                Event::Accepted => Action::Continue,
                Event::Frame(frame) => match read_metadata(&frame) {
                    Some(metadata) => {
                        self.state = State::Lobby;
                        self.metadata = Some(metadata);
                        Action::Send(rooms.concat_room_names())
                    },
                    None => self.close(rooms, Action::Close),
                },
                _ => self.close(rooms, Action::Close),
            },
            State::Lobby | State::InRoom(_) => match event {
                Event::Frame(Frame::Binary(data)) => {
                    let mut room = self.room();
                    match packet_receive(self.id, &mut room, data.as_slice(), rooms) {
                        Reply::Accepted => {
                            match room {
                                Some(room) => {
                                    self.state = State::InRoom(room);
                                },
                                None => {},
                            }
                            Action::Continue
                        },
                        Reply::Rejected => Action::Send("oopsies".to_owned()),
                        Reply::Ignored => Action::Continue,
                        Reply::Disconnect => self.close(rooms, Action::Close),
                    }
                },
                Event::Ended => self.close(rooms, Action::Close),
                Event::Failed => self.close(rooms, Action::Abort),
                _ => Action::Continue,
            },
            State::Closed => Action::Close,
        }
    }
}

} // verus!
