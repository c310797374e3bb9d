use lobby_rooms::frame::Frame;
use lobby_rooms::handshake::Field;
use lobby_rooms::registry::Registry;
use lobby_rooms::session::{Action, Event, Session, State};

const HANDSHAKE: &str = "agent\n4\n8\nvendor\nrenderer\nen\nwifi\n50\n0\nUTC";

fn handshake() -> Event {
    Event::Frame(Frame::Text(String::from(HANDSHAKE)))
}

fn command(opcode: u8, name: &str) -> Event {
    let mut bytes = vec![opcode];
    bytes.extend_from_slice(name.as_bytes());
    Event::Frame(Frame::Binary(bytes))
}

fn oopsies() -> Action {
    Action::Send(String::from("oopsies"))
}

fn in_lobby(id: u32, rooms: &mut Registry) -> Session {
    let mut session = Session::new(id);
    assert_eq!(session.step(rooms, Event::Accepted), Action::Continue);
    assert!(matches!(session.step(rooms, handshake()), Action::Send(_)));
    assert_eq!(session.state(), State::Lobby);
    session
}

fn members(rooms: &Registry, handle: u64) -> Option<Vec<u32>> {
    rooms.find_room(handle).map(|room| room.users().clone())
}

#[test]
fn new_session_is_connecting() {
    let session = Session::new(5);
    assert_eq!(session.id(), 5);
    assert_eq!(session.state(), State::Connecting);
    assert_eq!(session.room(), None);
    assert!(session.metadata().is_none());
}

#[test]
fn accept_leads_to_the_handshake() {
    let mut rooms = Registry::new();
    let mut session = Session::new(1);
    assert_eq!(session.step(&mut rooms, Event::Accepted), Action::Continue);
    assert_eq!(session.state(), State::Handshaking);
}

#[test]
fn failure_before_accept_aborts() {
    let mut rooms = Registry::new();
    let mut session = Session::new(1);
    assert_eq!(session.step(&mut rooms, Event::Failed), Action::Abort);
    assert_eq!(session.state(), State::Closed);
    let mut ended = Session::new(2);
    assert_eq!(ended.step(&mut rooms, Event::Ended), Action::Close);
    assert_eq!(ended.state(), State::Closed);
}

#[test]
fn handshake_is_answered_with_the_listing() {
    let mut rooms = Registry::new();
    rooms.create(8, String::from("alpha")).unwrap();
    rooms.create(9, String::from("beta")).unwrap();
    let mut session = Session::new(1);
    session.step(&mut rooms, Event::Accepted);
    let action = session.step(&mut rooms, handshake());
    assert_eq!(action, Action::Send(String::from("alpha\nbeta")));
    assert_eq!(session.state(), State::Lobby);
    assert_eq!(session.metadata().unwrap().get(Field::Timezone), "UTC");
    assert_eq!(session.metadata().unwrap().get(Field::UserAgent), "agent");
}

#[test]
fn handshake_in_an_empty_lobby_is_answered_with_an_empty_text() {
    let mut rooms = Registry::new();
    let mut session = Session::new(1);
    session.step(&mut rooms, Event::Accepted);
    assert_eq!(session.step(&mut rooms, handshake()), Action::Send(String::new()));
}

#[test]
fn wrong_field_count_closes_without_reply() {
    let mut rooms = Registry::new();
    let mut session = Session::new(1);
    session.step(&mut rooms, Event::Accepted);
    let action = session.step(&mut rooms, Event::Frame(Frame::Text(String::from("a\nb\nc"))));
    assert_eq!(action, Action::Close);
    assert_eq!(session.state(), State::Closed);
    assert!(session.metadata().is_none());
}

#[test]
fn binary_first_frame_closes_without_reply() {
    let mut rooms = Registry::new();
    let mut session = Session::new(1);
    session.step(&mut rooms, Event::Accepted);
    assert_eq!(session.step(&mut rooms, command(1, "lobbyA")), Action::Close);
    assert_eq!(session.state(), State::Closed);
    assert_eq!(rooms.len(), 0);
}

#[test]
fn empty_first_frame_closes_without_reply() {
    let mut rooms = Registry::new();
    let mut text = Session::new(1);
    text.step(&mut rooms, Event::Accepted);
    assert_eq!(text.step(&mut rooms, Event::Frame(Frame::Text(String::new()))), Action::Close);
    let mut binary = Session::new(2);
    binary.step(&mut rooms, Event::Accepted);
    assert_eq!(binary.step(&mut rooms, Event::Frame(Frame::Binary(Vec::new()))), Action::Close);
    assert_eq!(binary.state(), State::Closed);
}

#[test]
fn stream_end_before_handshake_closes_without_reply() {
    let mut rooms = Registry::new();
    let mut ended = Session::new(1);
    ended.step(&mut rooms, Event::Accepted);
    assert_eq!(ended.step(&mut rooms, Event::Ended), Action::Close);
    let mut failed = Session::new(2);
    failed.step(&mut rooms, Event::Accepted);
    assert_eq!(failed.step(&mut rooms, Event::Failed), Action::Close);
    let mut control = Session::new(3);
    control.step(&mut rooms, Event::Accepted);
    assert_eq!(control.step(&mut rooms, Event::Frame(Frame::Control)), Action::Close);
    assert_eq!(control.state(), State::Closed);
}

#[test]
fn create_enters_a_room_in_silence() {
    let mut rooms = Registry::new();
    let mut session = in_lobby(1, &mut rooms);
    assert_eq!(session.step(&mut rooms, command(1, "lobbyA")), Action::Continue);
    assert_eq!(session.state(), State::InRoom(1));
    assert_eq!(session.room(), Some(1));
    let mut other = in_lobby(2, &mut rooms);
    other.step(&mut rooms, Event::Accepted);
    assert_eq!(rooms.list_names(), vec![String::from("lobbyA")]);
}

#[test]
fn join_enters_the_room_behind_the_owner() {
    let mut rooms = Registry::new();
    let mut owner = in_lobby(1, &mut rooms);
    let mut guest = in_lobby(2, &mut rooms);
    owner.step(&mut rooms, command(1, "lobbyA"));
    assert_eq!(guest.step(&mut rooms, command(2, "lobbyA")), Action::Continue);
    assert_eq!(guest.room(), owner.room());
    assert_eq!(members(&rooms, 1), Some(vec![1, 2]));
    assert_eq!(guest.step(&mut rooms, command(2, "lobbyA")), oopsies());
    assert_eq!(members(&rooms, 1), Some(vec![1, 2]));
    assert_eq!(guest.state(), State::InRoom(1));
}

#[test]
fn join_of_missing_room_is_told() {
    let mut rooms = Registry::new();
    let mut session = in_lobby(1, &mut rooms);
    assert_eq!(session.step(&mut rooms, command(2, "nowhere")), oopsies());
    assert_eq!(session.state(), State::Lobby);
}

#[test]
fn commands_without_name_are_told() {
    let mut rooms = Registry::new();
    let mut session = in_lobby(1, &mut rooms);
    assert_eq!(session.step(&mut rooms, Event::Frame(Frame::Binary(vec![1]))), oopsies());
    assert_eq!(session.step(&mut rooms, Event::Frame(Frame::Binary(vec![2]))), oopsies());
    assert_eq!(session.state(), State::Lobby);
    assert_eq!(rooms.len(), 0);
}

#[test]
fn create_twice_while_in_a_room_is_told_twice() {
    let mut rooms = Registry::new();
    let mut session = in_lobby(1, &mut rooms);
    session.step(&mut rooms, command(1, "mine"));
    assert_eq!(session.step(&mut rooms, command(1, "second")), oopsies());
    assert_eq!(session.room(), Some(1));
    assert_eq!(session.step(&mut rooms, command(1, "third")), oopsies());
    assert_eq!(session.room(), Some(1));
    assert_eq!(session.state(), State::InRoom(1));
    assert_eq!(rooms.list_names(), vec![String::from("mine")]);
    assert_eq!(members(&rooms, 1), Some(vec![1]));
}

#[test]
fn unknown_opcode_is_passed_over() {
    let mut rooms = Registry::new();
    let mut session = in_lobby(1, &mut rooms);
    assert_eq!(session.step(&mut rooms, command(3, "lobbyA")), Action::Continue);
    assert_eq!(session.state(), State::Lobby);
    session.step(&mut rooms, command(1, "lobbyA"));
    assert_eq!(session.step(&mut rooms, command(9, "x")), Action::Continue);
    assert_eq!(session.state(), State::InRoom(1));
}

#[test]
fn other_frames_are_passed_over() {
    let mut rooms = Registry::new();
    let mut session = in_lobby(1, &mut rooms);
    assert_eq!(session.step(&mut rooms, handshake()), Action::Continue);
    assert_eq!(session.step(&mut rooms, Event::Frame(Frame::Control)), Action::Continue);
    assert_eq!(session.step(&mut rooms, Event::Accepted), Action::Continue);
    assert_eq!(session.state(), State::Lobby);
}

#[test]
fn empty_binary_frame_ends_the_session() {
    let mut rooms = Registry::new();
    let mut session = in_lobby(1, &mut rooms);
    assert_eq!(session.step(&mut rooms, Event::Frame(Frame::Binary(Vec::new()))), Action::Close);
    assert_eq!(session.state(), State::Closed);
}

#[test]
fn owner_disconnect_closes_the_room() {
    let mut rooms = Registry::new();
    let mut a = in_lobby(1, &mut rooms);
    let mut b = in_lobby(2, &mut rooms);
    let mut c = in_lobby(3, &mut rooms);
    let mut d = in_lobby(4, &mut rooms);
    a.step(&mut rooms, command(1, "R"));
    b.step(&mut rooms, command(2, "R"));
    c.step(&mut rooms, command(2, "R"));
    assert_eq!(members(&rooms, 1), Some(vec![1, 2, 3]));
    assert_eq!(a.step(&mut rooms, Event::Ended), Action::Close);
    assert_eq!(a.state(), State::Closed);
    assert_eq!(rooms.len(), 0);
    assert_eq!(d.step(&mut rooms, command(2, "R")), oopsies());
    assert_eq!(b.step(&mut rooms, Event::Ended), Action::Close);
    assert_eq!(c.step(&mut rooms, Event::Frame(Frame::Binary(Vec::new()))), Action::Close);
    assert_eq!(rooms.len(), 0);
}

#[test]
fn member_disconnect_keeps_the_room() {
    let mut rooms = Registry::new();
    let mut a = in_lobby(1, &mut rooms);
    let mut b = in_lobby(2, &mut rooms);
    let mut c = in_lobby(3, &mut rooms);
    a.step(&mut rooms, command(1, "R"));
    b.step(&mut rooms, command(2, "R"));
    c.step(&mut rooms, command(2, "R"));
    assert_eq!(b.step(&mut rooms, Event::Frame(Frame::Binary(Vec::new()))), Action::Close);
    assert_eq!(members(&rooms, 1), Some(vec![1, 3]));
    assert_eq!(a.state(), State::InRoom(1));
}

#[test]
fn orphan_keeps_its_stale_handle_and_harms_nobody() {
    let mut rooms = Registry::new();
    let mut a = in_lobby(1, &mut rooms);
    let mut b = in_lobby(2, &mut rooms);
    let mut c = in_lobby(3, &mut rooms);
    a.step(&mut rooms, command(1, "first"));
    b.step(&mut rooms, command(2, "first"));
    a.step(&mut rooms, Event::Ended);
    c.step(&mut rooms, command(1, "second"));
    assert_eq!(b.state(), State::InRoom(1));
    assert_eq!(b.step(&mut rooms, command(1, "third")), oopsies());
    assert_eq!(b.step(&mut rooms, Event::Ended), Action::Close);
    assert_eq!(rooms.list_names(), vec![String::from("second")]);
    assert_eq!(members(&rooms, 2), Some(vec![3]));
}

#[test]
fn transport_failure_aborts_and_leaves_the_room() {
    let mut rooms = Registry::new();
    let mut a = in_lobby(1, &mut rooms);
    let mut b = in_lobby(2, &mut rooms);
    a.step(&mut rooms, command(1, "R"));
    b.step(&mut rooms, command(2, "R"));
    assert_eq!(b.step(&mut rooms, Event::Failed), Action::Abort);
    assert_eq!(b.state(), State::Closed);
    assert_eq!(members(&rooms, 1), Some(vec![1]));
    assert_eq!(a.step(&mut rooms, Event::Failed), Action::Abort);
    assert_eq!(rooms.len(), 0);
}

#[test]
fn disconnect_in_the_lobby_leaves_the_registry_alone() {
    let mut rooms = Registry::new();
    let mut a = in_lobby(1, &mut rooms);
    let mut b = in_lobby(2, &mut rooms);
    a.step(&mut rooms, command(1, "R"));
    assert_eq!(b.step(&mut rooms, Event::Ended), Action::Close);
    assert_eq!(members(&rooms, 1), Some(vec![1]));
}

#[test]
fn closed_session_stays_closed() {
    let mut rooms = Registry::new();
    let mut session = in_lobby(1, &mut rooms);
    session.step(&mut rooms, Event::Ended);
    assert_eq!(session.step(&mut rooms, command(1, "late")), Action::Close);
    assert_eq!(session.step(&mut rooms, Event::Accepted), Action::Close);
    assert_eq!(session.step(&mut rooms, handshake()), Action::Close);
    assert_eq!(session.state(), State::Closed);
    assert_eq!(rooms.len(), 0);
}

#[test]
fn creates_in_any_order_give_one_room_each() {
    let orders: [[u32; 4]; 3] = [[1, 2, 3, 4], [4, 3, 2, 1], [2, 4, 1, 3]];
    for order in orders {
        let mut rooms = Registry::new();
        let mut sessions = Vec::new();
        for id in 1..=4u32 {
            sessions.push(in_lobby(id, &mut rooms));
        }
        for id in order {
            let session = &mut sessions[(id - 1) as usize];
            let name = format!("room{}", id);
            assert_eq!(session.step(&mut rooms, command(1, &name)), Action::Continue);
        }
        assert_eq!(rooms.len(), 4);
        for session in &sessions {
            let room = rooms.find_room(session.room().unwrap()).unwrap();
            assert_eq!(room.users(), &vec![session.id()]);
            assert_eq!(room.name(), &format!("room{}", session.id()));
        }
    }
}
