use lobby_rooms::command::{decode, dispatch, packet_receive, Command, Reply, CREATE_ROOM, JOIN_ROOM};
use lobby_rooms::registry::Registry;

fn frame(opcode: u8, name: &str) -> Vec<u8> {
    let mut bytes = vec![opcode];
    bytes.extend_from_slice(name.as_bytes());
    bytes
}

#[test]
fn opcodes() {
    assert_eq!(CREATE_ROOM, 1);
    assert_eq!(JOIN_ROOM, 2);
}

#[test]
fn decode_create() {
    assert_eq!(decode(&frame(1, "lobbyA")), Command::Create(String::from("lobbyA")));
}

#[test]
fn decode_join() {
    assert_eq!(decode(&frame(2, "lobbyA")), Command::Join(String::from("lobbyA")));
}

#[test]
fn decode_keeps_the_whole_name() {
    assert_eq!(decode(&frame(1, "a b\nc ")), Command::Create(String::from("a b\nc ")));
    assert_eq!(decode(&[2, 1]), Command::Join(String::from("\u{1}")));
    assert_eq!(decode(&frame(1, "größe 🙂")), Command::Create(String::from("größe 🙂")));
}

#[test]
fn decode_replaces_invalid_bytes() {
    assert_eq!(decode(&[1, b'a', 0xff, b'b']), Command::Create(String::from("a\u{fffd}b")));
    assert_eq!(decode(&[2, 0xc3]), Command::Join(String::from("\u{fffd}")));
    assert_eq!(
        decode(&[1, 0xe2, 0x82, b'x', 0x80]),
        Command::Create(String::from("\u{fffd}x\u{fffd}"))
    );
}

#[test]
fn decode_without_name() {
    assert_eq!(decode(&[1]), Command::Nameless);
    assert_eq!(decode(&[2]), Command::Nameless);
}

#[test]
fn decode_unknown_opcode() {
    assert_eq!(decode(&[0]), Command::Unknown);
    assert_eq!(decode(&[3]), Command::Unknown);
    assert_eq!(decode(&frame(3, "lobbyA")), Command::Unknown);
    assert_eq!(decode(&[255, 1, 2]), Command::Unknown);
}

#[test]
fn decode_empty_frame() {
    assert_eq!(decode(&[]), Command::Disconnect);
}

#[test]
fn create_puts_the_connection_into_its_room() {
    let mut rooms = Registry::new();
    let mut room = None;
    assert_eq!(packet_receive(7, &mut room, &frame(1, "lobbyA"), &mut rooms), Reply::Accepted);
    assert_eq!(room, Some(1));
    assert_eq!(rooms.list_names(), vec![String::from("lobbyA")]);
    assert_eq!(rooms.find_room(1).unwrap().users(), &vec![7]);
}

#[test]
fn join_puts_the_connection_into_the_room() {
    let mut rooms = Registry::new();
    let mut owner = None;
    let mut guest = None;
    assert_eq!(packet_receive(1, &mut owner, &frame(1, "lobbyA"), &mut rooms), Reply::Accepted);
    assert_eq!(packet_receive(2, &mut guest, &frame(2, "lobbyA"), &mut rooms), Reply::Accepted);
    assert_eq!(guest, owner);
    assert_eq!(rooms.find_room(1).unwrap().users(), &vec![1, 2]);
}

#[test]
fn join_of_unknown_room_is_rejected() {
    let mut rooms = Registry::new();
    let mut room = None;
    assert_eq!(packet_receive(2, &mut room, &frame(2, "lobbyA"), &mut rooms), Reply::Rejected);
    assert_eq!(room, None);
    assert_eq!(rooms.len(), 0);
}

#[test]
fn commands_without_name_are_rejected() {
    let mut rooms = Registry::new();
    let mut room = None;
    assert_eq!(packet_receive(1, &mut room, &[1], &mut rooms), Reply::Rejected);
    assert_eq!(packet_receive(1, &mut room, &[2], &mut rooms), Reply::Rejected);
    assert_eq!(room, None);
    assert_eq!(rooms.len(), 0);
}

#[test]
fn commands_in_a_room_are_rejected() {
    let mut rooms = Registry::new();
    let mut other = None;
    packet_receive(9, &mut other, &frame(1, "other"), &mut rooms);
    let mut room = None;
    assert_eq!(packet_receive(1, &mut room, &frame(1, "mine"), &mut rooms), Reply::Accepted);
    let held = room;
    assert_eq!(packet_receive(1, &mut room, &frame(1, "more"), &mut rooms), Reply::Rejected);
    assert_eq!(packet_receive(1, &mut room, &frame(2, "other"), &mut rooms), Reply::Rejected);
    assert_eq!(packet_receive(1, &mut room, &frame(2, "mine"), &mut rooms), Reply::Rejected);
    assert_eq!(room, held);
    assert_eq!(rooms.list_names(), vec![String::from("other"), String::from("mine")]);
    assert_eq!(rooms.find_room(1).unwrap().users(), &vec![9]);
    assert_eq!(rooms.find_room(2).unwrap().users(), &vec![1]);
}

#[test]
fn unknown_opcode_is_ignored() {
    let mut rooms = Registry::new();
    let mut room = None;
    assert_eq!(packet_receive(1, &mut room, &frame(3, "lobbyA"), &mut rooms), Reply::Ignored);
    assert_eq!(room, None);
    assert_eq!(rooms.len(), 0);
    let mut held = Some(5);
    assert_eq!(packet_receive(1, &mut held, &[0], &mut rooms), Reply::Ignored);
    assert_eq!(held, Some(5));
}

#[test]
fn empty_frame_disconnects() {
    let mut rooms = Registry::new();
    let mut room = None;
    assert_eq!(packet_receive(1, &mut room, &[], &mut rooms), Reply::Disconnect);
    assert_eq!(room, None);
    assert_eq!(rooms.len(), 0);
}

#[test]
fn dispatch_rejects_an_empty_name() {
    let mut rooms = Registry::new();
    let mut room = None;
    assert_eq!(dispatch(1, &mut room, Command::Create(String::new()), &mut rooms), Reply::Rejected);
    assert_eq!(dispatch(1, &mut room, Command::Join(String::new()), &mut rooms), Reply::Rejected);
    assert_eq!(room, None);
    assert_eq!(rooms.len(), 0);
}

#[test]
fn dispatch_of_decoded_commands() {
    let mut rooms = Registry::new();
    let mut room = None;
    assert_eq!(dispatch(4, &mut room, Command::Unknown, &mut rooms), Reply::Ignored);
    assert_eq!(dispatch(4, &mut room, Command::Nameless, &mut rooms), Reply::Rejected);
    assert_eq!(dispatch(4, &mut room, Command::Disconnect, &mut rooms), Reply::Disconnect);
    assert_eq!(
        dispatch(4, &mut room, Command::Create(String::from("r")), &mut rooms),
        Reply::Accepted
    );
    assert_eq!(room, Some(1));
}
