use chat::connection::{client_line_step, disconnect_letter, retry_identify, ClientStep, IdentifyStep};
use chat::dispatch::Outgoing;
use chat::protocol::{State, TypeReciveMessages};
use chat::server::{Letter, Server};
use chat::server_messages::{
    generate_not_identified_msg, generate_not_valid_msg, generate_succes_identify_response,
    generate_user_already_exists_response,
};
use serde_json::Value;
use std::collections::HashMap;

fn parse(bytes: &[u8]) -> Value {
    let end = bytes.len() - 1;
    serde_json::from_slice(&bytes[..end]).unwrap()
}

fn identify(name: &str) -> Option<TypeReciveMessages> {
    Some(TypeReciveMessages::Identify { username: name.to_string() })
}

/// Registers `name` on channel `tx` and runs the announcement letter.
fn connect(server: &mut Server, name: &str, tx: u64) -> Vec<Outgoing> {
    let letter = server.register_user(name.to_string(), tx);
    server.procces_letter_aux(letter).sends
}

fn send(server: &mut Server, who: &str, tx: u64, msg: TypeReciveMessages) -> Vec<Outgoing> {
    server.procces_letter_aux(Letter::new(who.to_string(), msg, tx)).sends
}

fn recipients(out: &[Outgoing]) -> Vec<u64> {
    let mut v: Vec<u64> = out.iter().map(|o| o.to).collect();
    v.sort();
    v
}

fn response(out: &Outgoing) -> (String, String, Option<String>) {
    let v = parse(&out.msg);
    assert_eq!(v["type"], "RESPONSE");
    (
        v["operation"].as_str().unwrap().to_string(),
        v["result"].as_str().unwrap().to_string(),
        v.get("extra").map(|e| e.as_str().unwrap().to_string()),
    )
}

#[test]
fn test_identify() {
    let server = Server::new(4000);
    match server.try_identify(identify("Jesus")) {
        IdentifyStep::Accept(name) => {
            assert_eq!(name, "Jesus".to_string());
            let reply = parse(&generate_succes_identify_response(&name));
            assert_eq!(reply["type"], "RESPONSE");
            assert_eq!(reply["operation"], "IDENTIFY");
            assert_eq!(reply["result"], "SUCCESS");
            assert_eq!(reply["extra"], "Jesus");
        }
        _ => panic!(),
    }
}

#[test]
fn test_usr_already_exist_identify() {
    let mut server = Server::new(4001);
    connect(&mut server, "Jesus", 1);
    match server.try_identify(identify("Jesus")) {
        IdentifyStep::Retry(answer) => {
            let v = parse(&answer);
            assert_eq!(v["operation"], "IDENTIFY");
            assert_eq!(v["result"], "USER_ALREADY_EXISTS");
            assert_eq!(v["extra"], "Jesus");
        }
        _ => panic!(),
    }
}

#[test]
fn test_users() {
    let mut server = Server::new(4002);
    connect(&mut server, "Jesus", 7);
    let out = send(&mut server, "Jesus", 7, TypeReciveMessages::Users);
    assert_eq!(out.len(), 1);
    assert_eq!(out[0].to, 7);
    let mut users = serde_json::Map::new();
    users.insert("Jesus".to_string(), Value::String("ACTIVE".to_string()));
    let mut expected = serde_json::Map::new();
    expected.insert("type".to_string(), Value::String("USER_LIST".to_string()));
    expected.insert("users".to_string(), Value::Object(users));
    assert_eq!(parse(&out[0].msg), Value::Object(expected));
}

#[test]
fn names_are_taken_in_any_case() {
    let mut server = Server::new(1);
    connect(&mut server, "Jesus", 1);
    assert!(server.name_taken("JESUS"));
    assert!(server.name_taken("jesus"));
    assert!(!server.name_taken("Ana"));
    match server.try_identify(identify("JeSuS")) {
        IdentifyStep::Retry(answer) => assert_eq!(answer, generate_user_already_exists_response("JeSuS")),
        _ => panic!(),
    }
}

#[test]
fn first_line_that_is_not_an_identification_is_refused() {
    let server = Server::new(1);
    match server.try_identify(None) {
        IdentifyStep::Reject(answer) => assert_eq!(answer, generate_not_valid_msg()),
        _ => panic!(),
    }
    match server.try_identify(Some(TypeReciveMessages::Users)) {
        IdentifyStep::Reject(answer) => assert_eq!(answer, generate_not_identified_msg()),
        _ => panic!(),
    }
    assert_eq!(retry_identify(identify("Ana")), Ok("Ana".to_string()));
    assert_eq!(retry_identify(Some(TypeReciveMessages::Users)), Err(()));
    assert_eq!(retry_identify(None), Err(()));
}

#[test]
fn lines_of_an_identified_client() {
    match client_line_step("Ana", 3, Some(TypeReciveMessages::Users)) {
        ClientStep::Forward(letter) => {
            assert_eq!(letter.usr_sender, "Ana".to_string());
            assert_eq!(letter.msg, TypeReciveMessages::Users);
            assert_eq!(letter.reply_to, 3);
        }
        _ => panic!(),
    }
    match client_line_step("Ana", 3, Some(TypeReciveMessages::Disconect)) {
        ClientStep::Stop(None) => {}
        _ => panic!(),
    }
    match client_line_step("Ana", 3, identify("Ana")) {
        ClientStep::Stop(Some(answer)) => assert_eq!(answer, generate_not_valid_msg()),
        _ => panic!(),
    }
    match client_line_step("Ana", 3, None) {
        ClientStep::Stop(Some(answer)) => assert_eq!(answer, generate_not_valid_msg()),
        _ => panic!(),
    }
    let letter = disconnect_letter("Ana".to_string(), 3);
    assert_eq!(letter.msg, TypeReciveMessages::Disconect);
}

#[test]
fn arrival_is_announced_to_the_others() {
    let mut server = Server::new(1);
    assert!(connect(&mut server, "Ana", 1).is_empty());
    let out = connect(&mut server, "Bob", 2);
    assert_eq!(recipients(&out), vec![1]);
    let v = parse(&out[0].msg);
    assert_eq!(v["type"], "NEW_USER");
    assert_eq!(v["username"], "Bob");
}

#[test]
fn public_text_goes_to_everyone_else() {
    let mut server = Server::new(1);
    connect(&mut server, "Ana", 1);
    connect(&mut server, "Bob", 2);
    connect(&mut server, "Cal", 3);
    let d = server.procces_letter_aux(Letter::new(
        "ANA".to_string(),
        TypeReciveMessages::PublicText { text: "hola".to_string() },
        1,
    ));
    assert!(d.halt_on_failure);
    assert_eq!(recipients(&d.sends), vec![2, 3]);
    let v = parse(&d.sends[0].msg);
    assert_eq!(v["type"], "PUBLIC_TEXT_FROM");
    assert_eq!(v["username"], "ANA");
    assert_eq!(v["text"], "hola");
}

#[test]
fn status_is_stored_and_announced() {
    let mut server = Server::new(1);
    connect(&mut server, "Ana", 1);
    connect(&mut server, "Bob", 2);
    let out = send(&mut server, "Ana", 1, TypeReciveMessages::Status { status: State::Busy });
    assert_eq!(recipients(&out), vec![2]);
    assert_eq!(parse(&out[0].msg)["status"], "BUSY");
    let list: HashMap<String, State> = server.generate_map_users().into_iter().collect();
    assert_eq!(list.get("Ana"), Some(&State::Busy));
    assert_eq!(list.get("Bob"), Some(&State::Active));
    assert_eq!(list.len(), 2);
    assert!(send(&mut server, "Nobody", 9, TypeReciveMessages::Status { status: State::Away }).is_empty());
}

#[test]
fn private_text_and_unknown_user() {
    let mut server = Server::new(1);
    connect(&mut server, "Ana", 1);
    connect(&mut server, "Bob", 2);
    let out = send(&mut server, "Ana", 1, TypeReciveMessages::Text { username: "bob".to_string(), text: "hi".to_string() });
    assert_eq!(recipients(&out), vec![2]);
    let v = parse(&out[0].msg);
    assert_eq!(v["type"], "TEXT_FROM");
    assert_eq!(v["username"], "Ana");
    let out = send(&mut server, "Ana", 1, TypeReciveMessages::Text { username: "Zoe".to_string(), text: "hi".to_string() });
    assert_eq!(recipients(&out), vec![1]);
    assert_eq!(response(&out[0]), ("TEXT".to_string(), "NO_SUCH_USER".to_string(), Some("Zoe".to_string())));
}

fn room(name: &str) -> String {
    name.to_string()
}

#[test]
fn room_life_cycle() {
    let mut server = Server::new(1);
    connect(&mut server, "Ana", 1);
    connect(&mut server, "Bob", 2);
    connect(&mut server, "Cal", 3);
    let out = send(&mut server, "Ana", 1, TypeReciveMessages::NewRoom { roomname: room("Sala") });
    assert_eq!(out.len(), 1);
    assert_eq!(response(&out[0]), ("NEW_ROOM".to_string(), "SUCCESS".to_string(), Some("Sala".to_string())));
    assert!(server.rooms.contains_key("sala"));

    // Bob is not invited yet.
    let out = send(&mut server, "Bob", 2, TypeReciveMessages::JoinRoom { roomname: room("SALA") });
    assert_eq!(response(&out[0]), ("JOIN_ROOM".to_string(), "NOT_INVITED".to_string(), Some("Sala".to_string())));

    // Ana invites Bob and Cal.
    let out = send(
        &mut server,
        "Ana",
        1,
        TypeReciveMessages::Invite { roomname: room("sala"), usernames: vec!["bob".to_string(), "Cal".to_string()] },
    );
    assert_eq!(recipients(&out), vec![2, 3]);
    let v = parse(&out[0].msg);
    assert_eq!(v["type"], "INVITATION");
    assert_eq!(v["username"], "Ana");
    assert_eq!(v["roomname"], "Sala");

    // Inviting Bob again does nothing for him.
    let out = send(
        &mut server,
        "Ana",
        1,
        TypeReciveMessages::Invite { roomname: room("sala"), usernames: vec!["Bob".to_string()] },
    );
    assert!(out.is_empty());

    // Bob joins: Ana is told, Bob is welcomed.
    let out = send(&mut server, "Bob", 2, TypeReciveMessages::JoinRoom { roomname: room("Sala") });
    assert_eq!(out.len(), 2);
    assert_eq!(out[0].to, 1);
    let v = parse(&out[0].msg);
    assert_eq!(v["type"], "JOINED_ROOM");
    assert_eq!(v["username"], "Bob");
    assert_eq!(out[1].to, 2);
    assert_eq!(response(&out[1]), ("JOIN_ROOM".to_string(), "SUCCESS".to_string(), Some("Sala".to_string())));

    // Room text from Bob reaches Ana only; Cal is a guest, not a member.
    let out = send(&mut server, "Bob", 2, TypeReciveMessages::RoomText { roomname: room("Sala"), text: "hey".to_string() });
    assert_eq!(recipients(&out), vec![1]);
    let v = parse(&out[0].msg);
    assert_eq!(v["type"], "ROOM_TEXT_FROM");
    assert_eq!(v["roomname"], "Sala");
    assert_eq!(v["text"], "hey");
    let out = send(&mut server, "Cal", 3, TypeReciveMessages::RoomText { roomname: room("Sala"), text: "x".to_string() });
    assert_eq!(response(&out[0]), ("ROOM_TEXT".to_string(), "NOT_JOINED".to_string(), Some("Sala".to_string())));

    // Members with their states.
    let out = send(&mut server, "Ana", 1, TypeReciveMessages::RoomUsers { roomname: room("Sala") });
    assert_eq!(out.len(), 1);
    let v = parse(&out[0].msg);
    assert_eq!(v["type"], "ROOM_USER_LIST");
    assert_eq!(v["users"]["Ana"], "ACTIVE");
    assert_eq!(v["users"]["Bob"], "ACTIVE");
    assert!(v["users"].get("Cal").is_none());
    // A non-member gets a refusal, then the list all the same.
    let out = send(&mut server, "Cal", 3, TypeReciveMessages::RoomUsers { roomname: room("Sala") });
    assert_eq!(out.len(), 2);
    assert_eq!(out[0].msg.last(), Some(&b'n'));
    assert_eq!(parse(&out[1].msg)["type"], "ROOM_USER_LIST");

    // Bob leaves; Ana is told.
    let out = send(&mut server, "Bob", 2, TypeReciveMessages::LeaveRoom { roomname: room("Sala") });
    assert_eq!(recipients(&out), vec![1]);
    let v = parse(&out[0].msg);
    assert_eq!(v["type"], "LEFT_ROOM");
    assert_eq!(v["username"], "Bob");
    // Leaving again: not a member.
    let out = send(&mut server, "Bob", 2, TypeReciveMessages::LeaveRoom { roomname: room("Sala") });
    assert_eq!(response(&out[0]), ("LEAVE_ROOM".to_string(), "NOT_JOINED".to_string(), Some("Sala".to_string())));
    // The last member leaves: the room is gone.
    let out = send(&mut server, "Ana", 1, TypeReciveMessages::LeaveRoom { roomname: room("Sala") });
    assert!(out.is_empty());
    assert!(!server.rooms.contains_key("sala"));
    let out = send(&mut server, "Ana", 1, TypeReciveMessages::LeaveRoom { roomname: room("Sala") });
    assert_eq!(response(&out[0]), ("LEAVE_ROOM".to_string(), "NO_SUCH_ROOM".to_string(), Some("Sala".to_string())));
}

#[test]
fn room_errors() {
    let mut server = Server::new(1);
    connect(&mut server, "Ana", 1);
    connect(&mut server, "Bob", 2);
    let out = send(&mut server, "Ana", 1, TypeReciveMessages::RoomText { roomname: room("X"), text: "t".to_string() });
    assert_eq!(response(&out[0]), ("ROOM_TEXT".to_string(), "NO_SUCH_ROOM".to_string(), Some("X".to_string())));
    let out = send(&mut server, "Ana", 1, TypeReciveMessages::RoomUsers { roomname: room("X") });
    assert_eq!(response(&out[0]), ("ROOM_USERS".to_string(), "NO_SUCH_ROOM".to_string(), Some("X".to_string())));
    let out = send(&mut server, "Ana", 1, TypeReciveMessages::JoinRoom { roomname: room("X") });
    assert_eq!(response(&out[0]), ("JOIN_ROOM".to_string(), "NO_SUCH_ROOM".to_string(), Some("X".to_string())));
    let out = send(
        &mut server,
        "Ana",
        1,
        TypeReciveMessages::Invite { roomname: room("X"), usernames: vec!["Bob".to_string()] },
    );
    assert_eq!(response(&out[0]), ("JOIN_ROOM".to_string(), "NO_SUCH_ROOM".to_string(), Some("X".to_string())));
    send(&mut server, "Ana", 1, TypeReciveMessages::NewRoom { roomname: room("X") });
    let out = send(
        &mut server,
        "Ana",
        1,
        TypeReciveMessages::Invite { roomname: room("X"), usernames: vec!["Bob".to_string(), "Zed".to_string(), "Yul".to_string()] },
    );
    assert_eq!(response(&out[0]), ("INVITE".to_string(), "NO_SUCH_USER".to_string(), Some("Zed".to_string())));
    // A non-member cannot invite.
    let out = send(
        &mut server,
        "Bob",
        2,
        TypeReciveMessages::Invite { roomname: room("X"), usernames: vec!["Ana".to_string()] },
    );
    assert!(out.is_empty());
    // An unknown sender cannot create a room.
    assert!(send(&mut server, "Nobody", 9, TypeReciveMessages::NewRoom { roomname: room("Y") }).is_empty());
    assert!(!server.rooms.contains_key("y"));
}

#[test]
fn disconnect_leaves_rooms_and_invitations() {
    let mut server = Server::new(1);
    connect(&mut server, "Ana", 1);
    connect(&mut server, "Bob", 2);
    connect(&mut server, "Cal", 3);
    send(&mut server, "Ana", 1, TypeReciveMessages::NewRoom { roomname: room("R1") });
    send(&mut server, "Ana", 1, TypeReciveMessages::NewRoom { roomname: room("R2") });
    send(&mut server, "Ana", 1, TypeReciveMessages::Invite { roomname: room("R1"), usernames: vec!["Bob".to_string()] });
    send(&mut server, "Ana", 1, TypeReciveMessages::Invite { roomname: room("R2"), usernames: vec!["Bob".to_string()] });
    send(&mut server, "Bob", 2, TypeReciveMessages::JoinRoom { roomname: room("R1") });
    let out = send(&mut server, "BOB", 2, TypeReciveMessages::Disconect);
    // Ana is told Bob left R1, then Ana and Cal that Bob disconnected.
    assert_eq!(out.len(), 3);
    assert_eq!(out[0].to, 1);
    let v = parse(&out[0].msg);
    assert_eq!(v["type"], "LEFT_ROOM");
    assert_eq!(v["roomname"], "R1");
    assert_eq!(v["username"], "bob");
    assert_eq!(recipients(&out[1..]), vec![1, 3]);
    let v = parse(&out[1].msg);
    assert_eq!(v["type"], "DISCONNECTED");
    assert_eq!(v["username"], "BOB");
    assert!(!server.users.contains_key("bob"));
    assert!(!server.rooms.get("r1").unwrap().users.contains_key("bob"));
    assert!(!server.rooms.get("r2").unwrap().guests.contains_key("bob"));
    // Disconnecting again does nothing.
    assert!(send(&mut server, "Bob", 2, TypeReciveMessages::Disconect).is_empty());
}

#[test]
fn identify_letter_announces_without_the_sender() {
    let mut server = Server::new(1);
    connect(&mut server, "Ana", 1);
    connect(&mut server, "Bob", 2);
    let out = send(&mut server, "Bob", 2, TypeReciveMessages::Identify { username: "bob".to_string() });
    assert_eq!(recipients(&out), vec![1]);
}

#[test]
fn creator_leaves_its_room_on_disconnect() {
    let mut server = Server::new(4100);
    connect(&mut server, "Ana", 1);
    connect(&mut server, "Bob", 2);
    send(&mut server, "Ana", 1, TypeReciveMessages::NewRoom { roomname: "Sala".to_string() });
    assert_eq!(server.sessions[0].rooms_keys, vec!["sala".to_string()]);
    send(&mut server, "Ana", 1, TypeReciveMessages::Invite { roomname: "Sala".to_string(), usernames: vec!["Bob".to_string()] });
    send(&mut server, "Bob", 2, TypeReciveMessages::JoinRoom { roomname: "Sala".to_string() });
    let out = send(&mut server, "Ana", 1, TypeReciveMessages::Disconect);
    let left: Vec<&Outgoing> = out.iter().filter(|o| parse(&o.msg)["type"] == "LEFT_ROOM").collect();
    assert_eq!(left.len(), 1);
    assert_eq!(left[0].to, 2);
    let room = server.rooms.get("sala").unwrap();
    assert!(!room.users.contains_key("ana"));
    assert!(room.users.contains_key("bob"));
}
