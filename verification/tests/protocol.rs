use chat::client::output::{generate_identify, procces_user_msg};
use chat::client::input::Action;
use chat::connection::{build_msg_for_client, clean_line, exceeds_read_limit, port_from_entry};
use chat::protocol::{encode_recive, encode_send, Operations, Resultado, State, TypeReciveMessages, TypeSendMessages};
use chat::server_messages::{
    generate_disconected_msg, generate_invitation_msg, generate_new_status_msg, generate_not_identified_msg,
    generate_not_valid_msg, generate_public_text_from, generate_room_users_msg, generate_succes_identify_response,
    generate_text_user_not_exist, generate_user_already_exists_response, generate_users_msg, room_users_not_joined,
};
use serde_json::Value;

fn parse_line(bytes: &[u8]) -> Value {
    assert_eq!(bytes.last(), Some(&b'\n'));
    serde_json::from_slice(&bytes[..bytes.len() - 1]).unwrap()
}

fn field<'a>(v: &'a Value, k: &str) -> &'a Value {
    v.get(k).unwrap()
}

#[test]
fn succes_identify_response_bytes() {
    let msg = generate_succes_identify_response("Jesus");
    assert_eq!(
        msg,
        b"{\"type\":\"RESPONSE\",\"operation\":\"IDENTIFY\",\"result\":\"SUCCESS\",\"extra\":\"Jesus\"}\n".to_vec()
    );
}

#[test]
fn not_identified_has_no_extra() {
    let msg = generate_not_identified_msg();
    assert_eq!(msg, b"{\"type\":\"RESPONSE\",\"operation\":\"INVALID\",\"result\":\"NOT_IDENTIFIED\"}\n".to_vec());
    let v = parse_line(&generate_not_valid_msg());
    assert_eq!(field(&v, "result"), "INVALID");
    assert!(v.get("extra").is_none());
}

#[test]
fn names_are_escaped_as_json_strings() {
    let msg = generate_text_user_not_exist("a\"b\\c\nd");
    let v = parse_line(&msg);
    assert_eq!(field(&v, "extra"), "a\"b\\c\nd");
    assert_eq!(msg.iter().filter(|b| **b == b'\n').count(), 1);
    let text = "¿qué tal? \u{1F600}";
    let v = parse_line(&generate_public_text_from("Ana", text));
    assert_eq!(field(&v, "type"), "PUBLIC_TEXT_FROM");
    assert_eq!(field(&v, "username"), "Ana");
    assert_eq!(field(&v, "text"), text);
}

#[test]
fn status_and_lists_encode_states_in_upper_case() {
    let v = parse_line(&generate_new_status_msg("Ana", State::Busy));
    assert_eq!(field(&v, "status"), "BUSY");
    let list = vec![("Ana".to_string(), State::Away), ("Bob".to_string(), State::Active)];
    let msg = generate_users_msg(list);
    assert_eq!(
        msg,
        b"{\"type\":\"USER_LIST\",\"users\":{\"Ana\":\"AWAY\",\"Bob\":\"ACTIVE\"}}\n".to_vec()
    );
    let v = parse_line(&generate_room_users_msg("Sala", vec![("Ana".to_string(), State::Busy)]));
    assert_eq!(field(&v, "type"), "ROOM_USER_LIST");
    assert_eq!(field(&v, "roomname"), "Sala");
    assert_eq!(field(field(&v, "users"), "Ana"), "BUSY");
}

#[test]
fn room_users_not_joined_ends_with_n() {
    let msg = room_users_not_joined("Sala");
    assert_eq!(msg.last(), Some(&b'n'));
    let v: Value = serde_json::from_slice(&msg[..msg.len() - 1]).unwrap();
    assert_eq!(field(&v, "operation"), "ROOM_USERS");
    assert_eq!(field(&v, "result"), "NOT_JOINED");
    assert_eq!(field(&v, "extra"), "Sala");
}

#[test]
fn other_messages_have_their_fields_in_order() {
    assert_eq!(
        generate_invitation_msg("Ana", "Sala"),
        b"{\"type\":\"INVITATION\",\"username\":\"Ana\",\"roomname\":\"Sala\"}\n".to_vec()
    );
    assert_eq!(generate_disconected_msg("Ana"), b"{\"type\":\"DISCONNECTED\",\"username\":\"Ana\"}\n".to_vec());
    assert_eq!(
        generate_user_already_exists_response("Jesus"),
        b"{\"type\":\"RESPONSE\",\"operation\":\"IDENTIFY\",\"result\":\"USER_ALREADY_EXISTS\",\"extra\":\"Jesus\"}\n"
            .to_vec()
    );
}

#[test]
fn encode_send_of_each_response() {
    let m = TypeSendMessages::Response { operation: Operations::LeaveRoom, result: Resultado::NoSuchRoom, extra: None };
    assert_eq!(encode_send(&m), b"{\"type\":\"RESPONSE\",\"operation\":\"LEAVE_ROOM\",\"result\":\"NO_SUCH_ROOM\"}".to_vec());
}

#[test]
fn client_messages_encode() {
    assert_eq!(generate_identify("Jesus".to_string()), b"{\"type\":\"IDENTIFY\",\"username\":\"Jesus\"}\n".to_vec());
    assert_eq!(encode_recive(&TypeReciveMessages::Users), b"{\"type\":\"USERS\"}".to_vec());
    assert_eq!(encode_recive(&TypeReciveMessages::Disconect), b"{\"type\":\"DISCONNECT\"}".to_vec());
    let invite = TypeReciveMessages::Invite {
        roomname: "Sala".to_string(),
        usernames: vec!["Ana".to_string(), "Bob".to_string()],
    };
    assert_eq!(
        encode_recive(&invite),
        b"{\"type\":\"INVITE\",\"roomname\":\"Sala\",\"usernames\":[\"Ana\",\"Bob\"]}".to_vec()
    );
    let empty = TypeReciveMessages::Invite { roomname: "S".to_string(), usernames: vec![] };
    assert_eq!(encode_recive(&empty), b"{\"type\":\"INVITE\",\"roomname\":\"S\",\"usernames\":[]}".to_vec());
}

#[test]
fn user_actions_become_lines() {
    assert_eq!(procces_user_msg(Action::Help), None);
    assert_eq!(procces_user_msg(Action::Users), Some(b"{\"type\":\"USERS\"}\n".to_vec()));
    assert_eq!(
        procces_user_msg(Action::Status { status: State::Away }),
        Some(b"{\"type\":\"STATUS\",\"status\":\"AWAY\"}\n".to_vec())
    );
    assert_eq!(
        procces_user_msg(Action::PrivateText { username: "Bob".to_string(), text: "hola".to_string() }),
        Some(b"{\"type\":\"TEXT\",\"username\":\"Bob\",\"text\":\"hola\"}\n".to_vec())
    );
    assert_eq!(procces_user_msg(Action::Disconnect), Some(b"{\"type\":\"DISCONNECT\"}\n".to_vec()));
    assert_eq!(
        procces_user_msg(Action::RoomText { roomname: "Sala".to_string(), text: "x".to_string() }),
        Some(b"{\"type\":\"ROOM_TEXT\",\"roomname\":\"Sala\",\"text\":\"x\"}\n".to_vec())
    );
}

#[test]
fn read_limit_and_cleaning() {
    let long = vec![b'a'; 1024];
    assert!(exceeds_read_limit(1024, &long));
    let mut ended = vec![b'a'; 1023];
    ended.push(b'\n');
    assert!(!exceeds_read_limit(1024, &ended));
    assert!(!exceeds_read_limit(10, b"abc"));
    assert_eq!(clean_line(b"\0\0{\"a\":1}\n\0"), b"{\"a\":1}\n".to_vec());
    assert_eq!(clean_line(b"\0\0\0"), Vec::<u8>::new());
    assert_eq!(clean_line(b"x"), b"x".to_vec());
    assert_eq!(build_msg_for_client(b"ab\n".to_vec()), b"ab\n\0".to_vec());
}

#[test]
fn ports_typed_at_start_up() {
    assert_eq!(port_from_entry("4000"), 4000);
    assert_eq!(port_from_entry("+4000"), 4000);
    assert_eq!(port_from_entry("4000\n"), 8080);
    assert_eq!(port_from_entry("80"), 8080);
    assert_eq!(port_from_entry("70000"), 8080);
    assert_eq!(port_from_entry("65535"), 65535);
    assert_eq!(port_from_entry("abcd"), 8080);
}

#[test]
fn escapes_are_written_byte_for_byte() {
    let msg = generate_text_user_not_exist("q\"b\\\u{8}\t\n\u{c}\r\u{1}\u{1f}é");
    let mut expected = b"{\"type\":\"RESPONSE\",\"operation\":\"TEXT\",\"result\":\"NO_SUCH_USER\",\"extra\":\"".to_vec();
    expected.extend_from_slice(b"q\\\"b\\\\\\b\\t\\n\\f\\r\\u0001\\u001f");
    expected.extend_from_slice(&[0xC3, 0xA9]);
    expected.extend_from_slice(b"\"}\n");
    assert_eq!(msg, expected);
}
