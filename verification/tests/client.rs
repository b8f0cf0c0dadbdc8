use chat::client::display::{
    clean_server_line, get_identify_response, is_displayable, is_identify_reply, ping_backend, print_help_msg,
    notice, procces_server_msg_aux, ViewAction,
};
use chat::client::input::{
    address_from_entry, aux_get_addr, check_username, parse_user_entry, recheck_username_after_empty,
    recheck_username_after_long, Action, Address, UsernameCheck,
};
use chat::protocol::{Operations, Resultado, State, TypeSendMessages};

fn s(x: &str) -> String {
    x.to_string()
}

#[test]
fn blank_lines_and_public_text() {
    assert_eq!(parse_user_entry("   \n"), None);
    assert_eq!(parse_user_entry(""), None);
    assert_eq!(parse_user_entry("  hola  a todos \n"), Some(Ok(Action::PublicText { text: s("hola  a todos") })));
}

#[test]
fn commands() {
    assert_eq!(parse_user_entry("/status away\n"), Some(Ok(Action::Status { status: State::Away })));
    assert_eq!(parse_user_entry("/status busy"), Some(Ok(Action::Status { status: State::Busy })));
    assert_eq!(parse_user_entry("/status active"), Some(Ok(Action::Status { status: State::Active })));
    assert_eq!(parse_user_entry("/status sleeping"), Some(Err(())));
    assert_eq!(parse_user_entry("/status"), Some(Err(())));
    assert_eq!(parse_user_entry("/users"), Some(Ok(Action::Users)));
    assert_eq!(
        parse_user_entry("/privateText Bob  hola   Bob\n"),
        Some(Ok(Action::PrivateText { username: s("Bob"), text: s("hola Bob") }))
    );
    assert_eq!(parse_user_entry("/privateText Bob"), Some(Err(())));
    assert_eq!(parse_user_entry("/disconnect"), Some(Ok(Action::Disconnect)));
    assert_eq!(parse_user_entry("/help"), Some(Ok(Action::Help)));
    assert_eq!(parse_user_entry("/newRoom Sala"), Some(Ok(Action::NewRoom { roomname: s("Sala") })));
    assert_eq!(parse_user_entry("/newRoom"), Some(Err(())));
    assert_eq!(
        parse_user_entry("/invite Sala Ana Bob"),
        Some(Ok(Action::Invite { roomname: s("Sala"), usernames: vec![s("Ana"), s("Bob")] }))
    );
    assert_eq!(parse_user_entry("/invite Sala"), Some(Err(())));
    assert_eq!(parse_user_entry("/joinRoom Sala"), Some(Ok(Action::JoinRoom { roomname: s("Sala") })));
    assert_eq!(parse_user_entry("/roomUsers Sala"), Some(Ok(Action::RoomUsers { roomname: s("Sala") })));
    assert_eq!(
        parse_user_entry("/roomText Sala hola\tmundo"),
        Some(Ok(Action::RoomText { roomname: s("Sala"), text: s("hola mundo") }))
    );
    assert_eq!(parse_user_entry("/leaveRoom Sala"), Some(Ok(Action::LeaveRoom { roomname: s("Sala") })));
    assert_eq!(parse_user_entry("/unknown"), Some(Err(())));
    assert_eq!(parse_user_entry("/"), Some(Err(())));
    assert_eq!(parse_user_entry("/USERS"), Some(Err(())));
}

#[test]
fn addresses() {
    assert_eq!(aux_get_addr("127.0.0.1.4444"), Ok(Address { octets: [127, 0, 0, 1], port: 4444 }));
    assert_eq!(aux_get_addr("10.1.2.3.80"), Ok(Address { octets: [10, 1, 2, 3], port: 80 }));
    assert_eq!(aux_get_addr("256.0.0.1.80"), Err(()));
    assert_eq!(aux_get_addr("1.2.3.4"), Err(()));
    assert_eq!(aux_get_addr("1.2.3.4.5.6"), Err(()));
    assert_eq!(aux_get_addr("1.2..4.5"), Err(()));
    assert_eq!(aux_get_addr("1.2.3.4.70000"), Err(()));
    assert_eq!(address_from_entry(" 192.168.0.7.9000 \n"), Address { octets: [192, 168, 0, 7], port: 9000 });
    assert_eq!(address_from_entry("nonsense\n"), Address { octets: [127, 0, 0, 1], port: 4444 });
}

#[test]
fn usernames() {
    assert_eq!(check_username("Ana\n"), UsernameCheck::Accept(s("Ana")));
    assert_eq!(check_username("  \n"), UsernameCheck::AskAgainEmpty);
    assert_eq!(check_username("Federico\n"), UsernameCheck::AskAgainTooLong);
    assert_eq!(check_username("Federic\n"), UsernameCheck::Accept(s("Federic")));
    assert_eq!(recheck_username_after_empty("\n"), Err(()));
    assert_eq!(recheck_username_after_empty("Bob\n"), Ok(s("Bob")));
    assert_eq!(recheck_username_after_empty("Maximiliano\n"), Err(()));
    assert_eq!(recheck_username_after_long("Maximiliano\n"), Err(()));
    assert_eq!(recheck_username_after_long("Max\n"), Ok(s("Max")));
    assert_eq!(recheck_username_after_long("\n"), Ok(s("")));
}

#[test]
fn server_messages_as_notices() {
    let m = TypeSendMessages::Disconnected { username: s("Ana") };
    assert!(is_displayable(&m));
    assert_eq!(procces_server_msg_aux(m), ViewAction::UserDisconnected { username: s("Ana") });
    let m = TypeSendMessages::Response { operation: Operations::JoinRoom, result: Resultado::NotInvited, extra: Some(s("Sala")) };
    assert_eq!(procces_server_msg_aux(m), ViewAction::NotInvitedToRoom { roomname: s("Sala") });
    let m = TypeSendMessages::Response { operation: Operations::NewRoom, result: Resultado::Success, extra: None };
    assert_eq!(procces_server_msg_aux(m), ViewAction::Nothing);
    let m = TypeSendMessages::Response { operation: Operations::Invalid, result: Resultado::Invalid, extra: None };
    assert_eq!(procces_server_msg_aux(m), ViewAction::InvalidResponse);
    let m = TypeSendMessages::RoomTextFrom { roomname: s("Sala"), username: s("Bob"), text: s("hey") };
    assert_eq!(
        procces_server_msg_aux(m),
        ViewAction::RoomTextFrom { username: s("Bob"), roomname: s("Sala"), text: s("hey") }
    );
    let m = TypeSendMessages::UserList { users: vec![(s("Ana"), State::Away)] };
    assert_eq!(procces_server_msg_aux(m), ViewAction::Users { users: vec![(s("Ana"), State::Away)] });
    let unknown = TypeSendMessages::Response { operation: Operations::Identify, result: Resultado::Success, extra: Some(s("x")) };
    assert!(!is_displayable(&unknown));
    let unknown = TypeSendMessages::Response { operation: Operations::Invalid, result: Resultado::NotIdentified, extra: None };
    assert!(!is_displayable(&unknown));
}

#[test]
fn identify_replies() {
    let ok = TypeSendMessages::Response { operation: Operations::Identify, result: Resultado::Success, extra: Some(s("Ana")) };
    assert!(is_identify_reply(&ok));
    assert_eq!(get_identify_response(ok), Ok(s("Ana")));
    let taken = TypeSendMessages::Response { operation: Operations::Identify, result: Resultado::UserAlreadyExists, extra: Some(s("Ana")) };
    assert!(is_identify_reply(&taken));
    assert_eq!(get_identify_response(taken), Err(()));
    let other = TypeSendMessages::Response { operation: Operations::Text, result: Resultado::Success, extra: Some(s("Ana")) };
    assert!(!is_identify_reply(&other));
    assert!(!is_identify_reply(&TypeSendMessages::NewUser { username: s("Ana") }));
}

#[test]
fn server_lines_are_cleaned() {
    assert_eq!(clean_server_line("\0{\"a\":1}\n"), s("{\"a\":1}"));
    assert_eq!(clean_server_line("  {}  "), s("{}"));
    assert_eq!(clean_server_line("\0\0"), s(""));
}

#[test]
fn greeting_and_help() {
    assert_eq!(
        ping_backend("Ana"),
        s("¡Conexión exitosa, Ana! El core nativo de Rust está listo para recibir los sockets TCP.")
    );
    assert_eq!(print_help_msg(), None);
}

#[test]
fn written_addresses_read_back() {
    for (a, b, c, d, port) in [(0u8, 0u8, 0u8, 0u8, 0u16), (255, 255, 255, 255, 65535), (127, 0, 0, 1, 4444), (10, 9, 100, 7, 80)] {
        let text = format!("{}.{}.{}.{}.{}", a, b, c, d, port);
        assert_eq!(aux_get_addr(&text), Ok(Address { octets: [a, b, c, d], port }));
    }
    assert_eq!(aux_get_addr("1.2.3.4.5.6"), Err(()));
    assert_eq!(aux_get_addr(""), Err(()));
}

#[test]
fn notices_read_as_the_client_prints_them() {
    assert_eq!(
        notice(&ViewAction::NewStatus { username: "Ana".to_string(), status: State::Busy }),
        vec!["El estado de Ana ahora es Ocupado".to_string()]
    );
    assert_eq!(
        notice(&ViewAction::RoomTextFrom { username: "Ana".to_string(), roomname: "Sala".to_string(), text: "hola".to_string() }),
        vec!["[Sala] Ana: hola".to_string()]
    );
    assert_eq!(
        notice(&ViewAction::InvitationToRoom { username: "Bob".to_string(), roomname: "Sala".to_string() }),
        vec!["Bob te invitó al cuarto Sala".to_string()]
    );
    assert_eq!(
        notice(&ViewAction::Users { users: vec![("Ana".to_string(), State::Away), ("Bob".to_string(), State::Active)] }),
        vec!["Los usuarios actuales son:".to_string(), "Ana: Away".to_string(), "Bob: Active".to_string()]
    );
    assert!(notice(&ViewAction::Nothing).is_empty());
}
