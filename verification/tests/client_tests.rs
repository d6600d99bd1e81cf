use multi::client::{apply_server_message, input_message, pressed_keys_commands, username_from_input, white_space, ClientReply};
use multi::messages::{Cmd, FromClientMessage, FromServerMessage};
use multi::player::Player;
use multi::server::ServerState;
use multi::world::WorldState;

#[test]
fn pressed_keys_in_fixed_order() {
    assert_eq!(pressed_keys_commands(true, true, true, true), vec![Cmd::Up, Cmd::Down, Cmd::Left, Cmd::Right]);
    assert_eq!(pressed_keys_commands(false, true, false, true), vec![Cmd::Down, Cmd::Right]);
    assert!(pressed_keys_commands(false, false, false, false).is_empty());
}

#[test]
fn input_message_only_when_a_key_is_held() {
    assert!(input_message(false, false, false, false).is_none());
    match input_message(false, false, true, false) {
        Some(FromClientMessage::Update { cmds }) => assert_eq!(cmds, vec![Cmd::Left]),
        other => panic!("unexpected {:?}", other),
    }
}

#[test]
fn tick_replaces_the_local_world() {
    let mut server = ServerState::new();
    server.on_connected(1);
    let p = Player::new("amy".to_string(), (12, 16), (0, 0, 0));
    server.on_lookup(1, "amy".to_string(), Ok(Some(p)));
    let (msg, _) = server.tick();

    let mut local = WorldState::new();
    match apply_server_message(&mut local, msg) {
        ClientReply::Synced => {}
        other => panic!("unexpected {:?}", other),
    }
    assert_eq!(local.players.len(), 1);
    assert_eq!(local.players[0].0, "amy");
    assert_eq!(local.players[0].1.pos.x, 12);
    assert_eq!(local.map.chunks, server.world.map.chunks);
}

#[test]
fn sign_in_answers_are_reported() {
    let mut local = WorldState::new();
    match apply_server_message(&mut local, FromServerMessage::ConnectionSuccess) {
        ClientReply::SignedIn => {}
        other => panic!("unexpected {:?}", other),
    }
    match apply_server_message(&mut local, FromServerMessage::ConnectionError("User x is already signed in".to_string())) {
        ClientReply::Refused(text) => assert_eq!(text, "User x is already signed in"),
        other => panic!("unexpected {:?}", other),
    }
    assert!(local.players.is_empty());
}

#[test]
fn username_is_trimmed_like_str_trim() {
    let samples = ["  amy\n", "bob", "\t\r\n", "", " a b ", "\u{3000}zed\u{a0}", "\u{200b}x\u{200b}", "é ", "\u{85}\u{2028}q"];
    for s in samples.iter() {
        assert_eq!(username_from_input(s), s.trim(), "input {:?}", s);
    }
}

#[test]
fn white_space_matches_char_is_whitespace() {
    for n in 0u32..0x3100 {
        if let Some(c) = char::from_u32(n) {
            assert_eq!(white_space(c), c.is_whitespace(), "char {:#x}", n);
        }
    }
}
