use multi::messages::{Cmd, FromServerMessage};
use multi::player::{palette_color, Player, Pos, PALETTE_SIZE};
use multi::server::{already_signed_in_message, LookupOutcome, ServerState, UpdateError};

fn names(server: &ServerState) -> Vec<String> {
    let mut v: Vec<String> = server.world.players.iter().map(|(k, _)| k.clone()).collect();
    v.sort();
    v
}

fn username_of(server: &ServerState, endpoint: u64) -> Option<String> {
    server.clients.iter().find(|(e, _)| *e == endpoint).map(|(_, u)| u.clone())
}

fn player_of<'a>(server: &'a ServerState, name: &str) -> Option<&'a Player> {
    server.world.players.iter().find(|(k, _)| k == name).map(|(_, p)| p)
}

/// Connects `endpoint` and signs it in as `name` with a stored player at `at`.
fn sign_in_stored(server: &mut ServerState, endpoint: u64, name: &str, at: (i32, i32)) {
    server.on_connected(endpoint);
    assert!(server.check_sign_in(&name.to_string()).is_none());
    let stored = Player::new(name.to_string(), at, palette_color(0));
    match server.on_lookup(endpoint, name.to_string(), Ok(Some(stored))) {
        LookupOutcome::Reply(FromServerMessage::ConnectionSuccess) => {}
        other => panic!("unexpected {:?}", other),
    }
}

#[test]
fn new_server_is_empty() {
    let s = ServerState::new();
    assert!(s.clients.is_empty());
    assert!(s.world.players.is_empty());
    assert_eq!(s.world.map.chunks.len(), 4);
}

#[test]
fn connect_lists_endpoint_with_empty_name() {
    let mut s = ServerState::new();
    s.on_connected(7);
    s.on_connected(9);
    assert_eq!(s.clients.len(), 2);
    assert_eq!(username_of(&s, 7), Some(String::new()));
    // connecting the same endpoint again does not list it twice
    s.on_connected(7);
    assert_eq!(s.clients.len(), 2);
}

#[test]
fn already_signed_in_text() {
    assert_eq!(already_signed_in_message(&"zed".to_string()), "User zed is already signed in");
}

#[test]
fn sign_in_of_stored_player() {
    let mut s = ServerState::new();
    sign_in_stored(&mut s, 1, "amy", (10, 20));
    assert_eq!(username_of(&s, 1), Some("amy".to_string()));
    assert_eq!(names(&s), vec!["amy".to_string()]);
    assert_eq!(player_of(&s, "amy").unwrap().pos, Pos { x: 10, y: 20 });
}

#[test]
fn second_sign_in_is_refused() {
    let mut s = ServerState::new();
    sign_in_stored(&mut s, 1, "amy", (0, 0));
    s.on_connected(2);
    match s.check_sign_in(&"amy".to_string()) {
        Some(FromServerMessage::ConnectionError(text)) => assert_eq!(text, "User amy is already signed in"),
        other => panic!("unexpected {:?}", other),
    }
    assert_eq!(username_of(&s, 2), Some(String::new()));
}

#[test]
fn new_user_gets_default_player_after_store() {
    let mut s = ServerState::new();
    s.on_connected(4);
    let player = match s.on_lookup(4, "new".to_string(), Ok(None)) {
        LookupOutcome::Store(p) => p,
        other => panic!("unexpected {:?}", other),
    };
    assert_eq!(player.id, "new");
    assert_eq!(player.pos, Pos { x: 0, y: 0 });
    let palette: Vec<(u32, u32, u32)> = (0..PALETTE_SIZE).map(palette_color).collect();
    assert!(palette.contains(&player.settings.color));
    // recorded as the user, but not in the world until stored
    assert_eq!(username_of(&s, 4), Some("new".to_string()));
    assert!(s.world.players.is_empty());
    match s.on_stored("new".to_string(), player, Ok(())) {
        FromServerMessage::ConnectionSuccess => {}
        other => panic!("unexpected {:?}", other),
    }
    assert_eq!(names(&s), vec!["new".to_string()]);
}

#[test]
fn failed_store_is_reported_and_keeps_world() {
    let mut s = ServerState::new();
    s.on_connected(4);
    let player = match s.on_lookup(4, "new".to_string(), Ok(None)) {
        LookupOutcome::Store(p) => p,
        other => panic!("unexpected {:?}", other),
    };
    match s.on_stored("new".to_string(), player, Err("disk full".to_string())) {
        FromServerMessage::ConnectionError(text) => assert_eq!(text, "disk full"),
        other => panic!("unexpected {:?}", other),
    }
    assert!(s.world.players.is_empty());
    assert_eq!(username_of(&s, 4), Some("new".to_string()));
}

#[test]
fn lookup_error_is_passed_on() {
    let mut s = ServerState::new();
    s.on_connected(3);
    match s.on_lookup(3, "eve".to_string(), Err("no such table".to_string())) {
        LookupOutcome::Reply(FromServerMessage::ConnectionError(text)) => assert_eq!(text, "no such table"),
        other => panic!("unexpected {:?}", other),
    }
    assert_eq!(username_of(&s, 3), Some(String::new()));
    assert!(s.world.players.is_empty());
}

#[test]
fn disconnect_removes_client_and_player() {
    let mut s = ServerState::new();
    sign_in_stored(&mut s, 1, "amy", (0, 0));
    sign_in_stored(&mut s, 2, "bob", (0, 0));
    s.on_disconnected(1);
    assert_eq!(username_of(&s, 1), None);
    assert_eq!(names(&s), vec!["bob".to_string()]);
    // unknown endpoints change nothing
    s.on_disconnected(99);
    assert_eq!(s.clients.len(), 1);
    assert_eq!(names(&s), vec!["bob".to_string()]);
}

#[test]
fn update_moves_the_clients_player() {
    let mut s = ServerState::new();
    sign_in_stored(&mut s, 1, "amy", (0, 0));
    sign_in_stored(&mut s, 2, "bob", (100, 100));
    assert_eq!(s.on_update(1, &vec![Cmd::Down, Cmd::Down, Cmd::Right, Cmd::Up, Cmd::Left, Cmd::Left]), Ok(()));
    assert_eq!(player_of(&s, "amy").unwrap().pos, Pos { x: 0, y: 4 });
    assert_eq!(player_of(&s, "bob").unwrap().pos, Pos { x: 100, y: 100 });
    assert_eq!(player_of(&s, "amy").unwrap().id, "amy");
}

#[test]
fn update_errors() {
    let mut s = ServerState::new();
    assert_eq!(s.on_update(5, &vec![Cmd::Up]), Err(UpdateError::UnknownClient));
    s.on_connected(5);
    assert_eq!(s.on_update(5, &vec![Cmd::Up]), Err(UpdateError::NotSignedIn));
    sign_in_stored(&mut s, 6, "far", (0, i32::MAX));
    assert_eq!(s.on_update(6, &vec![Cmd::Left, Cmd::Down]), Err(UpdateError::Overflow));
    // a failed update changes nothing
    assert_eq!(player_of(&s, "far").unwrap().pos, Pos { x: 0, y: i32::MAX });
}

#[test]
fn tick_sends_world_to_every_client() {
    let mut s = ServerState::new();
    sign_in_stored(&mut s, 1, "amy", (4, 8));
    s.on_connected(2);
    let (msg, recipients) = s.tick();
    assert_eq!(recipients, vec![1, 2]);
    match msg {
        FromServerMessage::Tick { world } => {
            assert_eq!(world.players.len(), 1);
            assert_eq!(world.players[0].0, "amy");
            assert_eq!(world.players[0].1.pos, Pos { x: 4, y: 8 });
            assert_eq!(world.map.chunks, s.world.map.chunks);
        }
        other => panic!("unexpected {:?}", other),
    }
}
