use multi::messages::Cmd;
use multi::player::{palette_color, Player, Pos, ONE_BITS, PALETTE_SIZE};

fn pos(x: i32, y: i32) -> Pos {
    Pos { x, y }
}

#[test]
fn step_moves_by_four() {
    let p = pos(100, 100);
    assert_eq!(p.step(Cmd::Up), pos(100, 96));
    assert_eq!(p.step(Cmd::Down), pos(100, 104));
    assert_eq!(p.step(Cmd::Left), pos(96, 100));
    assert_eq!(p.step(Cmd::Right), pos(104, 100));
}

#[test]
fn step_clamps_at_the_edges() {
    assert_eq!(pos(2, 1).step(Cmd::Up), pos(2, 0));
    assert_eq!(pos(1, 2).step(Cmd::Left), pos(0, 2));
    assert_eq!(pos(0, 174).step(Cmd::Down), pos(0, 176));
    assert_eq!(pos(238, 0).step(Cmd::Right), pos(240, 0));
    assert_eq!(pos(0, 0).step(Cmd::Up), pos(0, 0));
    assert_eq!(pos(240, 176).step(Cmd::Right), pos(240, 176));
}

#[test]
fn step_off_the_map_is_only_clamped_towards_it() {
    // below the far edge nothing pulls a far-out position back towards zero
    assert_eq!(pos(0, -100).step(Cmd::Down), pos(0, -96));
    assert_eq!(pos(0, 1000).step(Cmd::Down), pos(0, 176));
    assert_eq!(pos(-50, 0).step(Cmd::Up), pos(-50, 0));
}

#[test]
fn step_fits_detects_overflow() {
    assert!(!pos(0, i32::MIN).step_fits(Cmd::Up));
    assert!(!pos(0, i32::MAX).step_fits(Cmd::Down));
    assert!(!pos(i32::MIN + 3, 0).step_fits(Cmd::Left));
    assert!(!pos(i32::MAX - 3, 0).step_fits(Cmd::Right));
    assert!(pos(i32::MIN + 4, 0).step_fits(Cmd::Left));
    assert!(pos(0, i32::MAX - 4).step_fits(Cmd::Down));
}

#[test]
fn walk_applies_commands_in_order() {
    let cmds = vec![Cmd::Down, Cmd::Right, Cmd::Right, Cmd::Up];
    assert_eq!(pos(0, 0).walk(&cmds), Some(pos(8, 0)));
    assert_eq!(pos(5, 5).walk(&vec![]), Some(pos(5, 5)));
}

#[test]
fn walk_reports_overflow() {
    assert_eq!(pos(0, i32::MIN).walk(&vec![Cmd::Right, Cmd::Up]), None);
    // an earlier clamp keeps a later step in range
    assert_eq!(pos(0, i32::MIN).walk(&vec![Cmd::Down, Cmd::Up]), Some(pos(0, 0)));
}

#[test]
fn walk_stays_on_map() {
    let cmds: Vec<Cmd> = (0..200).map(|i| match i % 3 { 0 => Cmd::Down, 1 => Cmd::Right, _ => Cmd::Down }).collect();
    let end = pos(0, 0).walk(&cmds).unwrap();
    assert_eq!(end, pos(240, 176));
    let back: Vec<Cmd> = (0..200).map(|i| if i % 2 == 0 { Cmd::Up } else { Cmd::Left }).collect();
    assert_eq!(end.walk(&back), Some(pos(0, 0)));
}

#[test]
fn opposite_moves_cancel() {
    let p = pos(50, 60);
    assert_eq!(p.walk(&vec![Cmd::Up, Cmd::Down]), Some(p));
    assert_eq!(p.walk(&vec![Cmd::Down, Cmd::Up]), Some(p));
    assert_eq!(p.walk(&vec![Cmd::Left, Cmd::Right]), Some(p));
    assert_eq!(p.walk(&vec![Cmd::Right, Cmd::Left]), Some(p));
    // at the edge they do not
    assert_eq!(pos(0, 0).walk(&vec![Cmd::Up, Cmd::Down]), Some(pos(0, 4)));
}

#[test]
fn palette_holds_red_green_blue_black_white() {
    assert_eq!(ONE_BITS, 1.0f32.to_bits());
    assert_eq!(0u32, 0.0f32.to_bits());
    let expected = [(1.0f32, 0.0f32, 0.0f32), (0.0, 1.0, 0.0), (0.0, 0.0, 1.0), (0.0, 0.0, 0.0), (1.0, 1.0, 1.0)];
    for (i, (r, g, b)) in expected.iter().enumerate() {
        assert_eq!(palette_color(i), (r.to_bits(), g.to_bits(), b.to_bits()));
    }
}

#[test]
fn player_new_keeps_its_arguments() {
    let p = Player::new("ann".to_string(), (3, -4), (1, 2, 3));
    assert_eq!(p.id, "ann");
    assert_eq!(p.pos, pos(3, -4));
    assert_eq!(p.settings.color, (1, 2, 3));
}

#[test]
fn player_with_palette_color_starts_at_origin() {
    let p = Player::with_palette_color("bo".to_string(), 2);
    assert_eq!(p.id, "bo");
    assert_eq!(p.pos, pos(0, 0));
    assert_eq!(p.settings.color, (0, 0, ONE_BITS));
}

#[test]
fn player_default_picks_palette_colors_at_random() {
    let palette: Vec<(u32, u32, u32)> = (0..PALETTE_SIZE).map(palette_color).collect();
    let mut seen = Vec::new();
    for _ in 0..200 {
        let p = Player::default("cy".to_string());
        assert_eq!(p.id, "cy");
        assert_eq!(p.pos, pos(0, 0));
        assert!(palette.contains(&p.settings.color));
        if !seen.contains(&p.settings.color) {
            seen.push(p.settings.color);
        }
    }
    assert!(seen.len() > 1);
}

#[test]
fn player_clone_is_equal() {
    let p = Player::new("dee".to_string(), (1, 2), (3, 4, 5));
    let q = p.clone();
    assert_eq!(q.id, p.id);
    assert_eq!(q.pos, p.pos);
    assert_eq!(q.settings.color, p.settings.color);
}
