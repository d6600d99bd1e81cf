use vstd::prelude::*;

use rand::Rng;

use crate::constants::{MAP_HEIGHT, MAP_WIDTH, PLAYER_SIZE, STEP};
use crate::messages::Cmd;

verus! {

/// Bit pattern of the `f32` value `1.0`; `0` is the bit pattern of `0.0`.
pub const ONE_BITS: u32 = 0x3f80_0000;

/// Number of colours a new player can be given.
pub const PALETTE_SIZE: usize = 5;

/// A player's settings. Each colour component is the IEEE-754 bit pattern
/// of an `f32` in red, green, blue order.
#[derive(Debug, Clone, Copy)]
pub struct PlayerSettings {
    pub color: (u32, u32, u32),
}

/// A position on the map in pixels.
#[derive(Debug, Clone, Copy, PartialEq, Eq, Structural)]
pub struct Pos {
    pub x: i32,
    pub y: i32,
}

/// A player: its identifier (the username), position and settings.
#[derive(Debug)]
pub struct Player {
    pub id: String,
    pub pos: Pos,
    pub settings: PlayerSettings,
}

impl Clone for Player {
    fn clone(&self) -> (r: Player)
        ensures
            r == *self,
    {
        Player { id: self.id.clone(), pos: self.pos, settings: self.settings }
    }
}

/// The colours a new player is drawn from: red, green, blue, black, white.
pub open spec fn palette(i: int) -> (u32, u32, u32) {
    if i == 0 {
        (ONE_BITS, 0, 0)
    } else if i == 1 {
        (0, ONE_BITS, 0)
    } else if i == 2 {
        (0, 0, ONE_BITS)
    } else if i == 3 {
        (0, 0, 0)
    } else {
        (ONE_BITS, ONE_BITS, ONE_BITS)
    }
}

/// Whether `color` is one of the palette's colours.
pub open spec fn in_palette(color: (u32, u32, u32)) -> bool {
    exists|i: int| 0 <= i < PALETTE_SIZE && palette(i) == color
}

/// The palette colour at `index`.
pub fn palette_color(index: usize) -> (c: (u32, u32, u32))
    requires
        index < PALETTE_SIZE,
    ensures
        c == palette(index as int),
{
    if index == 0 {
        (ONE_BITS, 0, 0)
    } else if index == 1 {
        (0, ONE_BITS, 0)
    } else if index == 2 {
        (0, 0, ONE_BITS)
    } else if index == 3 {
        (0, 0, 0)
    } else {
        (ONE_BITS, ONE_BITS, ONE_BITS)
    }
}

/// A uniformly random index below `n`, drawn with `rand::thread_rng()` and
/// `Rng::gen_range(0..n)`. The contract claims only that the index lies in
/// `0..n`; `gen_range` panics on an empty range, hence `n > 0`.
#[verifier::external_body]
fn random_index(n: usize) -> (r: usize)
    requires
        n > 0,
    ensures
        r < n,
{
    rand::thread_rng().gen_range(0..n)
}

/// Whether applying `cmd` at `p` stays within `i32` arithmetic.
pub open spec fn step_fits(p: Pos, cmd: Cmd) -> bool {
    match cmd {
        Cmd::Up => p.y - STEP >= i32::MIN,
        Cmd::Down => p.y + STEP <= i32::MAX,
        Cmd::Left => p.x - STEP >= i32::MIN,
        Cmd::Right => p.x + STEP <= i32::MAX,
    }
}

/// Smaller of two integers.
pub open spec fn min_int(a: int, b: int) -> int {
    if a <= b { a } else { b }
}

/// Larger of two integers.
pub open spec fn max_int(a: int, b: int) -> int {
    if a >= b { a } else { b }
}

/// The position after `cmd`: up and left move `STEP` pixels towards zero but
/// not below zero; down and right move `STEP` pixels away from zero but not
/// past the map's far edge minus the player's size.
pub open spec fn stepped(p: Pos, cmd: Cmd) -> Pos {
    match cmd {
        Cmd::Up => Pos { x: p.x, y: max_int(0, p.y - STEP) as i32 },
        Cmd::Down => Pos { x: p.x, y: min_int(p.y + STEP, MAP_HEIGHT - PLAYER_SIZE) as i32 },
        Cmd::Left => Pos { x: max_int(0, p.x - STEP) as i32, y: p.y },
        Cmd::Right => Pos { x: min_int(p.x + STEP, MAP_WIDTH - PLAYER_SIZE) as i32, y: p.y },
    }
}

/// The position after applying `cmds` in order from `p`, or `None` if some
/// step leaves `i32` arithmetic.
pub open spec fn walk(p: Pos, cmds: Seq<Cmd>) -> Option<Pos>
    decreases cmds.len(),
{
    if cmds.len() == 0 {
        Some(p)
    } else if step_fits(p, cmds[0]) {
        walk(stepped(p, cmds[0]), cmds.drop_first())
    } else {
        None
    }
}

/// Whether `p` lies in the area where a player may stand.
pub open spec fn on_map(p: Pos) -> bool {
    &&& 0 <= p.x <= MAP_WIDTH - PLAYER_SIZE
    &&& 0 <= p.y <= MAP_HEIGHT - PLAYER_SIZE
}

/// How one command moves a position, in plain arithmetic: the moved
/// coordinate changes by exactly `STEP` pixels, except that up and left stop
/// at zero and down and right stop at the far edge less the player's size;
/// the other coordinate stays.
pub open spec fn step_moves(p: Pos, cmd: Cmd, r: Pos) -> bool {
    match cmd {
        Cmd::Up => r.x == p.x && r.y == (if p.y >= STEP { p.y - STEP } else { 0 }),
        Cmd::Down => r.x == p.x && r.y == (if p.y + STEP <= MAP_HEIGHT - PLAYER_SIZE {
            p.y + STEP
        } else {
            MAP_HEIGHT - PLAYER_SIZE
        }),
        Cmd::Left => r.y == p.y && r.x == (if p.x >= STEP { p.x - STEP } else { 0 }),
        Cmd::Right => r.y == p.y && r.x == (if p.x + STEP <= MAP_WIDTH - PLAYER_SIZE {
            p.x + STEP
        } else {
            MAP_WIDTH - PLAYER_SIZE
        }),
    }
}

/// Each command moves a position by exactly `STEP` pixels along its own axis
/// unless clamped at an edge, and leaves the other axis alone; from a
/// position on the map, a step never moves more than `STEP` pixels and never
/// leaves the map.
pub proof fn lemma_step_moves(p: Pos, cmd: Cmd)
    requires
        step_fits(p, cmd),
    ensures
        step_moves(p, cmd, stepped(p, cmd)),
        on_map(p) ==> on_map(stepped(p, cmd)),
        on_map(p) ==> -STEP <= stepped(p, cmd).x - p.x <= STEP,
        on_map(p) ==> -STEP <= stepped(p, cmd).y - p.y <= STEP,
{
}

impl Pos {
    /// The position after one movement command.
    pub fn step(&self, cmd: Cmd) -> (r: Pos)
        requires
            step_fits(*self, cmd),
        ensures
            r == stepped(*self, cmd),
            step_moves(*self, cmd, r),
    {
        proof {
            lemma_step_moves(*self, cmd);
        }
        match cmd {
            Cmd::Up => {
                let y = self.y - STEP;
                Pos { x: self.x, y: if y < 0 { 0 } else { y } }
            },
            Cmd::Down => {
                let y = self.y + STEP;
                let limit = MAP_HEIGHT - PLAYER_SIZE;
                Pos { x: self.x, y: if y < limit { y } else { limit } }
            },
            Cmd::Left => {
                let x = self.x - STEP;
                Pos { x: if x < 0 { 0 } else { x }, y: self.y }
            },
            Cmd::Right => {
                let x = self.x + STEP;
                let limit = MAP_WIDTH - PLAYER_SIZE;
                Pos { x: if x < limit { x } else { limit }, y: self.y }
            },
        }
    }

    /// Whether one movement command can be applied without leaving `i32`
    /// arithmetic.
    pub fn step_fits(&self, cmd: Cmd) -> (r: bool)
        ensures
            r == step_fits(*self, cmd),
    {
        match cmd {
            Cmd::Up => self.y >= i32::MIN + STEP,
            Cmd::Down => self.y <= i32::MAX - STEP,
            Cmd::Left => self.x >= i32::MIN + STEP,
            Cmd::Right => self.x <= i32::MAX - STEP,
        }
    }

    /// The position after applying `cmds` in order, or `None` where a step
    /// would leave `i32` arithmetic.
    pub fn walk(&self, cmds: &Vec<Cmd>) -> (r: Option<Pos>)
        ensures
            r == walk(*self, cmds@),
    {
        let mut cur = *self;
        let mut i: usize = 0;
        assert(cmds@.skip(0) =~= cmds@);
        while i < cmds.len()
            invariant
                0 <= i <= cmds@.len(),
                walk(*self, cmds@) == walk(cur, cmds@.skip(i as int)),
            decreases cmds@.len() - i,
        {
            let cmd = cmds[i];
            assert(cmds@.skip(i as int)[0] == cmd);
            assert(cmds@.skip(i as int).drop_first() =~= cmds@.skip(i + 1));
            if !cur.step_fits(cmd) {
                return None;
            }
            cur = cur.step(cmd);
            i = i + 1;
        }
        assert(cmds@.skip(i as int).len() == 0);
        Some(cur)
    }
}

/// Movement keeps a player on the map: from any position on the map, every
/// sequence of commands can be applied, and it ends on the map.
pub proof fn lemma_walk_stays_on_map(p: Pos, cmds: Seq<Cmd>)
    requires
        on_map(p),
    ensures
        walk(p, cmds) is Some,
        on_map(walk(p, cmds)->0),
    decreases cmds.len(),
{
    if cmds.len() > 0 {
        lemma_walk_stays_on_map(stepped(p, cmds[0]), cmds.drop_first());
    }
}

/// Away from the edges, a move followed by the opposite move returns the
/// player to where it started.
pub proof fn lemma_opposite_moves_cancel(p: Pos)
    ensures
        STEP <= p.y <= MAP_HEIGHT - PLAYER_SIZE ==> walk(p, seq![Cmd::Up, Cmd::Down]) == Some(p),
        0 <= p.y <= MAP_HEIGHT - PLAYER_SIZE - STEP ==> walk(p, seq![Cmd::Down, Cmd::Up]) == Some(p),
        STEP <= p.x <= MAP_WIDTH - PLAYER_SIZE ==> walk(p, seq![Cmd::Left, Cmd::Right]) == Some(p),
        0 <= p.x <= MAP_WIDTH - PLAYER_SIZE - STEP ==> walk(p, seq![Cmd::Right, Cmd::Left]) == Some(p),
{
    reveal_with_fuel(walk, 3);
    assert(seq![Cmd::Up, Cmd::Down].drop_first() =~= seq![Cmd::Down]);
    assert(seq![Cmd::Down, Cmd::Up].drop_first() =~= seq![Cmd::Up]);
    assert(seq![Cmd::Left, Cmd::Right].drop_first() =~= seq![Cmd::Right]);
    assert(seq![Cmd::Right, Cmd::Left].drop_first() =~= seq![Cmd::Left]);
    assert(seq![Cmd::Up].drop_first() =~= Seq::<Cmd>::empty());
    assert(seq![Cmd::Down].drop_first() =~= Seq::<Cmd>::empty());
    assert(seq![Cmd::Left].drop_first() =~= Seq::<Cmd>::empty());
    assert(seq![Cmd::Right].drop_first() =~= Seq::<Cmd>::empty());
}

impl Player {
    /// A player with the given identifier, position `(x, y)` and colour.
    pub fn new(id: String, pos: (i32, i32), color: (u32, u32, u32)) -> (p: Player)
        ensures
            p.id == id,
            p.pos == (Pos { x: pos.0, y: pos.1 }),
            p.settings.color == color,
    {
        let settings = PlayerSettings { color };
        Player { id, pos: Pos { x: pos.0, y: pos.1 }, settings }
    }

    /// A new player at the origin, in the palette colour at `index`.
    pub fn with_palette_color(id: String, index: usize) -> (p: Player)
        requires
            index < PALETTE_SIZE,
        ensures
            p.id == id,
            p.pos == (Pos { x: 0, y: 0 }),
            p.settings.color == palette(index as int),
    {
        let color = palette_color(index);
        Player::new(id, (0, 0), color)
    }

    /// A new player at the origin, in a palette colour picked at random.
    pub fn default(id: String) -> (p: Player)
        ensures
            p.id == id,
            p.pos == (Pos { x: 0, y: 0 }),
            in_palette(p.settings.color),
    {
        let index = random_index(PALETTE_SIZE);
        Player::with_palette_color(id, index)
    }
}

} // verus!
