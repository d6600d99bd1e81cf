//! The client's decisions: which messages to send for the keys held down,
//! what to do with each message from the server, and how the username typed
//! at sign-in is cleaned up.

use vstd::prelude::*;
use vstd::string::*;

use crate::messages::{Cmd, FromClientMessage, FromServerMessage};
use crate::server::{ticked, ServerState};
use crate::world::WorldState;

verus! {

/// What a message from the server meant for the client.
#[derive(Debug)]
pub enum ClientReply {
    /// The local world now mirrors the server's.
    Synced,
    /// The sign-in was accepted.
    SignedIn,
    /// The sign-in was refused, for this reason; the client gives up.
    Refused(String),
}

/// The commands for the movement keys held down, in the order up, down,
/// left, right.
pub open spec fn pressed_commands(up: bool, down: bool, left: bool, right: bool) -> Seq<Cmd> {
    (if up { seq![Cmd::Up] } else { seq![] }) + (if down { seq![Cmd::Down] } else { seq![] }) + (
    if left { seq![Cmd::Left] } else { seq![] }) + (if right { seq![Cmd::Right] } else { seq![] })
}

/// How many of the four movement keys are held.
pub open spec fn held_count(up: bool, down: bool, left: bool, right: bool) -> int {
    (if up { 1int } else { 0 }) + (if down { 1int } else { 0 }) + (if left { 1int } else { 0 }) + (
    if right { 1int } else { 0 })
}

/// Each held key contributes its own command and no other, once: a command
/// is sent exactly when its key is held, and there are as many commands as
/// keys held, with up before down before left before right.
pub proof fn lemma_pressed_commands(up: bool, down: bool, left: bool, right: bool)
    ensures
        pressed_commands(up, down, left, right).contains(Cmd::Up) == up,
        pressed_commands(up, down, left, right).contains(Cmd::Down) == down,
        pressed_commands(up, down, left, right).contains(Cmd::Left) == left,
        pressed_commands(up, down, left, right).contains(Cmd::Right) == right,
        pressed_commands(up, down, left, right).len() == held_count(up, down, left, right),
        forall|i: int, j: int|
            0 <= i < j < pressed_commands(up, down, left, right).len() ==> cmd_rank(
                #[trigger] pressed_commands(up, down, left, right)[i],
            ) < cmd_rank(#[trigger] pressed_commands(up, down, left, right)[j]),
{
    let s = pressed_commands(up, down, left, right);
    let u: Seq<Cmd> = if up { seq![Cmd::Up] } else { seq![] };
    let d: Seq<Cmd> = if down { seq![Cmd::Down] } else { seq![] };
    let l: Seq<Cmd> = if left { seq![Cmd::Left] } else { seq![] };
    let r: Seq<Cmd> = if right { seq![Cmd::Right] } else { seq![] };
    assert(s == u + d + l + r);
    assert forall|c: Cmd| #[trigger] s.contains(c) <==> (u.contains(c) || d.contains(c) || l.contains(c) || r.contains(c)) by {
        if s.contains(c) {
            let k = choose|k: int| 0 <= k < s.len() && s[k] == c;
            if k < u.len() {
                assert(u[k] == c);
            } else if k < u.len() + d.len() {
                assert(d[k - u.len()] == c);
            } else if k < u.len() + d.len() + l.len() {
                assert(l[k - u.len() - d.len()] == c);
            } else {
                assert(r[k - u.len() - d.len() - l.len()] == c);
            }
        }
        if u.contains(c) {
            assert(s[0] == c);
        }
        if d.contains(c) {
            assert(s[u.len() as int] == c);
        }
        if l.contains(c) {
            assert(s[(u.len() + d.len()) as int] == c);
        }
        if r.contains(c) {
            assert(s[(u.len() + d.len() + l.len()) as int] == c);
        }
    }
    assert(up ==> u.contains(Cmd::Up) && u[0] == Cmd::Up);
    assert(down ==> d.contains(Cmd::Down) && d[0] == Cmd::Down);
    assert(left ==> l.contains(Cmd::Left) && l[0] == Cmd::Left);
    assert(right ==> r.contains(Cmd::Right) && r[0] == Cmd::Right);
    assert forall|i: int| 0 <= i < s.len() implies cmd_rank(#[trigger] s[i]) == rank_at(u.len() as int, d.len() as int, l.len() as int, i) by {
        if i < u.len() {
            assert(s[i] == u[i]);
        } else if i < u.len() + d.len() {
            assert(s[i] == d[i - u.len()]);
        } else if i < u.len() + d.len() + l.len() {
            assert(s[i] == l[i - u.len() - d.len()]);
        } else {
            assert(s[i] == r[i - u.len() - d.len() - l.len()]);
        }
    }
}

/// The place of a command in the order up, down, left, right.
pub open spec fn cmd_rank(c: Cmd) -> int {
    match c {
        Cmd::Up => 0,
        Cmd::Down => 1,
        Cmd::Left => 2,
        Cmd::Right => 3,
    }
}

/// The rank of the command at index `i` of a concatenation of parts of
/// lengths `nu`, `nd`, `nl` (and the rest).
spec fn rank_at(nu: int, nd: int, nl: int, i: int) -> int {
    if i < nu { 0 } else if i < nu + nd { 1 } else if i < nu + nd + nl { 2 } else { 3 }
}

/// The commands for the movement keys held down, in the order up, down,
/// left, right.
pub fn pressed_keys_commands(up: bool, down: bool, left: bool, right: bool) -> (r: Vec<Cmd>)
    ensures
        r@ == pressed_commands(up, down, left, right),
        r@.contains(Cmd::Up) == up,
        r@.contains(Cmd::Down) == down,
        r@.contains(Cmd::Left) == left,
        r@.contains(Cmd::Right) == right,
        r@.len() == held_count(up, down, left, right),
{
    proof {
        lemma_pressed_commands(up, down, left, right);
    }
    let mut cmds: Vec<Cmd> = Vec::new();
    if up {
        cmds.push(Cmd::Up);
    }
    if down {
        cmds.push(Cmd::Down);
    }
    if left {
        cmds.push(Cmd::Left);
    }
    if right {
        cmds.push(Cmd::Right);
    }
    assert(cmds@ =~= pressed_commands(up, down, left, right));
    cmds
}

/// The message to send for the movement keys held down in one frame: an
/// update with their commands, or nothing when no key is held.
pub fn input_message(up: bool, down: bool, left: bool, right: bool) -> (r: Option<FromClientMessage>)
    ensures
        r is None <==> !(up || down || left || right),
        r matches Some(m) ==> (m matches FromClientMessage::Update { cmds } && cmds@ == pressed_commands(
            up,
            down,
            left,
            right,
        )),
{
    let cmds = pressed_keys_commands(up, down, left, right);
    if cmds.len() > 0 {
        Some(FromClientMessage::Update { cmds })
    } else {
        None
    }
}

/// The effect of `msg` on a client whose world was `before`: a tick makes
/// the world the server's, other messages leave it and are reported.
pub open spec fn received(before: WorldState, msg: FromServerMessage, after: WorldState, reply: ClientReply) -> bool {
    match msg {
        FromServerMessage::Tick { world } => {
            &&& after.players == world.players
            &&& after.map == world.map
            &&& reply matches ClientReply::Synced
        },
        FromServerMessage::ConnectionSuccess => {
            &&& after == before
            &&& reply matches ClientReply::SignedIn
        },
        FromServerMessage::ConnectionError(text) => {
            &&& after == before
            &&& reply matches ClientReply::Refused(t) && t == text
        },
    }
}

/// Handles a message from the server on the client's copy of the world.
pub fn apply_server_message(world: &mut WorldState, msg: FromServerMessage) -> (r: ClientReply)
    ensures
        received(*old(world), msg, *final(world), r),
{
    match msg {
        FromServerMessage::Tick { world: server_world } => {
            world.players = server_world.players;
            world.map = server_world.map;
            ClientReply::Synced
        },
        FromServerMessage::ConnectionSuccess => ClientReply::SignedIn,
        FromServerMessage::ConnectionError(text) => ClientReply::Refused(text),
    }
}

/// A client that receives the server's broadcast holds exactly the server's
/// world afterwards.
pub proof fn lemma_tick_syncs_client(
    server: ServerState,
    msg: FromServerMessage,
    recipients: Seq<u64>,
    before: WorldState,
    after: WorldState,
    reply: ClientReply,
)
    requires
        ticked(server, msg, recipients),
        received(before, msg, after, reply),
    ensures
        after@ == server.world@,
        after.wf(),
        reply matches ClientReply::Synced,
{
}

/// Whether `c` is white space in the sense of Unicode's `White_Space`
/// property, the sense of Rust's `char::is_whitespace`.
pub open spec fn is_white_space(c: char) -> bool {
    let n = c as u32;
    ||| 0x9 <= n <= 0xd
    ||| n == 0x20
    ||| n == 0x85
    ||| n == 0xa0
    ||| n == 0x1680
    ||| 0x2000 <= n <= 0x200a
    ||| n == 0x2028
    ||| n == 0x2029
    ||| n == 0x202f
    ||| n == 0x205f
    ||| n == 0x3000
}

/// The code points with Unicode's `White_Space` property, listed one by one.
pub open spec fn white_space_table() -> Seq<u32> {
    seq![
        0x9u32, 0xa, 0xb, 0xc, 0xd, 0x20, 0x85, 0xa0, 0x1680, 0x2000, 0x2001, 0x2002, 0x2003,
        0x2004, 0x2005, 0x2006, 0x2007, 0x2008, 0x2009, 0x200a, 0x2028, 0x2029, 0x202f, 0x205f,
        0x3000,
    ]
}

/// A character is white space exactly when its code point is in the table
/// of `White_Space` code points.
pub proof fn lemma_white_space_table(c: char)
    ensures
        is_white_space(c) <==> white_space_table().contains(c as u32),
{
    let t = white_space_table();
    let n = c as u32;
    assert(t.len() == 25);
    if is_white_space(c) {
        if 0x9 <= n <= 0xd {
            assert(t[(n - 0x9) as int] == n);
        } else if n == 0x20 {
            assert(t[5] == n);
        } else if n == 0x85 {
            assert(t[6] == n);
        } else if n == 0xa0 {
            assert(t[7] == n);
        } else if n == 0x1680 {
            assert(t[8] == n);
        } else if 0x2000 <= n <= 0x200a {
            assert(t[(n - 0x2000 + 9) as int] == n);
        } else if n == 0x2028 {
            assert(t[20] == n);
        } else if n == 0x2029 {
            assert(t[21] == n);
        } else if n == 0x202f {
            assert(t[22] == n);
        } else if n == 0x205f {
            assert(t[23] == n);
        } else {
            assert(t[24] == n);
        }
    }
    if t.contains(n) {
        let k = choose|k: int| 0 <= k < t.len() && t[k] == n;
        assert(0 <= k < 25);
    }
}

/// Whether `c` is white space (Unicode `White_Space`).
pub fn white_space(c: char) -> (r: bool)
    ensures
        r == is_white_space(c),
        r == white_space_table().contains(c as u32),
{
    proof {
        lemma_white_space_table(c);
    }
    let n = c as u32;
    (0x9 <= n && n <= 0xd) || n == 0x20 || n == 0x85 || n == 0xa0 || n == 0x1680 || (0x2000 <= n
        && n <= 0x200a) || n == 0x2028 || n == 0x2029 || n == 0x202f || n == 0x205f || n == 0x3000
}

/// `s` without its leading white space.
pub open spec fn trim_start(s: Seq<char>) -> Seq<char>
    decreases s.len(),
{
    if s.len() > 0 && is_white_space(s[0]) {
        trim_start(s.drop_first())
    } else {
        s
    }
}

/// `s` without its trailing white space.
pub open spec fn trim_end(s: Seq<char>) -> Seq<char>
    decreases s.len(),
{
    if s.len() > 0 && is_white_space(s.last()) {
        trim_end(s.drop_last())
    } else {
        s
    }
}

/// `s` without leading and trailing white space.
pub open spec fn trimmed(s: Seq<char>) -> Seq<char> {
    trim_end(trim_start(s))
}

/// Where leading white space ends: `trim_start(s)` is `s` from that index
/// on, everything before it is white space, and the character there is not.
pub proof fn lemma_trim_start(s: Seq<char>) -> (a: int)
    ensures
        0 <= a <= s.len(),
        trim_start(s) == s.subrange(a, s.len() as int),
        forall|i: int| 0 <= i < a ==> is_white_space(#[trigger] s[i]),
        a < s.len() ==> !is_white_space(s[a]),
    decreases s.len(),
{
    if s.len() > 0 && is_white_space(s[0]) {
        let a0 = lemma_trim_start(s.drop_first());
        assert(s.drop_first().subrange(a0, s.drop_first().len() as int) =~= s.subrange(a0 + 1, s.len() as int));
        assert forall|i: int| 0 <= i < a0 + 1 implies is_white_space(#[trigger] s[i]) by {
            if i > 0 {
                assert(s[i] == s.drop_first()[i - 1]);
            }
        }
        a0 + 1
    } else {
        assert(s.subrange(0, s.len() as int) =~= s);
        0
    }
}

/// Where trailing white space starts: `trim_end(s)` is `s` up to that index,
/// everything from it on is white space, and the character before it is not.
pub proof fn lemma_trim_end(s: Seq<char>) -> (b: int)
    ensures
        0 <= b <= s.len(),
        trim_end(s) == s.subrange(0, b),
        forall|i: int| b <= i < s.len() ==> is_white_space(#[trigger] s[i]),
        b > 0 ==> !is_white_space(s[b - 1]),
    decreases s.len(),
{
    if s.len() > 0 && is_white_space(s.last()) {
        let b0 = lemma_trim_end(s.drop_last());
        assert(s.drop_last().subrange(0, b0) =~= s.subrange(0, b0));
        assert forall|i: int| b0 <= i < s.len() implies is_white_space(#[trigger] s[i]) by {
            if i < s.len() - 1 {
                assert(s[i] == s.drop_last()[i]);
            }
        }
        b0
    } else {
        assert(s.subrange(0, s.len() as int) =~= s);
        s.len() as int
    }
}

/// Trimming removes exactly the white space at both ends: the result is the
/// part of `s` between `a` and `b`, everything outside it is white space,
/// and the result neither starts nor ends with white space (so an input that
/// is all white space trims to nothing, and one with no white space at its
/// ends is kept whole).
pub proof fn lemma_trimmed(s: Seq<char>) -> (ab: (int, int))
    ensures
        0 <= ab.0 <= ab.1 <= s.len(),
        trimmed(s) == s.subrange(ab.0, ab.1),
        forall|i: int| 0 <= i < ab.0 ==> is_white_space(#[trigger] s[i]),
        forall|i: int| ab.1 <= i < s.len() ==> is_white_space(#[trigger] s[i]),
        trimmed(s).len() > 0 ==> !is_white_space(trimmed(s)[0]) && !is_white_space(trimmed(s).last()),
        s.len() > 0 && !is_white_space(s[0]) && !is_white_space(s.last()) ==> trimmed(s) == s,
{
    let a = lemma_trim_start(s);
    let t = s.subrange(a, s.len() as int);
    let b0 = lemma_trim_end(t);
    assert(t.subrange(0, b0) =~= s.subrange(a, a + b0));
    assert forall|i: int| a + b0 <= i < s.len() implies is_white_space(#[trigger] s[i]) by {
        assert(s[i] == t[i - a]);
    }
    if b0 > 0 {
        assert(s[a] == t[0]);
        assert(trimmed(s)[0] == s[a]);
        assert(trimmed(s).last() == t[b0 - 1]);
    }
    if s.len() > 0 && !is_white_space(s[0]) && !is_white_space(s.last()) {
        assert(a == 0);
        assert(t =~= s);
        assert(b0 == s.len());
        assert(s.subrange(0, s.len() as int) =~= s);
    }
    (a, a + b0)
}

/// The username given at sign-in, without leading and trailing white space.
pub fn username_from_input(raw: &str) -> (r: String)
    ensures
        r@ == trimmed(raw@),
        r@.len() > 0 ==> !is_white_space(r@[0]) && !is_white_space(r@.last()),
        exists|a: int, b: int|
            0 <= a <= b <= raw@.len() && r@ == raw@.subrange(a, b) && (forall|i: int|
                0 <= i < a ==> is_white_space(#[trigger] raw@[i])) && (forall|i: int|
                b <= i < raw@.len() ==> is_white_space(#[trigger] raw@[i])),
{
    proof {
        let ab = lemma_trimmed(raw@);
        assert(0 <= ab.0 <= ab.1 <= raw@.len() && trimmed(raw@) == raw@.subrange(ab.0, ab.1));
    }
    let n = raw.unicode_len();
    let mut a: usize = 0;
    assert(raw@.subrange(0, n as int) =~= raw@);
    while a < n && white_space(raw.get_char(a))
        invariant
            n == raw@.len(),
            0 <= a <= n,
            trim_start(raw@) == trim_start(raw@.subrange(a as int, n as int)),
        decreases n - a,
    {
        assert(raw@.subrange(a as int, n as int).drop_first() =~= raw@.subrange(a + 1, n as int));
        a = a + 1;
    }
    let ghost rest = raw@.subrange(a as int, n as int);
    assert(trim_start(rest) == rest);
    let mut b: usize = n;
    while b > a && white_space(raw.get_char(b - 1))
        invariant
            n == raw@.len(),
            0 <= a <= b <= n,
            trim_end(rest) == trim_end(raw@.subrange(a as int, b as int)),
            rest == raw@.subrange(a as int, n as int),
        decreases b - a,
    {
        assert(raw@.subrange(a as int, b as int).drop_last() =~= raw@.subrange(a as int, b - 1));
        b = b - 1;
    }
    let ghost kept = raw@.subrange(a as int, b as int);
    assert(trim_end(kept) == kept);
    String::from_str(raw.substring_char(a, b))
}

} // verus!
