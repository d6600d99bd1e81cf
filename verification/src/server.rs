//! The server's decisions. The server keeps the world and, for every
//! connected client, the username it signed in with (empty until it signs
//! in). Each network event, and each answer of the player database, is
//! handed to one of these functions, which updates the state and says what
//! to send back.

use vstd::prelude::*;

use crate::keyed::{entries_map, has_key, keys_unique, lemma_entries_map_push, lemma_entries_map_remove, lemma_entries_map_update};
use crate::map::standard_layout;
use crate::messages::{Cmd, FromServerMessage};
use crate::player::{in_palette, lemma_walk_stays_on_map, on_map, walk, Player, Pos};
use crate::world::WorldState;

verus! {

/// The server's state: the world and the connected clients, each an
/// endpoint number with the username it signed in as.
#[derive(Debug)]
pub struct ServerState {
    pub world: WorldState,
    pub clients: Vec<(u64, String)>,
}

/// What to do after the player database was asked for a signing-in user.
#[derive(Debug)]
pub enum LookupOutcome {
    /// The user is new: store this player in the database, then hand the
    /// result to `on_stored`.
    Store(Player),
    /// Send this reply to the client.
    Reply(FromServerMessage),
}

/// Why movement commands could not be applied.
#[derive(Debug, Clone, Copy, PartialEq, Eq, Structural)]
pub enum UpdateError {
    /// The endpoint is not a connected client.
    UnknownClient,
    /// The client has no player in the world.
    NotSignedIn,
    /// A step would leave `i32` arithmetic.
    Overflow,
}

/// The refusal text for a username that is already signed in.
pub open spec fn already_signed_in_text(username: Seq<char>) -> Seq<char> {
    "User "@ + username + " is already signed in"@
}

/// The refusal text for a username that is already signed in.
pub fn already_signed_in_message(username: &String) -> (r: String)
    ensures
        r@ == already_signed_in_text(username@),
{
    let mut text = String::from_str("User ");
    text.append(username.as_str());
    text.append(" is already signed in");
    text
}

/// The endpoints of `clients`, in order.
pub open spec fn endpoints(clients: Seq<(u64, String)>) -> Seq<u64> {
    clients.map_values(|c: (u64, String)| c.0)
}

/// What a disconnection of `endpoint` does: the endpoint is no longer
/// listed, and if it was, the player of its username leaves the world.
pub open spec fn disconnected(before: ServerState, endpoint: u64, after: ServerState) -> bool {
    &&& after.client_map() == before.client_map().remove(endpoint)
    &&& before.client_map().dom().contains(endpoint) ==> after.world@.0 == before.world@.0.remove(
        before.client_map()[endpoint]@,
    )
    &&& !before.client_map().dom().contains(endpoint) ==> after.world == before.world
    &&& after.world.map == before.world.map
}

/// The answer to a sign-in request for `username`: a refusal with the
/// already-signed-in text exactly when a player of that name is in the world.
pub open spec fn sign_in_answer(s: ServerState, username: Seq<char>, r: Option<FromServerMessage>) -> bool {
    &&& r is None <==> !s.world@.0.dom().contains(username)
    &&& r matches Some(m) ==> (m matches FromServerMessage::ConnectionError(text) && text@
        == already_signed_in_text(username))
}

/// What the database's answer `fetched` for `username`, signing in from
/// `endpoint`, does.
pub open spec fn looked_up(
    before: ServerState,
    endpoint: u64,
    username: String,
    fetched: Result<Option<Player>, String>,
    r: LookupOutcome,
    after: ServerState,
) -> bool {
    &&& after.world.map == before.world.map
    &&& match fetched {
        Ok(None) => {
            &&& r matches LookupOutcome::Store(p) && p.id == username && p.pos == (Pos { x: 0, y: 0 })
                && in_palette(p.settings.color)
            &&& after.client_map() == before.client_map().insert(endpoint, username)
            &&& after.world == before.world
        },
        Ok(Some(player)) => {
            &&& r matches LookupOutcome::Reply(FromServerMessage::ConnectionSuccess)
            &&& after.client_map() == before.client_map().insert(endpoint, username)
            &&& after.world@.0 == before.world@.0.insert(username@, player)
        },
        Err(text) => {
            &&& r matches LookupOutcome::Reply(FromServerMessage::ConnectionError(t)) && t == text
            &&& after.client_map() == before.client_map()
            &&& after.world == before.world
        },
    }
}

/// What the database's answer `stored` on storing the new `player` of
/// `username` does.
pub open spec fn stored_answer(
    before: ServerState,
    username: String,
    player: Player,
    stored: Result<(), String>,
    r: FromServerMessage,
    after: ServerState,
) -> bool {
    &&& after.clients == before.clients
    &&& after.world.map == before.world.map
    &&& match stored {
        Ok(()) => {
            &&& r matches FromServerMessage::ConnectionSuccess
            &&& after.world@.0 == before.world@.0.insert(username@, player)
        },
        Err(text) => {
            &&& r matches FromServerMessage::ConnectionError(t) && t == text
            &&& after.world == before.world
        },
    }
}

/// What movement commands `cmds` from `endpoint` do.
pub open spec fn updated(
    before: ServerState,
    endpoint: u64,
    cmds: Seq<Cmd>,
    r: Result<(), UpdateError>,
    after: ServerState,
) -> bool {
    let name = before.client_map()[endpoint]@;
    let p = before.world@.0[name];
    &&& after.clients == before.clients
    &&& after.world.map == before.world.map
    &&& r is Err ==> after.world == before.world
    &&& !before.client_map().dom().contains(endpoint) ==> r == Err::<(), UpdateError>(
        UpdateError::UnknownClient,
    )
    &&& before.client_map().dom().contains(endpoint) && !before.world@.0.dom().contains(name) ==> r
        == Err::<(), UpdateError>(UpdateError::NotSignedIn)
    &&& before.client_map().dom().contains(endpoint) && before.world@.0.dom().contains(name) ==> match walk(
        p.pos,
        cmds,
    ) {
        None => r == Err::<(), UpdateError>(UpdateError::Overflow),
        Some(q) => r == Ok::<(), UpdateError>(()) && after.world@.0 == before.world@.0.insert(
            name,
            Player { id: p.id, pos: q, settings: p.settings },
        ),
    }
}

/// The broadcast of `s`: a tick carrying a well-formed copy of the world,
/// addressed to every listed endpoint in order.
pub open spec fn ticked(s: ServerState, msg: FromServerMessage, recipients: Seq<u64>) -> bool {
    &&& msg matches FromServerMessage::Tick { world } && world@ == s.world@ && world.wf()
    &&& recipients == endpoints(s.clients@)
}

/// The broadcast reaches every listed client, each once and in the order
/// listed: the i-th recipient is the endpoint of the i-th client.
pub proof fn lemma_tick_reaches_every_client(s: ServerState, msg: FromServerMessage, recipients: Seq<u64>)
    requires
        ticked(s, msg, recipients),
    ensures
        recipients.len() == s.clients@.len(),
        forall|i: int| 0 <= i < s.clients@.len() ==> recipients[i] == #[trigger] s.clients@[i].0,
{
}

/// Whether every player in `w` stands on the map.
pub open spec fn players_on_map(w: WorldState) -> bool {
    forall|k: Seq<char>| #[trigger] w@.0.dom().contains(k) ==> on_map(w@.0[k].pos)
}

/// Once a user has signed in with a stored player, asking to sign in as the
/// same user again is refused as already signed in.
pub proof fn lemma_signed_in_user_is_refused(
    s0: ServerState,
    endpoint: u64,
    username: String,
    player: Player,
    r: LookupOutcome,
    s1: ServerState,
    answer: Option<FromServerMessage>,
)
    requires
        looked_up(s0, endpoint, username, Ok(Some(player)), r, s1),
        sign_in_answer(s1, username@, answer),
    ensures
        answer matches Some(FromServerMessage::ConnectionError(text)) && text@ == already_signed_in_text(
            username@,
        ),
{
    assert(s1.world@.0.dom().contains(username@));
}

/// A new user gets a player at the origin in a palette colour; once the
/// database has stored it, the sign-in succeeds, the player is in the world
/// under the username, and the endpoint is recorded as that user.
pub proof fn lemma_new_user_joins(
    s0: ServerState,
    endpoint: u64,
    username: String,
    player: Player,
    s1: ServerState,
    reply: FromServerMessage,
    s2: ServerState,
)
    requires
        looked_up(s0, endpoint, username, Ok(None), LookupOutcome::Store(player), s1),
        stored_answer(s1, username, player, Ok(()), reply, s2),
    ensures
        reply matches FromServerMessage::ConnectionSuccess,
        s2.world@.0.dom().contains(username@),
        s2.world@.0[username@] == player,
        player.id == username,
        player.pos == (Pos { x: 0, y: 0 }),
        in_palette(player.settings.color),
        s2.client_map().dom().contains(endpoint),
        s2.client_map()[endpoint] == username,
{
    assert(s2.clients@ == s1.clients@);
}

/// A client that signed in and then disconnects leaves neither its endpoint
/// nor its player behind.
pub proof fn lemma_disconnect_signs_out(
    s0: ServerState,
    endpoint: u64,
    username: String,
    fetched: Result<Option<Player>, String>,
    r: LookupOutcome,
    s1: ServerState,
    s2: ServerState,
)
    requires
        fetched is Ok,
        looked_up(s0, endpoint, username, fetched, r, s1),
        disconnected(s1, endpoint, s2),
    ensures
        !s2.client_map().dom().contains(endpoint),
        !s2.world@.0.dom().contains(username@),
{
    assert(s1.client_map().dom().contains(endpoint));
    assert(s1.client_map()[endpoint] == username);
}

/// Movement never takes a player off the map: if every player stands on the
/// map, an update cannot fail for overflow, and afterwards every player
/// still stands on the map.
pub proof fn lemma_update_keeps_players_on_map(
    s0: ServerState,
    endpoint: u64,
    cmds: Seq<Cmd>,
    r: Result<(), UpdateError>,
    s1: ServerState,
)
    requires
        players_on_map(s0.world),
        updated(s0, endpoint, cmds, r, s1),
    ensures
        r != Err::<(), UpdateError>(UpdateError::Overflow),
        players_on_map(s1.world),
{
    let name = s0.client_map()[endpoint]@;
    if s0.client_map().dom().contains(endpoint) && s0.world@.0.dom().contains(name) {
        let p = s0.world@.0[name];
        assert(on_map(p.pos));
        lemma_walk_stays_on_map(p.pos, cmds);
        let q = walk(p.pos, cmds)->0;
        assert forall|k: Seq<char>| #[trigger] s1.world@.0.dom().contains(k) implies on_map(s1.world@.0[k].pos) by {
            if k != name {
                assert(s0.world@.0.dom().contains(k));
            }
        }
    }
}

impl ServerState {
    /// The world is well formed and no endpoint is listed twice.
    pub open spec fn wf(&self) -> bool {
        &&& self.world.wf()
        &&& keys_unique(self.clients@)
    }

    /// The connected clients as a map from endpoint to username.
    pub open spec fn client_map(&self) -> Map<u64, String> {
        entries_map(self.clients@)
    }

    /// A server with an empty world and no clients.
    pub fn new() -> (s: ServerState)
        ensures
            s.wf(),
            s.world@.0 == Map::<Seq<char>, Player>::empty(),
            s.world@.1 == standard_layout(),
            s.clients@.len() == 0,
    {
        let s = ServerState { world: WorldState::new(), clients: Vec::new() };
        assert(s.client_map() =~= Map::<u64, String>::empty());
        s
    }

    /// The index of `endpoint` among the clients, if it is connected.
    fn find_client(&self, endpoint: u64) -> (r: Option<usize>)
        ensures
            match r {
                Some(i) => i < self.clients@.len() && self.clients@[i as int].0 == endpoint,
                None => !has_key(self.clients@, endpoint),
            },
    {
        let mut i: usize = 0;
        while i < self.clients.len()
            invariant
                0 <= i <= self.clients@.len(),
                forall|a: int| 0 <= a < i ==> (#[trigger] self.clients@[a]).0 != endpoint,
            decreases self.clients@.len() - i,
        {
            if self.clients[i].0 == endpoint {
                return Some(i);
            }
            i = i + 1;
        }
        None
    }

    /// Records that `endpoint` is the client signed in as `username`,
    /// replacing what was recorded for it.
    fn set_client(&mut self, endpoint: u64, username: String)
        requires
            old(self).wf(),
        ensures
            final(self).wf(),
            final(self).client_map() == old(self).client_map().insert(endpoint, username),
            final(self).world == old(self).world,
    {
        match self.find_client(endpoint) {
            Some(i) => {
                proof {
                    lemma_entries_map_update(self.clients@, i as int, endpoint, username);
                }
                self.clients.set(i, (endpoint, username));
            },
            None => {
                proof {
                    lemma_entries_map_push(self.clients@, endpoint, username);
                }
                self.clients.push((endpoint, username));
            },
        }
    }

    /// A client connected: it is listed with an empty username.
    pub fn on_connected(&mut self, endpoint: u64)
        requires
            old(self).wf(),
        ensures
            final(self).wf(),
            final(self).client_map().dom() == old(self).client_map().dom().insert(endpoint),
            final(self).client_map()[endpoint]@ == Seq::<char>::empty(),
            forall|e: u64| e != endpoint && #[trigger] old(self).client_map().dom().contains(e)
                ==> final(self).client_map()[e] == old(self).client_map()[e],
            final(self).world == old(self).world,
    {
        self.set_client(endpoint, String::new());
    }

    /// A client disconnected: it is no longer listed, and the player it
    /// signed in as leaves the world.
    pub fn on_disconnected(&mut self, endpoint: u64)
        requires
            old(self).wf(),
        ensures
            final(self).wf(),
            disconnected(*old(self), endpoint, *final(self)),
    {
        match self.find_client(endpoint) {
            Some(i) => {
                proof {
                    lemma_entries_map_remove(self.clients@, i as int);
                }
                let entry = self.clients.remove(i);
                self.world.remove_player(&entry.1);
            },
            None => {
                assert(self.client_map() =~= self.client_map().remove(endpoint));
            },
        }
    }

    /// A client asked to sign in as `username`. If a player of that name is
    /// already in the world, the answer is the refusal to send; otherwise
    /// there is none, and the player database is to be asked next.
    pub fn check_sign_in(&self, username: &String) -> (r: Option<FromServerMessage>)
        ensures
            sign_in_answer(*self, username@, r),
    {
        if self.world.contains_player(username) {
            Some(FromServerMessage::ConnectionError(already_signed_in_message(username)))
        } else {
            None
        }
    }

    /// The player database answered for `username`, who signs in from
    /// `endpoint`: with the stored player, with none, or with an error text.
    /// A stored player joins the world; a new user gets a fresh player that
    /// is to be stored first. In both cases the client is recorded as
    /// `username`. An error is passed on to the client.
    pub fn on_lookup(&mut self, endpoint: u64, username: String, fetched: Result<Option<Player>, String>) -> (r: LookupOutcome)
        requires
            old(self).wf(),
        ensures
            final(self).wf(),
            looked_up(*old(self), endpoint, username, fetched, r, *final(self)),
    {
        match fetched {
            Ok(None) => {
                let player = Player::default(username.clone());
                self.set_client(endpoint, username);
                LookupOutcome::Store(player)
            },
            Ok(Some(player)) => {
                self.set_client(endpoint, username.clone());
                self.world.insert_player(username, player);
                LookupOutcome::Reply(FromServerMessage::ConnectionSuccess)
            },
            Err(text) => LookupOutcome::Reply(FromServerMessage::ConnectionError(text)),
        }
    }

    /// The player database answered whether the new player of `username`
    /// was stored. If it was, the player joins the world; either way the
    /// answer is the reply to send.
    pub fn on_stored(&mut self, username: String, player: Player, stored: Result<(), String>) -> (r: FromServerMessage)
        requires
            old(self).wf(),
        ensures
            final(self).wf(),
            stored_answer(*old(self), username, player, stored, r, *final(self)),
    {
        match stored {
            Ok(()) => {
                self.world.insert_player(username, player);
                FromServerMessage::ConnectionSuccess
            },
            Err(text) => FromServerMessage::ConnectionError(text),
        }
    }

    /// Movement commands from `endpoint`: the player of the username it
    /// signed in as moves through `cmds` in order. Fails, changing nothing,
    /// when the endpoint is unknown, when no player of that name is in the
    /// world, or when a step would leave `i32` arithmetic.
    pub fn on_update(&mut self, endpoint: u64, cmds: &Vec<Cmd>) -> (r: Result<(), UpdateError>)
        requires
            old(self).wf(),
        ensures
            final(self).wf(),
            updated(*old(self), endpoint, cmds@, r, *final(self)),
    {
        let ci = match self.find_client(endpoint) {
            Some(ci) => ci,
            None => {
                return Err(UpdateError::UnknownClient);
            },
        };
        proof {
            crate::keyed::lemma_lookup_at(self.clients@, ci as int);
        }
        let username = self.clients[ci].1.clone();
        let pi = match self.world.find(&username) {
            Some(pi) => pi,
            None => {
                return Err(UpdateError::NotSignedIn);
            },
        };
        proof {
            crate::keyed::lemma_lookup_at(self.world.players@, pi as int);
        }
        let player = &self.world.players[pi].1;
        match player.pos.walk(cmds) {
            None => Err(UpdateError::Overflow),
            Some(q) => {
                let moved = Player { id: player.id.clone(), pos: q, settings: player.settings };
                self.world.insert_player(username, moved);
                Ok(())
            },
        }
    }

    /// The periodic broadcast: a snapshot of the world, to be sent to every
    /// connected client, in the order the clients are listed.
    pub fn tick(&self) -> (r: (FromServerMessage, Vec<u64>))
        requires
            self.wf(),
        ensures
            ticked(*self, r.0, r.1@),
            r.1@.len() == self.clients@.len(),
            forall|i: int| 0 <= i < self.clients@.len() ==> r.1@[i] == #[trigger] self.clients@[i].0,
    {
        let world = self.world.clone();
        let mut recipients: Vec<u64> = Vec::with_capacity(self.clients.len());
        let mut i: usize = 0;
        while i < self.clients.len()
            invariant
                0 <= i <= self.clients@.len(),
                recipients@ == endpoints(self.clients@).take(i as int),
            decreases self.clients@.len() - i,
        {
            recipients.push(self.clients[i].0);
            assert(endpoints(self.clients@).take(i + 1) =~= endpoints(self.clients@).take(i as int).push(self.clients@[i as int].0));
            i = i + 1;
        }
        assert(endpoints(self.clients@).take(i as int) =~= endpoints(self.clients@));
        (FromServerMessage::Tick { world }, recipients)
    }
}

} // verus!
