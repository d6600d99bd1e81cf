use vstd::prelude::*;

use crate::map::{standard_layout, GameMap};
use crate::keyed::{entries_map, has_key, keys_unique, lemma_entries_map_push, lemma_entries_map_remove, lemma_entries_map_update};
use crate::player::Player;

verus! {

/// Everything the server broadcasts: the signed-in players, each under its
/// username, and the map. A well-formed world holds each username once.
#[derive(Debug)]
pub struct WorldState {
    pub players: Vec<(String, Player)>,
    pub map: GameMap,
}

impl View for WorldState {
    type V = (Map<Seq<char>, Player>, Seq<Seq<(i32, i32)>>);

    /// A world is its players, by username, and its map.
    open spec fn view(&self) -> (Map<Seq<char>, Player>, Seq<Seq<(i32, i32)>>) {
        (entries_map(self.players@), self.map@)
    }
}

impl WorldState {
    /// Whether each username appears at most once.
    pub open spec fn wf(&self) -> bool {
        keys_unique(self.players@)
    }

    /// The signed-in players as a map from username to player.
    pub open spec fn player_map(&self) -> Map<Seq<char>, Player> {
        entries_map(self.players@)
    }

    /// A world with no players and the map in its standard layout.
    pub fn new() -> (w: WorldState)
        ensures
            w.wf(),
            w.players@.len() == 0,
            w.player_map() == Map::<Seq<char>, Player>::empty(),
            w.map@ == standard_layout(),
    {
        let players: Vec<(String, Player)> = Vec::new();
        let map = GameMap::new();
        let w = WorldState { players, map };
        assert(w.player_map() =~= Map::<Seq<char>, Player>::empty());
        w
    }

    /// The index of the entry filed under `username`, if any.
    pub fn find(&self, username: &String) -> (r: Option<usize>)
        ensures
            match r {
                Some(i) => i < self.players@.len() && self.players@[i as int].0@ == username@,
                None => !has_key(self.players@, username@),
            },
    {
        let mut i: usize = 0;
        while i < self.players.len()
            invariant
                0 <= i <= self.players@.len(),
                forall|a: int| 0 <= a < i ==> (#[trigger] self.players@[a]).0@ != username@,
            decreases self.players@.len() - i,
        {
            if self.players[i].0 == *username {
                return Some(i);
            }
            i = i + 1;
        }
        None
    }

    /// Whether a player is signed in under `username`.
    pub fn contains_player(&self, username: &String) -> (r: bool)
        ensures
            r == has_key(self.players@, username@),
            r == self.player_map().dom().contains(username@),
    {
        self.find(username).is_some()
    }

    /// Files `player` under `username`, replacing any player filed there.
    pub fn insert_player(&mut self, username: String, player: Player)
        requires
            old(self).wf(),
        ensures
            final(self).wf(),
            final(self).player_map() == old(self).player_map().insert(username@, player),
            final(self).map == old(self).map,
    {
        match self.find(&username) {
            Some(i) => {
                proof {
                    lemma_entries_map_update(self.players@, i as int, username, player);
                }
                self.players.set(i, (username, player));
            },
            None => {
                proof {
                    lemma_entries_map_push(self.players@, username, player);
                }
                self.players.push((username, player));
            },
        }
    }

    /// Removes the player filed under `username`, if any.
    pub fn remove_player(&mut self, username: &String)
        requires
            old(self).wf(),
        ensures
            final(self).wf(),
            final(self).player_map() == old(self).player_map().remove(username@),
            final(self).map == old(self).map,
    {
        match self.find(username) {
            Some(i) => {
                proof {
                    lemma_entries_map_remove(self.players@, i as int);
                }
                self.players.remove(i);
            },
            None => {
                assert(self.player_map() =~= self.player_map().remove(username@));
            },
        }
    }
}

impl Clone for WorldState {
    /// A copy of the world, equal to it entry for entry.
    fn clone(&self) -> (r: WorldState)
        ensures
            r.players@ == self.players@,
            r.map@ == self.map@,
    {
        let mut players: Vec<(String, Player)> = Vec::with_capacity(self.players.len());
        let mut i: usize = 0;
        while i < self.players.len()
            invariant
                0 <= i <= self.players@.len(),
                players@ == self.players@.take(i as int),
            decreases self.players@.len() - i,
        {
            let entry = (self.players[i].0.clone(), self.players[i].1.clone());
            players.push(entry);
            assert(self.players@.take(i + 1) =~= self.players@.take(i as int).push(self.players@[i as int]));
            i = i + 1;
        }
        assert(self.players@.take(i as int) =~= self.players@);
        let map = self.map.clone();
        WorldState { players, map }
    }
}

} // verus!
