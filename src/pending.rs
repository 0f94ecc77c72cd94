use vstd::prelude::*;
use crate::identity::{PlayerInfo, PlayerView};

verus! {

/// Identities waiting for reconciliation. They are kept in arrival order and
/// handed out most recent first.
#[derive(Debug)]
pub struct PlayerInfoStorage {
    pub players: Vec<PlayerInfo>,
}

impl View for PlayerInfoStorage {
    type V = Seq<PlayerView>;

    open spec fn view(&self) -> Seq<PlayerView> {
        self.players@.map_values(|p: PlayerInfo| p@)
    }
}

impl PlayerInfoStorage {
    pub fn new() -> (r: Self)
        ensures
            r@ == Seq::<PlayerView>::empty(),
    {
        PlayerInfoStorage { players: Vec::new() }
    }

    /// Appends a newly arrived identity.
    pub fn add(&mut self, player: PlayerInfo)
        ensures
            final(self)@ == old(self)@.push(player@),
    {
        self.players.push(player);
        assert(self@ =~= old(self)@.push(player@));
    }

    pub fn players_vec_len(&self) -> (r: usize)
        ensures
            r == self@.len(),
    {
        self.players.len()
    }

    /// The most recent arrival, left in place.
    pub fn get_last_player(&self) -> (r: Option<PlayerInfo>)
        ensures
            self@.len() == 0 ==> r is None,
            self@.len() > 0 ==> r is Some && r->Some_0@ == self@.last(),
    {
        let n = self.players.len();
        if n == 0 {
            None
        } else {
            Some(self.players[n - 1].clone())
        }
    }

    /// Removes and returns the most recent arrival.
    pub fn get_last_player_and_pop(&mut self) -> (r: Option<PlayerInfo>)
        ensures
            old(self)@.len() == 0 ==> r is None && final(self)@ == old(self)@,
            old(self)@.len() > 0 ==> r is Some && r->Some_0@ == old(self)@.last()
                && final(self)@ == old(self)@.drop_last(),
    {
        let r = self.players.pop();
        if r.is_some() {
            assert(self@ =~= old(self)@.drop_last());
        }
        r
    }

    /// Removes the most recent arrival and returns its id.
    pub fn get_last_player_id_and_pop_player(&mut self) -> (r: Option<String>)
        ensures
            old(self)@.len() == 0 ==> r is None && final(self)@ == old(self)@,
            old(self)@.len() > 0 ==> r is Some && r->Some_0@ == old(self)@.last().id
                && final(self)@ == old(self)@.drop_last(),
    {
        match self.get_last_player_and_pop() {
            Some(p) => Some(p.player_id),
            None => None,
        }
    }

    /// The id of the most recent arrival, left in place.
    pub fn get_last_player_id_string(&self) -> (r: Option<String>)
        ensures
            self@.len() == 0 ==> r is None,
            self@.len() > 0 ==> r is Some && r->Some_0@ == self@.last().id,
    {
        let n = self.players.len();
        if n == 0 {
            None
        } else {
            Some(self.players[n - 1].get_id())
        }
    }
}

} // verus!
