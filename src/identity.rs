use vstd::prelude::*;

verus! {

/// The mathematical value of a [`PlayerInfo`]: its three fields as character sequences.
pub struct PlayerView {
    pub id: Seq<char>,
    pub email: Seq<char>,
    pub username: Seq<char>,
}

/// An identity presented by a client in its init message. The id is chosen by
/// the client, so two clients may present the same email under different ids.
#[derive(Debug, PartialEq, Eq)]
pub struct PlayerInfo {
    pub player_id: String,
    pub player_email: String,
    pub player_username: String,
}

impl View for PlayerInfo {
    type V = PlayerView;

    open spec fn view(&self) -> PlayerView {
        PlayerView {
            id: self.player_id@,
            email: self.player_email@,
            username: self.player_username@,
        }
    }
}

impl Clone for PlayerInfo {
    fn clone(&self) -> (r: Self)
        ensures
            r@ == self@,
    {
        PlayerInfo {
            player_id: self.player_id.clone(),
            player_email: self.player_email.clone(),
            player_username: self.player_username.clone(),
        }
    }
}

impl PlayerInfo {
    pub fn new(player_id: String, player_email: String, player_username: String) -> (r: Self)
        ensures
            r@ == (PlayerView { id: player_id@, email: player_email@, username: player_username@ }),
    {
        PlayerInfo { player_id, player_email, player_username }
    }

    /// Builds an identity from its fields in the order id, email, username.
    pub fn from_vec_str(info: Vec<&str>) -> (r: Self)
        requires
            info@.len() >= 3,
        ensures
            r@ == (PlayerView { id: info@[0]@, email: info@[1]@, username: info@[2]@ }),
    {
        let player_id = String::from_str(info[0]);
        let player_email = String::from_str(info[1]);
        let player_username = String::from_str(info[2]);
        PlayerInfo { player_id, player_email, player_username }
    }

    /// Builds an identity from its fields in the order id, email, username.
    pub fn from_vec_string(info: Vec<String>) -> (r: Self)
        requires
            info@.len() >= 3,
        ensures
            r@ == (PlayerView { id: info@[0]@, email: info@[1]@, username: info@[2]@ }),
    {
        PlayerInfo {
            player_id: info[0].clone(),
            player_email: info[1].clone(),
            player_username: info[2].clone(),
        }
    }

    pub fn get_id(&self) -> (r: String)
        ensures
            r@ == self@.id,
    {
        self.player_id.clone()
    }

    pub fn get_email(&self) -> (r: String)
        ensures
            r@ == self@.email,
    {
        self.player_email.clone()
    }

    pub fn get_username(&self) -> (r: String)
        ensures
            r@ == self@.username,
    {
        self.player_username.clone()
    }
}

/// Tells the peers that the client which presented `player_id_client` is the
/// stored player `player_id_host`, whose id it should adopt.
#[derive(Debug, PartialEq, Eq)]
pub struct SyncPlayerIdEvent {
    pub player_id_host: String,
    pub player_id_client: String,
}

} // verus!
