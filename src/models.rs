use vstd::prelude::*;

verus! {

/// The stored form of one player's blackjack game.
pub struct BJSession {
    pub id: i64,
    /// `None` once the game's payout was claimed.
    pub bet: Option<i64>,
    /// `None` while in progress, `Some(true)` once the player won,
    /// `Some(false)` once the player lost.
    pub status: Option<bool>,
    pub deck: Vec<String>,
    pub player_hand: Vec<String>,
    pub dealer_hand: Vec<String>,
    pub player_stay: bool,
    pub dealer_stay: bool,
    pub first_turn: bool,
}

/// The stored form of one role-playing character.
pub struct RPGSession {
    pub id: i64,
    pub exp: i64,
    pub damage_recieved: i64,
    pub gear: Vec<String>,
}

} // verus!
