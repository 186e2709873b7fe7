use vstd::prelude::*;

verus! {

/// The sports that games are listed under.
#[derive(Debug, Clone, Copy, PartialEq, Eq, Structural)]
pub enum SportType {
    Football,
    Basketball,
    Hockey,
}

/// A game of the catalog. Times are Unix seconds.
#[derive(Debug)]
pub struct Game {
    pub id: u128,
    pub sport_type: SportType,
    pub name: String,
    pub game_time: i64,
    pub cutoff_time: i64,
}

/// Request to create a game.
#[derive(Debug)]
pub struct CreateGameRequest {
    pub sport_type: String,
    pub name: String,
    pub game_time: i64,
}

/// Response of the game listing.
#[derive(Debug)]
pub struct ListGamesResponse {
    pub games: Vec<Game>,
}

} // verus!
