//! The record of a finished game, as it is kept in the score history.

use crate::board::Player;
use crate::eval::Winner;
use vstd::prelude::*;
use vstd::string::StringExecFns;

verus! {

/// A finished game: its type, the names of the two players and of the
/// winner, and the time at which it ended, in milliseconds since the epoch.
/// The number is empty until the store has given one.
#[allow(non_snake_case)]
#[derive(Debug)]
pub struct Game {
    pub gameNumber: String,
    pub gameType: String,
    pub Player1Name: String,
    pub Player2Name: String,
    pub WinnerName: String,
    pub GameDate: u64,
}

/// The name under which the winner is recorded: the first player's name for
/// a win of the first side, the second player's for a win of the second,
/// and `Draw` for a draw.
pub open spec fn winner_name_of(winner: Winner, player1: Seq<char>, player2: Seq<char>) -> Seq<
    char,
> {
    match winner {
        Winner::Side(Player::First) => player1,
        Winner::Side(Player::Second) => player2,
        Winner::Draw => "Draw"@,
    }
}

/// The name under which the winner of a game is recorded.
pub fn winner_name(winner: Winner, player1: &str, player2: &str) -> (name: String)
    ensures
        name@ == winner_name_of(winner, player1@, player2@),
{
    match winner {
        Winner::Side(Player::First) => String::from_str(player1),
        Winner::Side(Player::Second) => String::from_str(player2),
        Winner::Draw => String::from_str("Draw"),
    }
}

impl Game {
    /// The record of a game that has just ended: no number yet, the type and
    /// the players as given, the winner's name by `winner_name_of`, and the
    /// date as given.
    pub fn finished(game_type: &str, player1: &str, player2: &str, winner: Winner, date: u64) -> (game:
        Game)
        ensures
            game.gameNumber@ == Seq::<char>::empty(),
            game.gameType@ == game_type@,
            game.Player1Name@ == player1@,
            game.Player2Name@ == player2@,
            game.WinnerName@ == winner_name_of(winner, player1@, player2@),
            game.GameDate == date,
    {
        Game {
            gameNumber: String::new(),
            gameType: String::from_str(game_type),
            Player1Name: String::from_str(player1),
            Player2Name: String::from_str(player2),
            WinnerName: winner_name(winner, player1, player2),
            GameDate: date,
        }
    }
}

} // verus!
