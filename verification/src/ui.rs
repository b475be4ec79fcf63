//! The score as the first heads-up display kept it.

use crate::hud::score_line;
use vstd::prelude::*;

verus! {

/// The player's score. A miss costs points, so it can go below zero.
pub struct ScoreBoard(pub i32);

/// The line the scoreboard shows.
pub fn refresh_scoreboard_system(scoreboard_points: &ScoreBoard) -> (text: String)
    ensures
        text@ == score_line(scoreboard_points.0),
{
    crate::hud::score_text(scoreboard_points.0)
}

} // verus!
