//! The checks and derived fields of a new game of the catalog.
use crate::calls::{chrono_shifted, lower_of, shift_time, trim_of};
use crate::error::AppError;
use crate::models::game::{CreateGameRequest, SportType};
use crate::text::{is_blank, parse_sport_type, sport_named};
use vstd::prelude::*;

verus! {

/// What a valid request to create a game yields: its sport and its listing cutoff.
#[derive(Debug, Clone, Copy, PartialEq, Eq, Structural)]
pub struct GamePlan {
    pub sport_type: SportType,
    pub cutoff_time: i64,
}

/// The rules on a new game, checked in order: a name, a start in the future, a known
/// sport, and a cutoff `cutoff_minutes` before the start that chrono can represent.
pub open spec fn game_check(req: CreateGameRequest, now: i64, cutoff_minutes: i64) -> Result<
    GamePlan,
    AppError,
> {
    if trim_of(req.name@).len() == 0 {
        Err(AppError::EmptyGameName)
    } else if req.game_time <= now {
        Err(AppError::GameTimeNotInFuture)
    } else {
        match sport_named(lower_of(req.sport_type@)) {
            None => Err(AppError::InvalidSportType),
            Some(sport) => {
                let secs = cutoff_minutes * 60;
                if !(i64::MIN < secs <= i64::MAX) {
                    Err(AppError::InvalidCutoff)
                } else {
                    match chrono_shifted(req.game_time, (-secs) as i64) {
                        Some(c) => Ok(GamePlan { sport_type: sport, cutoff_time: c }),
                        None => Err(AppError::InvalidCutoff),
                    }
                }
            },
        }
    }
}

/// Checks a request to create a game and derives its sport and listing cutoff.
pub fn prepare_game(req: &CreateGameRequest, now: i64, cutoff_minutes: i64) -> (r: Result<
    GamePlan,
    AppError,
>)
    ensures
        r == game_check(*req, now, cutoff_minutes),
        r matches Ok(p) ==> p.cutoff_time == req.game_time - cutoff_minutes * 60,
{
    if is_blank(req.name.as_str()) {
        return Err(AppError::EmptyGameName);
    }
    if req.game_time <= now {
        return Err(AppError::GameTimeNotInFuture);
    }
    let sport = parse_sport_type(req.sport_type.as_str())?;
    let secs = cutoff_minutes as i128 * 60;
    if secs <= i64::MIN as i128 || secs > i64::MAX as i128 {
        return Err(AppError::InvalidCutoff);
    }
    let back = -(secs as i64);
    match shift_time(req.game_time, back) {
        Some(c) => Ok(GamePlan { sport_type: sport, cutoff_time: c }),
        None => Err(AppError::InvalidCutoff),
    }
}

} // verus!
