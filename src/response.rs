//! The structured result of a match, as it is reported back.
use vstd::prelude::*;

verus! {

#[allow(non_camel_case_types)]
#[derive(Debug, Clone, Copy, PartialEq, Eq, Structural)]
pub enum GameStatusEnum {
    EXECUTING,
    EXECUTED,
    EXECUTE_ERROR,
}

/// The outcome of a finished match. The destruction percentage is kept as the
/// simulator wrote it (`None` when it reported none); it is a floating-point number
/// on the wire.
#[derive(Debug, Clone, PartialEq)]
pub struct GameResult {
    pub destruction_percentage: Option<String>,
    pub coins_used: u64,
    pub has_errors: bool,
    pub log: String,
}

#[derive(Debug, Clone, PartialEq)]
pub struct GameStatus {
    pub game_id: String,
    pub game_status: GameStatusEnum,
    pub game_result: Option<GameResult>,
}

} // verus!
