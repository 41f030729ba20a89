//! Match requests: the troops, the budget, the players' code and, for a normal
//! match, the map.
use vstd::prelude::*;

verus! {

#[derive(Debug, Clone, Copy, PartialEq, Eq, Structural)]
pub struct Attacker {
    pub id: u32,
    pub hp: u32,
    pub range: u32,
    pub attack_power: u32,
    pub speed: u32,
    pub price: u32,
    pub is_aerial: u32,
    pub weight: u32,
    pub num_ability_turns: u32,
    pub ability_activation_cost: u32,
}

#[derive(Debug, Clone, Copy, PartialEq, Eq, Structural)]
pub struct Defender {
    pub id: u32,
    pub hp: u32,
    pub range: u32,
    pub attack_power: u32,
    pub price: u32,
    pub is_aerial: u32,
}

#[derive(Debug, Clone, PartialEq)]
pub struct GameParameters {
    pub attackers: Vec<Attacker>,
    pub defenders: Vec<Defender>,
    pub no_of_turns: u32,
    pub no_of_coins: u32,
}

#[derive(Debug, Clone, PartialEq)]
pub struct PvPGameParameters {
    pub attackers: Vec<Attacker>,
    pub defenders: Vec<Defender>,
    pub no_of_turns: u32,
    /// Coins granted per turn.
    pub no_of_coins: u32,
}

#[derive(Debug, Clone, Copy, PartialEq, Eq, Structural)]
pub enum Language {
    CPP,
    JAVA,
    PYTHON,
}

#[derive(Debug, Clone, PartialEq)]
pub struct PlayerCode {
    pub source_code: String,
    pub language: Language,
}

#[derive(Debug, Clone, PartialEq)]
pub struct NormalGameRequest {
    pub game_id: String,
    pub parameters: GameParameters,
    pub player_code: PlayerCode,
    pub map: Vec<Vec<u8>>,
}

#[derive(Debug, Clone, PartialEq)]
pub struct PvPGameRequest {
    pub game_id: String,
    pub parameters: PvPGameParameters,
    pub player1: PlayerCode,
    pub player2: PlayerCode,
}

pub enum GameRequest {
    NormalGame(NormalGameRequest),
    PvPGame(PvPGameRequest),
}

impl From<NormalGameRequest> for GameRequest {
    fn from(request: NormalGameRequest) -> (r: Self)
        ensures
            r == GameRequest::NormalGame(request),
    {
        GameRequest::NormalGame(request)
    }
}

impl vstd::std_specs::convert::FromSpecImpl<NormalGameRequest> for GameRequest {
    open spec fn obeys_from_spec() -> bool {
        true
    }

    open spec fn from_spec(request: NormalGameRequest) -> Self {
        GameRequest::NormalGame(request)
    }
}

impl From<PvPGameRequest> for GameRequest {
    fn from(request: PvPGameRequest) -> (r: Self)
        ensures
            r == GameRequest::PvPGame(request),
    {
        GameRequest::PvPGame(request)
    }
}

impl vstd::std_specs::convert::FromSpecImpl<PvPGameRequest> for GameRequest {
    open spec fn obeys_from_spec() -> bool {
        true
    }

    open spec fn from_spec(request: PvPGameRequest) -> Self {
        GameRequest::PvPGame(request)
    }
}

impl GameRequest {
    pub open spec fn spec_game_id(&self) -> String {
        match self {
            GameRequest::NormalGame(req) => req.game_id,
            GameRequest::PvPGame(req) => req.game_id,
        }
    }

    pub fn game_id(&self) -> (r: &String)
        ensures
            *r == self.spec_game_id(),
    {
        match self {
            GameRequest::NormalGame(req) => &req.game_id,
            GameRequest::PvPGame(req) => &req.game_id,
        }
    }
}

/// File descriptor numbers of the simulator's ends of the two players' pipes.
pub struct PvPPipeFds {
    pub p1_in: i32,
    pub p2_in: i32,
    pub p1_out: i32,
    pub p2_out: i32,
}

/// The grid of bytes that a JSON text denotes, if it is a JSON array of arrays of
/// integers in `0..=255`.
pub uninterp spec fn json_grid(text: Seq<char>) -> Option<Seq<Seq<u8>>>;

pub open spec fn grid_view(g: Vec<Vec<u8>>) -> Seq<Seq<u8>> {
    g@.map_values(|row: Vec<u8>| row@)
}

/// serde_json's error type, carried without looking inside.
#[verifier::external_type_specification]
#[verifier::external_body]
pub struct ExJsonError(serde_json::Error);

/// Relies on `serde_json::from_str::<Vec<Vec<u8>>>`: it reads the text as a JSON
/// array of arrays of bytes, and its result depends on the text alone.
#[verifier::external_body]
fn grid_from_json(text: &str) -> (r: Result<Vec<Vec<u8>>, serde_json::Error>)
    ensures
        match r {
            Ok(g) => json_grid(text@) == Some(grid_view(g)),
            Err(_) => json_grid(text@) is None,
        },
{
    serde_json::from_str(text)
}

/// Why a request could not be read.
#[derive(Debug, Clone, Copy, PartialEq, Eq, Structural)]
pub enum RequestError {
    /// The map is not a JSON array of arrays of bytes.
    MalformedMap,
}

/// Reads a normal match's map, which a request carries as JSON text inside a JSON
/// string.
pub fn decode_map(text: &str) -> (r: Result<Vec<Vec<u8>>, RequestError>)
    ensures
        match json_grid(text@) {
            Some(g) => r matches Ok(m) && grid_view(m) == g,
            None => r == Err::<Vec<Vec<u8>>, RequestError>(RequestError::MalformedMap),
        },
{
    match grid_from_json(text) {
        Ok(g) => Ok(g),
        Err(_) => Err(RequestError::MalformedMap),
    }
}

impl NormalGameRequest {
    /// A normal match request whose map arrives as JSON text.
    pub fn with_map_text(
        game_id: String,
        parameters: GameParameters,
        player_code: PlayerCode,
        map_text: &str,
    ) -> (r: Result<NormalGameRequest, RequestError>)
        ensures
            match json_grid(map_text@) {
                Some(g) => r matches Ok(req) && req.game_id == game_id && req.parameters
                    == parameters && req.player_code == player_code && grid_view(req.map) == g,
                None => r == Err::<NormalGameRequest, RequestError>(RequestError::MalformedMap),
            },
    {
        match decode_map(map_text) {
            Ok(map) => Ok(NormalGameRequest { game_id, parameters, player_code, map }),
            Err(e) => Err(e),
        }
    }
}

} // verus!
