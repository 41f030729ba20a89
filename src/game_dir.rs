//! The per-match scratch directory, named after the match.
use vstd::prelude::*;
use vstd::string::StringExecFns;

use crate::error::SimulatorError;

verus! {

/// The error of a match whose scratch directory could not be created, as when another
/// match with the same id holds it.
pub fn scratch_dir_error() -> (r: SimulatorError)
    ensures
        r matches SimulatorError::UnidentifiedError(m) && m@ == "Failed to create game directory"@,
{
    SimulatorError::UnidentifiedError(String::from_str("Failed to create game directory"))
}

/// `root/game_id`: the directory where a match's code and pipes live.
pub struct GameDir {
    full_path: String,
}

pub open spec fn joined_path(base: Seq<char>, name: Seq<char>) -> Seq<char> {
    base + seq!['/'] + name
}

/// `base/name`.
pub fn join_path(base: &str, name: &str) -> (r: String)
    ensures
        r@ == joined_path(base@, name@),
{
    let mut r = String::new();
    r.append(base);
    r.push('/');
    r.append(name);
    r
}

impl GameDir {
    pub closed spec fn spec_path(&self) -> Seq<char> {
        self.full_path@
    }

    /// The scratch directory of a match under `root`.
    pub fn under(root: &str, game_id: &str) -> (r: GameDir)
        ensures
            r.spec_path() == joined_path(root@, game_id@),
    {
        GameDir { full_path: join_path(root, game_id) }
    }

    pub fn get_path(&self) -> (r: &str)
        ensures
            r@ == self.spec_path(),
    {
        self.full_path.as_str()
    }

    /// The path of an entry inside the directory.
    pub fn sub_path(&self, name: &str) -> (r: String)
        ensures
            r@ == joined_path(self.spec_path(), name@),
    {
        join_path(self.full_path.as_str(), name)
    }
}

} // verus!
