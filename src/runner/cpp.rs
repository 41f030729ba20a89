//! The C++ runner.
use vstd::prelude::*;
use vstd::string::StringExecFns;

use crate::runner::{player_args, player_command, GameType, LaunchCommand, LaunchConfig};
use crate::strings_view;

verus! {

/// Runs a C++ player's code from its directory inside the match directory.
pub struct Runner {
    current_dir: String,
    game_id: String,
    player_dir: String,
}

impl Runner {
    /// The match directory, the match, and the player's subdirectory.
    pub closed spec fn view(&self) -> (Seq<char>, Seq<char>, Seq<char>) {
        (self.current_dir@, self.game_id@, self.player_dir@)
    }

    pub fn new(current_dir: String, game_id: String, player_dir: String) -> (r: Self)
        ensures
            r.view() == (current_dir@, game_id@, player_dir@),
    {
        Runner { current_dir, game_id, player_dir }
    }

    pub open spec fn spec_command(&self, game_type: GameType, cfg: LaunchConfig) -> Seq<Seq<char>> {
        player_args(cfg, self.view().1, self.view().0, self.view().2, "cpp"@, Seq::<Seq<char>>::empty(), game_type)
    }

    /// The command that starts this player's runner.
    pub fn command(&self, game_type: GameType, cfg: &LaunchConfig) -> (r: LaunchCommand)
        ensures
            r.program@ == crate::runner::container_program(),
            strings_view(r.args@) == self.spec_command(game_type, *cfg),
    {
        let entry: Vec<String> = Vec::new();
        assert(strings_view(entry@) =~= Seq::<Seq<char>>::empty());
        player_command(
            cfg,
            self.game_id.as_str(),
            self.current_dir.as_str(),
            self.player_dir.as_str(),
            "cpp",
            entry,
            game_type,
        )
    }
}

} // verus!
