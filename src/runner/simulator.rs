//! The simulator: the authority of a match, which reads the players' moves and writes
//! the turn log.
use vstd::prelude::*;
use vstd::string::StringExecFns;

use crate::request::PvPPipeFds;
use crate::runner::{container_command, limit_args, LaunchCommand, LaunchConfig};
use crate::strings_view;
use crate::text::{push_signed, signed_decimal};

verus! {

pub struct Simulator {
    game_id: String,
}

pub open spec fn fd_arg(tag: Seq<char>, fd: i32) -> Seq<char> {
    tag + signed_decimal(fd as int)
}

impl Simulator {
    pub closed spec fn spec_game_id(&self) -> Seq<char> {
        self.game_id@
    }

    pub fn new(game_id: String) -> (r: Self)
        ensures
            r.spec_game_id() == game_id@,
    {
        Simulator { game_id }
    }

    pub open spec fn name(&self) -> Seq<char> {
        self.spec_game_id() + "_simulator"@
    }

    fn container_name(&self) -> (r: String)
        ensures
            r@ == self.name(),
    {
        let mut r = self.game_id.clone();
        r.append("_simulator");
        r
    }

    /// The command for a normal match: the simulator reads the player on its stdin and
    /// writes to it on its stdout.
    pub fn run(&self, cfg: &LaunchConfig) -> (r: LaunchCommand)
        ensures
            r.program@ == crate::runner::container_program(),
            strings_view(r.args@) == limit_args(*cfg, self.name()) + seq![
                cfg.image@,
                "--type=Normal"@,
            ],
    {
        let rest: Vec<String> = vec![cfg.image.clone(), String::from_str("--type=Normal")];
        assert(strings_view(rest@) =~= seq![cfg.image@, "--type=Normal"@]);
        container_command(cfg, self.container_name(), rest)
    }

    /// The command for a PvP match: the simulator is told the descriptors of its ends
    /// of the two players' pipes.
    pub fn run_pvp(&self, cfg: &LaunchConfig, fds: &PvPPipeFds) -> (r: LaunchCommand)
        ensures
            r.program@ == crate::runner::container_program(),
            strings_view(r.args@) == limit_args(*cfg, self.name()) + seq![
                cfg.image@,
                "--type=PvP"@,
                fd_arg("p1_in="@, fds.p1_in),
                fd_arg("p1_out="@, fds.p1_out),
                fd_arg("p2_in="@, fds.p2_in),
                fd_arg("p2_out="@, fds.p2_out),
            ],
    {
        let mut a = String::from_str("p1_in=");
        push_signed(&mut a, fds.p1_in);
        let mut b = String::from_str("p1_out=");
        push_signed(&mut b, fds.p1_out);
        let mut c = String::from_str("p2_in=");
        push_signed(&mut c, fds.p2_in);
        let mut d = String::from_str("p2_out=");
        push_signed(&mut d, fds.p2_out);
        let rest: Vec<String> = vec![cfg.image.clone(), String::from_str("--type=PvP"), a, b, c, d];
        assert(strings_view(rest@) =~= seq![
            cfg.image@,
            "--type=PvP"@,
            fd_arg("p1_in="@, fds.p1_in),
            fd_arg("p1_out="@, fds.p1_out),
            fd_arg("p2_in="@, fds.p2_in),
            fd_arg("p2_out="@, fds.p2_out),
        ]);
        container_command(cfg, self.container_name(), rest)
    }
}

} // verus!
