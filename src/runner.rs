//! Launchers: what command starts each participant, and where a player's code is
//! staged. Each participant runs in a container with limits on memory, swap, CPU
//! time and CPU count.
use vstd::prelude::*;
use vstd::string::StringExecFns;

pub mod cpp;
pub mod java;
pub mod py;
pub mod simulator;

use crate::game_dir::{join_path, joined_path, GameDir};
use crate::request::{Language, PlayerCode};
use crate::strings_view;

verus! {

#[derive(Debug, Clone, Copy, PartialEq, Eq, Structural)]
pub enum GameType {
    NormalGame,
    PvPGame,
}

impl GameType {
    pub open spec fn spec_arg(&self) -> Seq<char> {
        match self {
            GameType::NormalGame => "normal"@,
            GameType::PvPGame => "pvp"@,
        }
    }

    /// The argument that tells a player's runner which kind of match it plays.
    pub fn arg(&self) -> (r: String)
        ensures
            r@ == self.spec_arg(),
    {
        match self {
            GameType::NormalGame => String::from_str("normal"),
            GameType::PvPGame => String::from_str("pvp"),
        }
    }

    pub open spec fn spec_file_name(&self) -> Seq<char> {
        match self {
            GameType::NormalGame => "run"@,
            GameType::PvPGame => "runpvp"@,
        }
    }

    /// The name, without extension, of the file that holds a player's code.
    pub fn file_name(&self) -> (r: String)
        ensures
            r@ == self.spec_file_name(),
    {
        match self {
            GameType::NormalGame => String::from_str("run"),
            GameType::PvPGame => String::from_str("runpvp"),
        }
    }
}

pub open spec fn spec_extension(language: Language) -> Seq<char> {
    match language {
        Language::CPP => "cpp"@,
        Language::JAVA => "java"@,
        Language::PYTHON => "py"@,
    }
}

pub open spec fn spec_boilerplate_dir(language: Language) -> Seq<char> {
    match language {
        Language::CPP => "player_code/cpp"@,
        Language::JAVA => "player_code/java"@,
        Language::PYTHON => "player_code/python"@,
    }
}

/// The settings that the environment gives a launcher.
pub struct LaunchConfig {
    pub memory_limit: String,
    pub time_limit: String,
    pub image: String,
}

/// A program and its arguments, for the caller to spawn.
pub struct LaunchCommand {
    pub program: String,
    pub args: Vec<String>,
}

pub open spec fn container_program() -> Seq<char> {
    "docker"@
}

/// The container options shared by every participant.
pub open spec fn limit_args(cfg: LaunchConfig, name: Seq<char>) -> Seq<Seq<char>> {
    seq![
        "run"@,
        "--memory="@ + cfg.memory_limit@,
        "--memory-swap="@ + cfg.memory_limit@,
        "--cpus=1"@,
        "--ulimit"@,
        "cpu="@ + cfg.time_limit@ + ":"@ + cfg.time_limit@,
        "--rm"@,
        "--name"@,
        name,
        "-i"@,
    ]
}

fn lit(s: &str) -> (r: String)
    ensures
        r@ == s@,
{
    String::from_str(s)
}

fn concat2(a: &str, b: &str) -> (r: String)
    ensures
        r@ == a@ + b@,
{
    let mut r = String::new();
    r.append(a);
    r.append(b);
    r
}

/// A container command: the shared options under `name`, then `rest`.
pub fn container_command(cfg: &LaunchConfig, name: String, rest: Vec<String>) -> (r: LaunchCommand)
    ensures
        r.program@ == container_program(),
        strings_view(r.args@) == limit_args(*cfg, name@) + strings_view(rest@),
{
    let mut args: Vec<String> = Vec::new();
    args.push(lit("run"));
    args.push(concat2("--memory=", cfg.memory_limit.as_str()));
    args.push(concat2("--memory-swap=", cfg.memory_limit.as_str()));
    args.push(lit("--cpus=1"));
    args.push(lit("--ulimit"));
    let mut cpu = concat2("cpu=", cfg.time_limit.as_str());
    cpu.append(":");
    cpu.append(cfg.time_limit.as_str());
    args.push(cpu);
    args.push(lit("--rm"));
    args.push(lit("--name"));
    args.push(name);
    args.push(lit("-i"));
    assert(strings_view(args@) =~= limit_args(*cfg, name@));
    let mut rest = rest;
    let ghost all_rest = rest@;
    let ghost head = args@;
    args.append(&mut rest);
    assert(args@ =~= head + all_rest);
    assert(strings_view(args@) =~= limit_args(*cfg, name@) + strings_view(all_rest));
    LaunchCommand { program: lit("docker"), args }
}

/// `/` replaced by `_`, so that a path can be part of a container name.
pub open spec fn underscored(s: Seq<char>) -> Seq<char> {
    s.map_values(|c: char| if c == '/' { '_' } else { c })
}

pub fn underscore(s: &str) -> (r: String)
    ensures
        r@ == underscored(s@),
{
    let v = crate::text::chars_of(s);
    let mut r = String::new();
    let mut i: usize = 0;
    while i < v.len()
        invariant
            v@ == s@,
            i <= v.len(),
            r@ == underscored(v@.take(i as int)),
        decreases v.len() - i,
    {
        if v[i] == '/' {
            r.push('_');
        } else {
            r.push(v[i]);
        }
        i = i + 1;
        assert(r@ =~= underscored(v@.take(i as int)));
    }
    assert(v@.take(v.len() as int) =~= v@);
    r
}

/// The arguments of a player's runner container: it is named after the match, the
/// player's directory and the language, it mounts the player's directory as the
/// code location, and it is told the kind of match.
pub open spec fn player_args(
    cfg: LaunchConfig,
    game_id: Seq<char>,
    current_dir: Seq<char>,
    player_dir: Seq<char>,
    language: Seq<char>,
    entry: Seq<Seq<char>>,
    game_type: GameType,
) -> Seq<Seq<char>> {
    limit_args(
        cfg,
        game_id + "_"@ + underscored(player_dir) + "_"@ + language + "_runner"@,
    ) + seq!["-v"@, joined_path(current_dir, player_dir) + ":/player_code"@, cfg.image@] + entry
        + seq![game_type.spec_arg()]
}

pub fn player_command(
    cfg: &LaunchConfig,
    game_id: &str,
    current_dir: &str,
    player_dir: &str,
    language: &str,
    entry: Vec<String>,
    game_type: GameType,
) -> (r: LaunchCommand)
    ensures
        r.program@ == container_program(),
        strings_view(r.args@) == player_args(
            *cfg,
            game_id@,
            current_dir@,
            player_dir@,
            language@,
            strings_view(entry@),
            game_type,
        ),
{
    let mut name = concat2(game_id, "_");
    let u = underscore(player_dir);
    name.append(u.as_str());
    name.append("_");
    name.append(language);
    name.append("_runner");
    let mut rest: Vec<String> = Vec::new();
    rest.push(lit("-v"));
    let mut mount = join_path(current_dir, player_dir);
    mount.append(":/player_code");
    rest.push(mount);
    rest.push(cfg.image.clone());
    let ghost head = rest@;
    let mut entry = entry;
    let ghost all_entry = entry@;
    rest.append(&mut entry);
    rest.push(game_type.arg());
    assert(strings_view(rest@) =~= seq![
        "-v"@,
        joined_path(current_dir@, player_dir@) + ":/player_code"@,
        cfg.image@,
    ] + strings_view(all_entry) + seq![game_type.spec_arg()]);
    let r = container_command(cfg, name, rest);
    assert(strings_view(r.args@) =~= player_args(
        *cfg,
        game_id@,
        current_dir@,
        player_dir@,
        language@,
        strings_view(all_entry),
        game_type,
    ));
    r
}

/// The runner for a player's language.
pub enum Launcher {
    Cpp(cpp::Runner),
    Java(java::Runner),
    Python(py::Runner),
}

impl Launcher {
    pub open spec fn spec_command(&self, game_type: GameType, cfg: LaunchConfig) -> Seq<Seq<char>> {
        match self {
            Launcher::Cpp(r) => r.spec_command(game_type, cfg),
            Launcher::Java(r) => r.spec_command(game_type, cfg),
            Launcher::Python(r) => r.spec_command(game_type, cfg),
        }
    }

    /// The command that starts the player's runner.
    pub fn command(&self, game_type: GameType, cfg: &LaunchConfig) -> (r: LaunchCommand)
        ensures
            r.program@ == container_program(),
            strings_view(r.args@) == self.spec_command(game_type, *cfg),
    {
        match self {
            Launcher::Cpp(r) => r.command(game_type, cfg),
            Launcher::Java(r) => r.command(game_type, cfg),
            Launcher::Python(r) => r.command(game_type, cfg),
        }
    }
}

/// Picks the runner for a player's language, working in the match's directory on
/// the player's subdirectory.
pub fn get_runner(
    player_code: &PlayerCode,
    game_id: &String,
    game_dir_handle: &GameDir,
    player_dir: &String,
) -> (r: Launcher)
    ensures
        match player_code.language {
            Language::CPP => r matches Launcher::Cpp(x) && x.view() == (
            game_dir_handle.spec_path(),
            game_id@,
            player_dir@,
        ),
            Language::JAVA => r matches Launcher::Java(x) && x.view() == (
            game_dir_handle.spec_path(),
            game_id@,
            player_dir@,
        ),
            Language::PYTHON => r matches Launcher::Python(x) && x.view() == (
            game_dir_handle.spec_path(),
            game_id@,
            player_dir@,
        ),
        },
{
    let dir = lit(game_dir_handle.get_path());
    match player_code.language {
        Language::CPP => Launcher::Cpp(cpp::Runner::new(dir, game_id.clone(), player_dir.clone())),
        Language::PYTHON => Launcher::Python(
            py::Runner::new(dir, game_id.clone(), player_dir.clone()),
        ),
        Language::JAVA => Launcher::Java(java::Runner::new(dir, game_id.clone(), player_dir.clone())),
    }
}

/// Where a player's code is staged: the language's boilerplate directory, the
/// player's directory inside the match directory, and the file that receives the
/// player's source.
pub struct StagingPaths {
    pub boilerplate_dir: String,
    pub dest_dir: String,
    pub code_file: String,
}

pub fn staging_paths(
    player_code: &PlayerCode,
    game_dir_handle: &GameDir,
    player_dir: &String,
    game_type: GameType,
) -> (r: StagingPaths)
    ensures
        r.boilerplate_dir@ == spec_boilerplate_dir(player_code.language),
        r.dest_dir@ == joined_path(game_dir_handle.spec_path(), player_dir@),
        r.code_file@ == joined_path(r.dest_dir@, game_type.spec_file_name()) + "."@ + spec_extension(
            player_code.language,
        ),
{
    let (boilerplate_dir, ext) = match player_code.language {
        Language::CPP => (lit("player_code/cpp"), "cpp"),
        Language::PYTHON => (lit("player_code/python"), "py"),
        Language::JAVA => (lit("player_code/java"), "java"),
    };
    let dest_dir = game_dir_handle.sub_path(player_dir.as_str());
    let name = game_type.file_name();
    let mut code_file = join_path(dest_dir.as_str(), name.as_str());
    code_file.append(".");
    code_file.append(ext);
    StagingPaths { boilerplate_dir, dest_dir, code_file }
}

} // verus!
