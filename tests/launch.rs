use cc_driver::game_dir::GameDir;
use cc_driver::input::{send_initial_input, send_initial_pvp_input};
use cc_driver::request::{
    decode_map, Attacker, Defender, GameParameters, GameRequest, Language, NormalGameRequest,
    PlayerCode, PvPGameParameters, PvPGameRequest, PvPPipeFds, RequestError,
};
use cc_driver::runner::simulator::Simulator;
use cc_driver::runner::{get_runner, staging_paths, GameType, LaunchConfig, Launcher};

fn troops() -> (Vec<Attacker>, Vec<Defender>) {
    (
        vec![Attacker {
            id: 1,
            hp: 10,
            range: 3,
            attack_power: 4,
            speed: 5,
            price: 1,
            is_aerial: 0,
            weight: 2,
            num_ability_turns: 6,
            ability_activation_cost: 7,
        }],
        vec![Defender {
            id: 1,
            hp: 20,
            range: 4,
            attack_power: 5,
            price: 2,
            is_aerial: 1,
        }],
    )
}

fn config() -> LaunchConfig {
    LaunchConfig {
        memory_limit: "100m".to_owned(),
        time_limit: "10".to_owned(),
        image: "runner:latest".to_owned(),
    }
}

fn args_of(v: &[String]) -> Vec<&str> {
    v.iter().map(|s| s.as_str()).collect()
}

#[test]
fn normal_initial_input_text() {
    let (attackers, defenders) = troops();
    let req = NormalGameRequest {
        game_id: "g".to_owned(),
        parameters: GameParameters {
            attackers,
            defenders,
            no_of_turns: 500,
            no_of_coins: 1000,
        },
        player_code: PlayerCode {
            source_code: "print(x)".to_owned(),
            language: Language::PYTHON,
        },
        map: vec![vec![1, 0], vec![0, 255]],
    };
    assert_eq!(
        send_initial_input(&req, "2"),
        "500 1000\n1\n10 3 4 5 1 0 2 6 7\n1\n20 4 5 0 2 1\n2 2\n1 0 \n0 255 \n"
    );
}

#[test]
fn pvp_initial_input_text() {
    let req = PvPGameRequest {
        game_id: "g".to_owned(),
        parameters: PvPGameParameters {
            attackers: vec![],
            defenders: vec![],
            no_of_turns: 3,
            no_of_coins: 10,
        },
        player1: PlayerCode {
            source_code: "".to_owned(),
            language: Language::CPP,
        },
        player2: PlayerCode {
            source_code: "".to_owned(),
            language: Language::JAVA,
        },
    };
    assert_eq!(send_initial_pvp_input(&req), "3 10\n0\n0\n");
    let wrapped = GameRequest::from(req);
    assert_eq!(wrapped.game_id(), "g");
}

#[test]
fn map_is_decoded_from_json_text() {
    assert_eq!(decode_map("[[1,0],[0,2]]"), Ok(vec![vec![1, 0], vec![0, 2]]));
    assert_eq!(decode_map("[[1,0],[0,256]]"), Err(RequestError::MalformedMap));
    assert_eq!(decode_map("not json"), Err(RequestError::MalformedMap));
    let req = NormalGameRequest::with_map_text(
        "id".to_owned(),
        GameParameters {
            attackers: vec![],
            defenders: vec![],
            no_of_turns: 1,
            no_of_coins: 1,
        },
        PlayerCode {
            source_code: "".to_owned(),
            language: Language::CPP,
        },
        "[[3]]",
    )
    .unwrap();
    assert_eq!(req.map, vec![vec![3]]);
    assert_eq!(GameRequest::from(req).game_id(), "id");
}

#[test]
fn python_runner_command() {
    let dir = GameDir::under("/tmp", "m1");
    assert_eq!(dir.get_path(), "/tmp/m1");
    let code = PlayerCode {
        source_code: "".to_owned(),
        language: Language::PYTHON,
    };
    let launcher = get_runner(&code, &"m1".to_owned(), &dir, &"pvp_game/player_1".to_owned());
    assert!(matches!(launcher, Launcher::Python(_)));
    let cmd = launcher.command(GameType::PvPGame, &config());
    assert_eq!(cmd.program, "docker");
    assert_eq!(
        args_of(&cmd.args),
        vec![
            "run",
            "--memory=100m",
            "--memory-swap=100m",
            "--cpus=1",
            "--ulimit",
            "cpu=10:10",
            "--rm",
            "--name",
            "m1_pvp_game_player_1_python_runner",
            "-i",
            "-v",
            "/tmp/m1/pvp_game/player_1:/player_code",
            "runner:latest",
            "-u",
            "main.py",
            "pvp",
        ]
    );
}

#[test]
fn cpp_and_java_runner_commands() {
    let dir = GameDir::under("/tmp", "m2");
    for (language, word) in [(Language::CPP, "cpp"), (Language::JAVA, "java")] {
        let code = PlayerCode {
            source_code: "".to_owned(),
            language,
        };
        let cmd = get_runner(&code, &"m2".to_owned(), &dir, &"player".to_owned())
            .command(GameType::NormalGame, &config());
        let args = args_of(&cmd.args);
        assert_eq!(args.len(), 14);
        assert_eq!(args[8], format!("m2_player_{word}_runner"));
        assert_eq!(args[11], "/tmp/m2/player:/player_code");
        assert_eq!(args[13], "normal");
    }
}

#[test]
fn simulator_commands() {
    let sim = Simulator::new("m3".to_owned());
    let cmd = sim.run(&config());
    let args = args_of(&cmd.args);
    assert_eq!(args[8], "m3_simulator");
    assert_eq!(&args[10..], &["runner:latest", "--type=Normal"]);
    let fds = PvPPipeFds {
        p1_in: 3,
        p2_in: 4,
        p1_out: 5,
        p2_out: 6,
    };
    let cmd = sim.run_pvp(&config(), &fds);
    let args = args_of(&cmd.args);
    assert_eq!(
        &args[10..],
        &["runner:latest", "--type=PvP", "p1_in=3", "p1_out=5", "p2_in=4", "p2_out=6"]
    );
}

#[test]
fn staging_paths_follow_language_and_mode() {
    let dir = GameDir::under("/tmp", "m4");
    let code = PlayerCode {
        source_code: "x".to_owned(),
        language: Language::CPP,
    };
    let p = staging_paths(&code, &dir, &"player".to_owned(), GameType::NormalGame);
    assert_eq!(p.boilerplate_dir, "player_code/cpp");
    assert_eq!(p.dest_dir, "/tmp/m4/player");
    assert_eq!(p.code_file, "/tmp/m4/player/run.cpp");
    let code = PlayerCode {
        source_code: "x".to_owned(),
        language: Language::PYTHON,
    };
    let p = staging_paths(&code, &dir, &"pvp_game/player_2".to_owned(), GameType::PvPGame);
    assert_eq!(p.boilerplate_dir, "player_code/python");
    assert_eq!(p.code_file, "/tmp/m4/pvp_game/player_2/runpvp.py");
    assert_eq!(dir.sub_path("p1_in"), "/tmp/m4/p1_in");
}
