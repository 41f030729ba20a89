use cc_driver::error::SimulatorError;
use cc_driver::game_dir::scratch_dir_error;
use cc_driver::request::{GameRequest, Language, PlayerCode, PvPGameParameters, PvPGameRequest};
use cc_driver::response::GameStatusEnum;
use cc_driver::{create_error_response, create_executing_response, exit_outcome};

#[test]
fn timeout_on_kill_code_or_no_code() {
    match exit_outcome(Some(137)) {
        Err(SimulatorError::TimeOutError(m)) => assert_eq!(
            m,
            "Process took longer than the specified time to execute, so it was killed"
        ),
        other => panic!("unexpected {:?}", other),
    }
    assert!(matches!(exit_outcome(None), Err(SimulatorError::TimeOutError(_))));
}

#[test]
fn nonzero_exit_is_runtime_error_naming_the_code() {
    match exit_outcome(Some(42)) {
        Err(SimulatorError::RuntimeError(m)) => {
            assert_eq!(m, "Program exited with non zero exit code: 42");
            assert!(m.contains("42"));
        }
        other => panic!("unexpected {:?}", other),
    }
    match exit_outcome(Some(-3)) {
        Err(SimulatorError::RuntimeError(m)) => {
            assert_eq!(m, "Program exited with non zero exit code: -3")
        }
        other => panic!("unexpected {:?}", other),
    }
    assert_eq!(exit_outcome(Some(0)), Ok(()));
}

#[test]
fn error_response_prefixes_every_line() {
    let r = create_error_response(
        "g".to_owned(),
        SimulatorError::CompilationError("line one\nline two".to_owned()),
    );
    assert_eq!(r.game_id, "g");
    assert_eq!(r.game_status, GameStatusEnum::EXECUTE_ERROR);
    let res = r.game_result.unwrap();
    assert!(res.has_errors);
    assert_eq!(res.coins_used, 0);
    assert_eq!(res.destruction_percentage, None);
    assert_eq!(
        res.log,
        "ERRORS, ERROR TYPE: Compilation Error!\nERRORS, ERROR LOG:\nERRORS, line one\nERRORS, line two\n"
    );
}

#[test]
fn error_response_names_each_category() {
    let cases = vec![
        (SimulatorError::RuntimeError("x".to_owned()), "Runtime Error!"),
        (SimulatorError::TimeOutError("x".to_owned()), "Timeout Error!"),
        (
            SimulatorError::FifoCreationError("x".to_owned()),
            "Process Communication Error!",
        ),
        (SimulatorError::EpollError("x".to_owned()), "Event Creation Error!"),
        (
            SimulatorError::UnidentifiedError("x".to_owned()),
            "Unidentified Error. Contact the POCs!",
        ),
    ];
    for (err, name) in cases {
        let log = create_error_response("g".to_owned(), err).game_result.unwrap().log;
        assert_eq!(
            log,
            format!("ERRORS, ERROR TYPE: {name}\nERRORS, ERROR LOG:\nERRORS, x\n")
        );
    }
    let empty = create_error_response("g".to_owned(), SimulatorError::EpollError("".to_owned()));
    assert_eq!(
        empty.game_result.unwrap().log,
        "ERRORS, ERROR TYPE: Event Creation Error!\nERRORS, ERROR LOG:\n\n"
    );
}

#[test]
fn scratch_collision_reports_unidentified_error() {
    let err = scratch_dir_error();
    assert_eq!(
        err,
        SimulatorError::UnidentifiedError("Failed to create game directory".to_owned())
    );
    let log = create_error_response("same".to_owned(), err).game_result.unwrap().log;
    assert!(log.starts_with("ERRORS, ERROR TYPE: Unidentified Error. Contact the POCs!\n"));
    assert!(log.contains("ERRORS, Failed to create game directory\n"));
}

#[test]
fn executing_response_has_no_result() {
    let request = GameRequest::PvPGame(PvPGameRequest {
        game_id: "abc".to_owned(),
        parameters: PvPGameParameters {
            attackers: vec![],
            defenders: vec![],
            no_of_turns: 1,
            no_of_coins: 1,
        },
        player1: PlayerCode {
            source_code: "".to_owned(),
            language: Language::CPP,
        },
        player2: PlayerCode {
            source_code: "".to_owned(),
            language: Language::PYTHON,
        },
    });
    let r = create_executing_response(&request);
    assert_eq!(r.game_id, "abc");
    assert_eq!(r.game_status, GameStatusEnum::EXECUTING);
    assert!(r.game_result.is_none());
}
