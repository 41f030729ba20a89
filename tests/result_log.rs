use cc_driver::request::{GameParameters, Language, NormalGameRequest, PlayerCode};
use cc_driver::response::{GameResult, GameStatus, GameStatusEnum};
use cc_driver::{create_final_response, get_turnwise_logs};

fn request_with_coins(coins: u32) -> NormalGameRequest {
    NormalGameRequest {
        game_id: "1".to_owned(),
        parameters: GameParameters {
            attackers: vec![],
            defenders: vec![],
            no_of_turns: 500,
            no_of_coins: coins,
        },
        player_code: PlayerCode {
            source_code: "".to_owned(),
            language: Language::CPP,
        },
        map: vec![vec![]],
    }
}

#[test]
fn turnwise_logs_test() {
    let logs = r#"
            TURN 1
            Bug is here
            No it's here
            ENDLOG
            Nothing
            TURN 100
            Nope, it's been here the whole time
            ENDLOG
            Useless
            "#;
    let mut expected_result = vec![
        (
            1_usize,
            vec!["Bug is here".to_owned(), "No it's here".to_owned()],
        ),
        (
            100_usize,
            vec!["Nope, it's been here the whole time".to_owned()],
        ),
    ];
    expected_result.sort();

    let mut turnwise_logs = get_turnwise_logs(logs.to_owned())
        .into_iter()
        .collect::<Vec<(usize, Vec<String>)>>();
    turnwise_logs.sort();

    assert_eq!(turnwise_logs, expected_result);
}

#[test]
fn create_final_response_test() {
    let player_logs = r#"
            TURN 1
            Bug is here
            No it's here
            ENDLOG
            Nothing
            TURN 100
            Nope, it's been here the whole time
            ENDLOG
            Useless
            "#;
    let simulator_logs = r#"TURN, 1
            COINS, 100
            DESTRUCTION, 20.0%
            TURN, 3
            COINS, 100
            DESTRUCTION, 20.0%
            TURN, 100
            DESTRUCTION, 75.0%
            COINS, 10"#;
    let dummy_game_request = request_with_coins(500);

    let tot_coins = dummy_game_request.parameters.no_of_coins;
    let result = create_final_response(
        dummy_game_request,
        player_logs.to_owned(),
        simulator_logs.to_owned(),
    );

    let expected_game_status = GameStatus {
        game_id: "1".to_owned(),
        game_status: GameStatusEnum::EXECUTED,
        game_result: Some(GameResult {
            destruction_percentage: Some("75.0".to_owned()),
            coins_used: (tot_coins - 10) as u64,
            has_errors: false,
            log: "TURN, 1\nPRINT, Bug is here\nPRINT, No it's here\nCOINS, 100\nDESTRUCTION, 20.0%\nTURN, 3\nCOINS, 100\nDESTRUCTION, 20.0%\nTURN, 100\nPRINT, Nope, it's been here the whole time\nDESTRUCTION, 75.0%\nCOINS, 10\n".to_owned()
        }),
    };

    assert_eq!(expected_game_status, result);
    let destruction: f64 = result_destruction(&result);
    assert_eq!(destruction, 75.0);
}

fn result_destruction(status: &GameStatus) -> f64 {
    status
        .game_result
        .as_ref()
        .and_then(|r| r.destruction_percentage.as_ref())
        .map(|t| t.parse::<f64>().unwrap())
        .unwrap_or(0.0)
}

#[test]
fn empty_log_parse() {
    let result = create_final_response(
        request_with_coins(100),
        "TURN 1\nfoo\nENDLOG\n".to_owned(),
        "TURN, 1\nCOINS, 10\nDESTRUCTION, 5.0%\n".to_owned(),
    );
    assert_eq!(result.game_status, GameStatusEnum::EXECUTED);
    let res = result.game_result.clone().unwrap();
    assert_eq!(result_destruction(&result), 5.0);
    assert_eq!(res.coins_used, 90);
    assert!(!res.has_errors);
    assert!(res
        .log
        .ends_with("TURN, 1\nPRINT, foo\nCOINS, 10\nDESTRUCTION, 5.0%\n"));
}

#[test]
fn unmatched_turn_header() {
    let player = "TURN abc\ninner\nENDLOG\n".to_owned();
    assert!(get_turnwise_logs(player.clone()).is_empty());
    let result = create_final_response(request_with_coins(100), player, "TURN, 1\nTURN, 2\n".to_owned());
    let log = result.game_result.unwrap().log;
    assert!(!log.contains("PRINT,"));
    assert_eq!(log, "TURN, 1\nTURN, 2\n");
}

#[test]
fn multiple_turns_print_only_where_logged() {
    let player = "TURN 1\none\nENDLOG\nTURN 100\nhundred\nENDLOG\n".to_owned();
    let sim = "TURN, 1\nTURN, 3\nTURN, 100\n".to_owned();
    let result = create_final_response(request_with_coins(0), player, sim);
    assert_eq!(
        result.game_result.unwrap().log,
        "TURN, 1\nPRINT, one\nTURN, 3\nTURN, 100\nPRINT, hundred\n"
    );
}

#[test]
fn block_lines_are_trimmed_and_crlf_is_accepted() {
    let logs = get_turnwise_logs("  TURN 7 \r\n  a b  \r\n\r\nENDLOG\r\n".to_owned());
    assert_eq!(logs.get(&7), Some(&vec!["a b".to_owned(), "".to_owned()]));
}

#[test]
fn later_block_replaces_earlier_and_unclosed_block_is_dropped() {
    let logs = get_turnwise_logs("TURN 2\nold\nENDLOG\nTURN 2\nnew\nENDLOG\nTURN 3\nlost\n".to_owned());
    assert_eq!(logs.len(), 1);
    assert_eq!(logs.get(&2), Some(&vec!["new".to_owned()]));
}

#[test]
fn header_inside_block_is_a_logged_line() {
    let logs = get_turnwise_logs("TURN 1\nTURN 2\nENDLOG\n".to_owned());
    assert_eq!(logs.get(&1), Some(&vec!["TURN 2".to_owned()]));
    assert_eq!(logs.get(&2), None);
}

#[test]
fn turn_number_must_be_a_plain_unsigned_number() {
    let logs = get_turnwise_logs(
        "TURN +4\na\nENDLOG\nTURN -1\nb\nENDLOG\nTURN 99999999999999999999999\nc\nENDLOG\nTURN  5\nd\nENDLOG\n"
            .to_owned(),
    );
    assert_eq!(logs.len(), 1);
    assert_eq!(logs.get(&4), Some(&vec!["a".to_owned()]));
}

#[test]
fn coins_above_budget_count_as_none_spent() {
    let result = create_final_response(request_with_coins(50), "".to_owned(), "COINS, 80\n".to_owned());
    let res = result.game_result.unwrap();
    assert_eq!(res.coins_used, 0);
    assert_eq!(res.destruction_percentage, None);
}

#[test]
fn no_coin_report_means_nothing_spent_and_last_reports_win() {
    let result = create_final_response(
        request_with_coins(1000),
        "".to_owned(),
        "DESTRUCTION, 1.5%\nCOINS, 900\nDESTRUCTION, 2.25%\nCOINS, 750\nDESTRUCTION, 3\n".to_owned(),
    );
    let res = result.game_result.unwrap();
    assert_eq!(res.coins_used, 250);
    assert_eq!(res.destruction_percentage, Some("2.25".to_owned()));
    let quiet = create_final_response(request_with_coins(1000), "".to_owned(), "".to_owned());
    let res = quiet.game_result.unwrap();
    assert_eq!(res.coins_used, 0);
    assert_eq!(res.log, "");
}
