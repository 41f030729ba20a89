//! A match driver for a programmatic strategy game: it turns a match request into
//! staged code, wired pipes and launch commands, keeps the books of the running
//! cohort, and assembles the structured result from the participants' logs.
use std::collections::HashMap;
use vstd::prelude::*;
use vstd::string::StringExecFns;

pub mod cohort;
pub mod error;
pub mod fifo;
pub mod game_dir;
pub mod input;
pub mod log_laws;
pub mod poll;
pub mod request;
pub mod response;
pub mod runner;
pub mod text;
pub mod wiring;

use crate::error::SimulatorError;
use crate::request::{GameRequest, NormalGameRequest};
use crate::response::{GameResult, GameStatus, GameStatusEnum};
use crate::text::{
    chars_of, has_prefix, line_bounds, lines, parse_usize, parse_usize_in, push_chars,
    push_signed, signed_decimal, starts_with, trim, trim_bounds,
};

verus! {

broadcast use vstd::std_specs::hash::group_hash_axioms;

pub open spec fn turn_tag() -> Seq<char> {
    seq!['T', 'U', 'R', 'N', ' ']
}

pub open spec fn endlog_tag() -> Seq<char> {
    seq!['E', 'N', 'D', 'L', 'O', 'G']
}

/// Where the scan of a player's log stands after some of its lines.
pub struct ScanState {
    pub capturing: bool,
    pub turn: usize,
    pub logs: Seq<Seq<char>>,
    pub turns: Map<usize, Seq<Seq<char>>>,
}

pub open spec fn scan_start() -> ScanState {
    ScanState { capturing: false, turn: 0, logs: Seq::empty(), turns: Map::empty() }
}

/// One trimmed line of a player's log: `TURN <n>` opens a capture for turn `n` (a
/// header whose number does not parse opens nothing), `ENDLOG` commits the lines
/// captured since, and other lines are captured while a capture is open.
pub open spec fn scan_step(st: ScanState, line: Seq<char>) -> ScanState {
    if !st.capturing && starts_with(line, turn_tag()) {
        match parse_usize(line.subrange(5, line.len() as int)) {
            Some(n) => ScanState { capturing: true, turn: n, ..st },
            None => ScanState { capturing: false, ..st },
        }
    } else if st.capturing && starts_with(line, endlog_tag()) {
        ScanState {
            capturing: false,
            turn: st.turn,
            logs: Seq::empty(),
            turns: st.turns.insert(st.turn, st.logs),
        }
    } else if st.capturing {
        ScanState { logs: st.logs.push(line), ..st }
    } else {
        st
    }
}

pub open spec fn scan(ls: Seq<Seq<char>>) -> ScanState
    decreases ls.len(),
{
    if ls.len() == 0 {
        scan_start()
    } else {
        scan_step(scan(ls.drop_last()), trim(ls.last()))
    }
}

/// The trimmed lines that a player logged for each turn.
pub open spec fn turn_logs(player_log: Seq<char>) -> Map<usize, Seq<Seq<char>>> {
    scan(lines(player_log)).turns
}

pub open spec fn strings_view(v: Seq<String>) -> Seq<Seq<char>> {
    v.map_values(|s: String| s@)
}

pub open spec fn turn_map_view(m: Map<usize, Vec<String>>) -> Map<usize, Seq<Seq<char>>> {
    m.map_values(|v: Vec<String>| strings_view(v@))
}

fn turn_tag_chars() -> (r: Vec<char>)
    ensures
        r@ == turn_tag(),
{
    let r = vec!['T', 'U', 'R', 'N', ' '];
    assert(r@ =~= turn_tag());
    r
}

fn endlog_tag_chars() -> (r: Vec<char>)
    ensures
        r@ == endlog_tag(),
{
    let r = vec!['E', 'N', 'D', 'L', 'O', 'G'];
    assert(r@ =~= endlog_tag());
    r
}

/// Splits a player's log into the lines it logged for each turn, between a
/// `TURN <n>` header and an `ENDLOG` line. A later block for the same turn replaces
/// an earlier one; a block that is never closed is dropped.
pub fn get_turnwise_logs(player_log: String) -> (r: HashMap<usize, Vec<String>>)
    ensures
        turn_map_view(r@) == turn_logs(player_log@),
{
    let v = chars_of(player_log.as_str());
    let bounds = line_bounds(&v);
    let turn_pat = turn_tag_chars();
    let end_pat = endlog_tag_chars();
    let mut turnwise_logs: HashMap<usize, Vec<String>> = HashMap::new();
    let mut processing = false;
    let mut cur_turn_no: usize = 0;
    let mut cur_turn_logs: Vec<String> = Vec::new();
    let ghost ls = lines(v@);
    let mut k: usize = 0;
    while k < bounds.len()
        invariant
            v@ == player_log@,
            ls == lines(v@),
            bounds.len() == ls.len(),
            forall|q: int| #![trigger bounds[q]]
                0 <= q < bounds.len() ==> {
                    &&& bounds[q].0 <= bounds[q].1 <= v.len()
                    &&& v@.subrange(bounds[q].0 as int, bounds[q].1 as int) == ls[q]
                },
            turn_pat@ == turn_tag(),
            end_pat@ == endlog_tag(),
            k <= bounds.len(),
            ({
                let st = scan(ls.take(k as int));
                &&& st.capturing == processing
                &&& st.turn == cur_turn_no
                &&& st.logs == strings_view(cur_turn_logs@)
                &&& st.turns == turn_map_view(turnwise_logs@)
            }),
        decreases bounds.len() - k,
    {
        let ghost st = scan(ls.take(k as int));
        assert(ls.take(k + 1).drop_last() =~= ls.take(k as int));
        assert(ls.take(k + 1).last() == ls[k as int]);
        let (a, b) = bounds[k];
        let (s, e) = trim_bounds(&v, a, b);
        let ghost line = v@.subrange(s as int, e as int);
        assert(line == trim(ls[k as int]));
        if !processing && has_prefix(&v, s, e, &turn_pat) {
            assert(line.subrange(5, line.len() as int) =~= v@.subrange(s + 5, e as int));
            processing = true;
            match parse_usize_in(&v, s + 5, e) {
                Some(num) => cur_turn_no = num,
                None => {
                    processing = false;
                },
            }
        } else if processing && has_prefix(&v, s, e, &end_pat) {
            processing = false;
            let mut logs: Vec<String> = Vec::new();
            std::mem::swap(&mut logs, &mut cur_turn_logs);
            proof {
                assert(turn_map_view(turnwise_logs@.insert(cur_turn_no, logs)) =~= turn_map_view(
                    turnwise_logs@,
                ).insert(cur_turn_no, strings_view(logs@)));
            }
            turnwise_logs.insert(cur_turn_no, logs);
            assert(strings_view(cur_turn_logs@) =~= Seq::<Seq<char>>::empty());
        } else if processing {
            let mut l = String::new();
            push_chars(&mut l, &v, s, e);
            assert(l@ =~= line);
            cur_turn_logs.push(l);
            assert(strings_view(cur_turn_logs@) =~= st.logs.push(line));
        }
        k = k + 1;
    }
    assert(ls.take(bounds.len() as int) =~= ls);
    turnwise_logs
}

pub open spec fn turn_report_tag() -> Seq<char> {
    seq!['T', 'U', 'R', 'N', ',', ' ']
}

pub open spec fn destruction_tag() -> Seq<char> {
    seq!['D', 'E', 'S', 'T', 'R', 'U', 'C', 'T', 'I', 'O', 'N', ',', ' ']
}

pub open spec fn coins_tag() -> Seq<char> {
    seq!['C', 'O', 'I', 'N', 'S', ',', ' ']
}

pub open spec fn print_tag() -> Seq<char> {
    seq!['P', 'R', 'I', 'N', 'T', ',', ' ']
}

/// Each line prefixed with `PRINT, ` and ended with a newline.
pub open spec fn print_lines(ls: Seq<Seq<char>>) -> Seq<char>
    decreases ls.len(),
{
    if ls.len() == 0 {
        Seq::empty()
    } else {
        print_lines(ls.drop_last()) + print_tag() + ls.last() + seq!['\n']
    }
}

/// The turn that a trimmed simulator line `TURN, <n>` announces.
pub open spec fn announced_turn(line: Seq<char>) -> Option<usize> {
    if starts_with(line, turn_report_tag()) {
        parse_usize(line.subrange(6, line.len() as int))
    } else {
        None
    }
}

/// What the rewritten log holds for one trimmed simulator line: the line itself and,
/// after a turn header, the lines that the player logged for that turn.
pub open spec fn log_block(line: Seq<char>, turns: Map<usize, Seq<Seq<char>>>) -> Seq<char> {
    line + seq!['\n'] + match announced_turn(line) {
        Some(n) => if turns.contains_key(n) {
            print_lines(turns[n])
        } else {
            Seq::empty()
        },
        None => Seq::empty(),
    }
}

/// The percentage in a trimmed simulator line `DESTRUCTION, <x>%`, as written.
pub open spec fn reported_destruction(line: Seq<char>) -> Option<Seq<char>> {
    if starts_with(line, destruction_tag()) && line.len() >= 14 && line.last() == '%' {
        Some(line.subrange(13, line.len() - 1))
    } else {
        None
    }
}

/// The coins left in a trimmed simulator line `COINS, <k>`.
pub open spec fn reported_coins(line: Seq<char>) -> Option<usize> {
    if starts_with(line, coins_tag()) {
        parse_usize(line.subrange(7, line.len() as int))
    } else {
        None
    }
}

/// The rewritten log and the last reports read, after some simulator lines.
pub struct Rewrite {
    pub log: Seq<char>,
    pub destruction: Option<Seq<char>>,
    pub coins_left: nat,
}

pub open spec fn rewrite(
    ls: Seq<Seq<char>>,
    turns: Map<usize, Seq<Seq<char>>>,
    initial_coins: nat,
) -> Rewrite
    decreases ls.len(),
{
    if ls.len() == 0 {
        Rewrite { log: Seq::empty(), destruction: None, coins_left: initial_coins }
    } else {
        let prev = rewrite(ls.drop_last(), turns, initial_coins);
        let line = trim(ls.last());
        Rewrite {
            log: prev.log + log_block(line, turns),
            destruction: match reported_destruction(line) {
                Some(x) => Some(x),
                None => prev.destruction,
            },
            coins_left: match reported_coins(line) {
                Some(k) => k as nat,
                None => prev.coins_left,
            },
        }
    }
}

/// Coins spent out of a budget; a report above the budget counts as none spent.
pub open spec fn coins_spent(initial: nat, left: nat) -> nat {
    if left <= initial {
        (initial - left) as nat
    } else {
        0
    }
}

pub open spec fn opt_string_view(o: Option<String>) -> Option<Seq<char>> {
    match o {
        Some(s) => Some(s@),
        None => None,
    }
}

fn turn_report_chars() -> (r: Vec<char>)
    ensures
        r@ == turn_report_tag(),
{
    let r = vec!['T', 'U', 'R', 'N', ',', ' '];
    assert(r@ =~= turn_report_tag());
    r
}

fn destruction_chars() -> (r: Vec<char>)
    ensures
        r@ == destruction_tag(),
{
    let r = vec!['D', 'E', 'S', 'T', 'R', 'U', 'C', 'T', 'I', 'O', 'N', ',', ' '];
    assert(r@ =~= destruction_tag());
    r
}

fn coins_chars() -> (r: Vec<char>)
    ensures
        r@ == coins_tag(),
{
    let r = vec!['C', 'O', 'I', 'N', 'S', ',', ' '];
    assert(r@ =~= coins_tag());
    r
}

fn print_chars() -> (r: Vec<char>)
    ensures
        r@ == print_tag(),
{
    let r = vec!['P', 'R', 'I', 'N', 'T', ',', ' '];
    assert(r@ =~= print_tag());
    r
}

/// Appends each line with a `PRINT, ` prefix and a newline.
fn push_print_lines(out: &mut String, logs: &Vec<String>, tag: &Vec<char>)
    requires
        tag@ == print_tag(),
    ensures
        final(out)@ == old(out)@ + print_lines(strings_view(logs@)),
{
    let ghost ls = strings_view(logs@);
    let mut j: usize = 0;
    while j < logs.len()
        invariant
            tag@ == print_tag(),
            ls == strings_view(logs@),
            j <= logs.len(),
            out@ == old(out)@ + print_lines(ls.take(j as int)),
        decreases logs.len() - j,
    {
        assert(ls.take(j + 1).drop_last() =~= ls.take(j as int));
        push_chars(out, tag, 0, tag.len());
        assert(tag@.subrange(0, tag.len() as int) =~= tag@);
        out.append(logs[j].as_str());
        out.push('\n');
        j = j + 1;
        assert(out@ =~= old(out)@ + print_lines(ls.take(j as int)));
    }
    assert(ls.take(logs.len() as int) =~= ls);
}

/// Builds the result of a finished match from a player's log and the simulator's
/// log. The simulator's log is copied line by line (trimmed); after each
/// `TURN, <n>` line come the lines that the player logged for turn `n`, each as
/// `PRINT, <line>`. The last `DESTRUCTION, <x>%` line gives the destruction
/// percentage and the last `COINS, <k>` line the coins left out of `initial_coins`.
pub fn assemble_result(
    game_id: String,
    initial_coins: u32,
    player_log: String,
    simulator_log: String,
) -> (r: GameStatus)
    ensures
        r.game_id == game_id,
        r.game_status == GameStatusEnum::EXECUTED,
        r.game_result is Some,
        ({
            let res = r.game_result->Some_0;
            let m = rewrite(lines(simulator_log@), turn_logs(player_log@), initial_coins as nat);
            &&& res.log@ == m.log
            &&& opt_string_view(res.destruction_percentage) == m.destruction
            &&& res.coins_used == coins_spent(initial_coins as nat, m.coins_left)
            &&& !res.has_errors
        }),
{
    let turnwise_logs = get_turnwise_logs(player_log);
    let ghost turns = turn_logs(player_log@);
    let initial = initial_coins;
    let v = chars_of(simulator_log.as_str());
    let bounds = line_bounds(&v);
    let turn_pat = turn_report_chars();
    let destruction_pat = destruction_chars();
    let coins_pat = coins_chars();
    let print_pat = print_chars();
    let mut final_logs = String::new();
    let mut coins_left: usize = initial as usize;
    let mut destruction_percentage: Option<String> = None;
    let ghost ls = lines(v@);
    let mut k: usize = 0;
    while k < bounds.len()
        invariant
            ls == lines(v@),
            bounds.len() == ls.len(),
            forall|q: int| #![trigger bounds[q]]
                0 <= q < bounds.len() ==> {
                    &&& bounds[q].0 <= bounds[q].1 <= v.len()
                    &&& v@.subrange(bounds[q].0 as int, bounds[q].1 as int) == ls[q]
                },
            turn_pat@ == turn_report_tag(),
            destruction_pat@ == destruction_tag(),
            coins_pat@ == coins_tag(),
            print_pat@ == print_tag(),
            turn_map_view(turnwise_logs@) == turns,
            k <= bounds.len(),
            ({
                let m = rewrite(ls.take(k as int), turns, initial as nat);
                &&& final_logs@ == m.log
                &&& opt_string_view(destruction_percentage) == m.destruction
                &&& coins_left as nat == m.coins_left
            }),
        decreases bounds.len() - k,
    {
        assert(ls.take(k + 1).drop_last() =~= ls.take(k as int));
        assert(ls.take(k + 1).last() == ls[k as int]);
        let (a, b) = bounds[k];
        let (s, e) = trim_bounds(&v, a, b);
        let ghost line = v@.subrange(s as int, e as int);
        let ghost before = final_logs@;
        push_chars(&mut final_logs, &v, s, e);
        final_logs.push('\n');
        if has_prefix(&v, s, e, &turn_pat) {
            assert(line.subrange(6, line.len() as int) =~= v@.subrange(s + 6, e as int));
            let num = parse_usize_in(&v, s + 6, e);
            if let Some(n) = num {
                if let Some(logs) = turnwise_logs.get(&n) {
                    assert(turns.contains_key(n));
                    assert(strings_view(logs@) == turns[n]);
                    push_print_lines(&mut final_logs, logs, &print_pat);
                } else {
                    assert(!turns.contains_key(n));
                    assert(final_logs@ =~= before + log_block(line, turns));
                }
            } else {
                assert(final_logs@ =~= before + log_block(line, turns));
            }
            assert(reported_destruction(line) is None) by {
                assert(line[0] == 'T');
            }
            assert(reported_coins(line) is None) by {
                assert(line[0] == 'T');
            }
        } else if has_prefix(&v, s, e, &destruction_pat) {
            assert(final_logs@ =~= before + log_block(line, turns));
            if e - s >= 14 && v[e - 1] == '%' {
                let mut x = String::new();
                push_chars(&mut x, &v, s + 13, e - 1);
                assert(x@ =~= line.subrange(13, line.len() - 1));
                destruction_percentage = Some(x);
            }
            assert(reported_coins(line) is None) by {
                assert(line[0] == 'D');
            }
        } else {
            assert(final_logs@ =~= before + log_block(line, turns));
            if has_prefix(&v, s, e, &coins_pat) {
                assert(line.subrange(7, line.len() as int) =~= v@.subrange(s + 7, e as int));
                if let Some(c) = parse_usize_in(&v, s + 7, e) {
                    coins_left = c;
                }
            }
        }
        k = k + 1;
    }
    assert(ls.take(bounds.len() as int) =~= ls);
    let coins_used: u64 = if coins_left <= initial as usize {
        (initial as usize - coins_left) as u64
    } else {
        0
    };
    GameStatus {
        game_id,
        game_status: GameStatusEnum::EXECUTED,
        game_result: Some(
            GameResult {
                destruction_percentage,
                coins_used,
                has_errors: false,
                log: final_logs,
            },
        ),
    }
}

/// Builds the result of a finished normal match, as `assemble_result` describes,
/// from the request's budget.
pub fn create_final_response(
    game_request: NormalGameRequest,
    player_log: String,
    simulator_log: String,
) -> (r: GameStatus)
    ensures
        r.game_id == game_request.game_id,
        r.game_status == GameStatusEnum::EXECUTED,
        r.game_result is Some,
        ({
            let res = r.game_result->Some_0;
            let coins = game_request.parameters.no_of_coins as nat;
            let m = rewrite(lines(simulator_log@), turn_logs(player_log@), coins);
            &&& res.log@ == m.log
            &&& opt_string_view(res.destruction_percentage) == m.destruction
            &&& res.coins_used == coins_spent(coins, m.coins_left)
            &&& !res.has_errors
        }),
{
    assemble_result(
        game_request.game_id,
        game_request.parameters.no_of_coins,
        player_log,
        simulator_log,
    )
}

/// The name under which an error is reported.
pub open spec fn category_name(err: SimulatorError) -> Seq<char> {
    match err {
        SimulatorError::RuntimeError(_) => "Runtime Error!"@,
        SimulatorError::CompilationError(_) => "Compilation Error!"@,
        SimulatorError::FifoCreationError(_) => "Process Communication Error!"@,
        SimulatorError::UnidentifiedError(_) => "Unidentified Error. Contact the POCs!"@,
        SimulatorError::TimeOutError(_) => "Timeout Error!"@,
        SimulatorError::EpollError(_) => "Event Creation Error!"@,
    }
}

/// The lines, each prefixed with `ERRORS, `, joined by newlines.
pub open spec fn error_lines(ls: Seq<Seq<char>>) -> Seq<char>
    decreases ls.len(),
{
    if ls.len() == 0 {
        Seq::empty()
    } else if ls.len() == 1 {
        "ERRORS, "@ + ls[0]
    } else {
        error_lines(ls.drop_last()) + seq!['\n'] + "ERRORS, "@ + ls.last()
    }
}

/// The log of a failed match: the error's category, then each line of its message.
pub open spec fn error_log(err: SimulatorError) -> Seq<char> {
    "ERRORS, ERROR TYPE: "@ + category_name(err) + "\nERRORS, ERROR LOG:\n"@ + error_lines(
        lines(err.message()),
    ) + seq!['\n']
}

fn append_category(out: &mut String, err: &SimulatorError)
    ensures
        final(out)@ == old(out)@ + category_name(*err),
{
    match err {
        SimulatorError::RuntimeError(_) => out.append("Runtime Error!"),
        SimulatorError::CompilationError(_) => out.append("Compilation Error!"),
        SimulatorError::FifoCreationError(_) => out.append("Process Communication Error!"),
        SimulatorError::UnidentifiedError(_) => out.append("Unidentified Error. Contact the POCs!"),
        SimulatorError::TimeOutError(_) => out.append("Timeout Error!"),
        SimulatorError::EpollError(_) => out.append("Event Creation Error!"),
    }
}

fn message_of(err: &SimulatorError) -> (r: &String)
    ensures
        r@ == err.message(),
{
    match err {
        SimulatorError::CompilationError(m) => m,
        SimulatorError::RuntimeError(m) => m,
        SimulatorError::TimeOutError(m) => m,
        SimulatorError::FifoCreationError(m) => m,
        SimulatorError::EpollError(m) => m,
        SimulatorError::UnidentifiedError(m) => m,
    }
}

/// The response for a match that failed with `err`: no destruction, no coins used,
/// errors flagged, and a log that names the error and repeats its message line by
/// line after `ERRORS, `.
pub fn create_error_response(game_id: String, err: SimulatorError) -> (r: GameStatus)
    ensures
        r.game_id == game_id,
        r.game_status == GameStatusEnum::EXECUTE_ERROR,
        r.game_result is Some,
        ({
            let res = r.game_result->Some_0;
            &&& res.destruction_percentage is None
            &&& res.coins_used == 0
            &&& res.has_errors
            &&& res.log@ == error_log(err)
        }),
{
    let mut log = String::new();
    log.append("ERRORS, ERROR TYPE: ");
    append_category(&mut log, &err);
    log.append("\nERRORS, ERROR LOG:\n");
    let msg = message_of(&err);
    let v = chars_of(msg.as_str());
    let bounds = line_bounds(&v);
    let ghost ls = lines(v@);
    let ghost head = log@;
    let mut k: usize = 0;
    while k < bounds.len()
        invariant
            ls == lines(v@),
            bounds.len() == ls.len(),
            forall|q: int| #![trigger bounds[q]]
                0 <= q < bounds.len() ==> {
                    &&& bounds[q].0 <= bounds[q].1 <= v.len()
                    &&& v@.subrange(bounds[q].0 as int, bounds[q].1 as int) == ls[q]
                },
            k <= bounds.len(),
            log@ == head + error_lines(ls.take(k as int)),
        decreases bounds.len() - k,
    {
        assert(ls.take(k + 1).drop_last() =~= ls.take(k as int));
        let (a, b) = bounds[k];
        if k > 0 {
            log.push('\n');
        }
        log.append("ERRORS, ");
        push_chars(&mut log, &v, a, b);
        k = k + 1;
        assert(log@ =~= head + error_lines(ls.take(k as int)));
    }
    assert(ls.take(bounds.len() as int) =~= ls);
    log.push('\n');
    GameStatus {
        game_id,
        game_status: GameStatusEnum::EXECUTE_ERROR,
        game_result: Some(
            GameResult { destruction_percentage: None, coins_used: 0, has_errors: true, log },
        ),
    }
}

/// The response sent while a match is still running.
pub fn create_executing_response(game_request: &GameRequest) -> (r: GameStatus)
    ensures
        r.game_id == game_request.spec_game_id(),
        r.game_status == GameStatusEnum::EXECUTING,
        r.game_result is None,
{
    GameStatus {
        game_id: game_request.game_id().clone(),
        game_status: GameStatusEnum::EXECUTING,
        game_result: None,
    }
}

/// The exit code of a process killed for using more than its limits (128 + SIGKILL).
pub const KILLED_EXIT_CODE: i32 = 137;

pub open spec fn timeout_message() -> Seq<char> {
    "Process took longer than the specified time to execute, so it was killed"@
}

pub open spec fn nonzero_exit_message(code: int) -> Seq<char> {
    "Program exited with non zero exit code: "@ + signed_decimal(code)
}

/// The error that an exit code other than zero stands for: without a code or with
/// code 137 a time-out, and with any other code a runtime error that names it.
pub open spec fn describes_exit(code: Option<i32>, e: SimulatorError) -> bool {
    match code {
        Some(c) => if c == KILLED_EXIT_CODE {
            e matches SimulatorError::TimeOutError(m) && m@ == timeout_message()
        } else {
            e matches SimulatorError::RuntimeError(m) && m@ == nonzero_exit_message(c as int)
        },
        None => e matches SimulatorError::TimeOutError(m) && m@ == timeout_message(),
    }
}

/// How a participant's exit ends the match: a zero exit code lets it go on, and any
/// other outcome is the error that `describes_exit` gives.
pub fn exit_outcome(code: Option<i32>) -> (r: Result<(), SimulatorError>)
    ensures
        code == Some(0i32) ==> r is Ok,
        code != Some(0i32) ==> (r matches Err(e) && describes_exit(code, e)),
{
    match code {
        Some(c) => {
            if c == 0 {
                return Ok(());
            }
            if c == KILLED_EXIT_CODE {
                return Err(timeout_error());
            }
            let mut m = String::new();
            m.append("Program exited with non zero exit code: ");
            push_signed(&mut m, c);
            assert(m@ =~= nonzero_exit_message(c as int));
            Err(SimulatorError::RuntimeError(m))
        },
        None => Err(timeout_error()),
    }
}

fn timeout_error() -> (r: SimulatorError)
    ensures
        r matches SimulatorError::TimeOutError(m) && m@ == timeout_message(),
{
    let mut m = String::new();
    m.append("Process took longer than the specified time to execute, so it was killed");
    assert(m@ =~= timeout_message());
    SimulatorError::TimeOutError(m)
}

} // verus!
