//! What the result assembler guarantees about a player's logged block: it reaches
//! the rewritten log right after the simulator's header for its turn.
use vstd::prelude::*;

use crate::text::{lines, parse_usize, starts_with, trim};
use crate::{
    announced_turn, endlog_tag, log_block, print_lines, rewrite, scan, scan_start, scan_step,
    turn_logs, turn_tag, ScanState,
};

verus! {

/// The scan of `ls` from the state `st`.
pub open spec fn scan_from(st: ScanState, ls: Seq<Seq<char>>) -> ScanState
    decreases ls.len(),
{
    if ls.len() == 0 {
        st
    } else {
        scan_step(scan_from(st, ls.drop_last()), trim(ls.last()))
    }
}

/// Whether a player's log line opens the block of turn `n`.
pub open spec fn opens_turn(line: Seq<char>, n: usize) -> bool {
    starts_with(trim(line), turn_tag()) && parse_usize(trim(line).subrange(5, trim(line).len() as int))
        == Some(n)
}

/// The rewritten log of some simulator lines, from the first on.
pub open spec fn log_blocks(ls: Seq<Seq<char>>, turns: Map<usize, Seq<Seq<char>>>) -> Seq<char>
    decreases ls.len(),
{
    if ls.len() == 0 {
        Seq::empty()
    } else {
        log_block(trim(ls[0]), turns) + log_blocks(ls.drop_first(), turns)
    }
}

pub open spec fn trimmed(ls: Seq<Seq<char>>) -> Seq<Seq<char>> {
    ls.map_values(|l: Seq<char>| trim(l))
}

proof fn lemma_scan_is_scan_from(ls: Seq<Seq<char>>)
    ensures
        scan(ls) == scan_from(scan_start(), ls),
    decreases ls.len(),
{
    if ls.len() > 0 {
        lemma_scan_is_scan_from(ls.drop_last());
    }
}

proof fn lemma_scan_from_append(st: ScanState, a: Seq<Seq<char>>, b: Seq<Seq<char>>)
    ensures
        scan_from(st, a + b) == scan_from(scan_from(st, a), b),
    decreases b.len(),
{
    if b.len() == 0 {
        assert(a + b =~= a);
    } else {
        assert((a + b).drop_last() =~= a + b.drop_last());
        lemma_scan_from_append(st, a, b.drop_last());
    }
}

/// Inside an open block, lines are captured until `ENDLOG`.
proof fn lemma_body_captured(st: ScanState, body: Seq<Seq<char>>)
    requires
        st.capturing,
        forall|j: int| 0 <= j < body.len() ==> !starts_with(trim(#[trigger] body[j]), endlog_tag()),
    ensures
        scan_from(st, body) == (ScanState { logs: st.logs + trimmed(body), ..st }),
    decreases body.len(),
{
    if body.len() == 0 {
        assert(st.logs + trimmed(body) =~= st.logs);
    } else {
        let p = body.drop_last();
        assert forall|j: int| 0 <= j < p.len() implies !starts_with(trim(#[trigger] p[j]), endlog_tag()) by {
            assert(p[j] == body[j]);
        }
        lemma_body_captured(st, p);
        assert(!starts_with(trim(body[body.len() - 1]), endlog_tag()));
        assert(st.logs + trimmed(body) =~= (st.logs + trimmed(p)).push(trim(body.last())));
    }
}

/// After the block of turn `n` has been committed, later lines that open no block for
/// `n` leave what was committed for `n` alone.
proof fn lemma_turn_kept(st: ScanState, post: Seq<Seq<char>>, n: usize, logs: Seq<Seq<char>>)
    requires
        st.turns.contains_key(n) && st.turns[n] == logs,
        st.capturing ==> st.turn != n,
        forall|j: int| 0 <= j < post.len() ==> !opens_turn(#[trigger] post[j], n),
    ensures
        ({
            let f = scan_from(st, post);
            &&& f.turns.contains_key(n) && f.turns[n] == logs
            &&& f.capturing ==> f.turn != n
        }),
    decreases post.len(),
{
    if post.len() > 0 {
        let p = post.drop_last();
        assert forall|j: int| 0 <= j < p.len() implies !opens_turn(#[trigger] p[j], n) by {
            assert(p[j] == post[j]);
        }
        lemma_turn_kept(st, p, n, logs);
        assert(!opens_turn(post[post.len() - 1], n));
    }
}

proof fn lemma_log_blocks_split(
    ls: Seq<Seq<char>>,
    turns: Map<usize, Seq<Seq<char>>>,
    coins: nat,
    k: int,
)
    requires
        0 <= k <= ls.len(),
    ensures
        rewrite(ls, turns, coins).log == rewrite(ls.take(k), turns, coins).log + log_blocks(
            ls.subrange(k, ls.len() as int),
            turns,
        ),
    decreases ls.len() - k,
{
    if k == ls.len() {
        assert(ls.take(k) =~= ls);
        assert(log_blocks(ls.subrange(k, ls.len() as int), turns) =~= Seq::<char>::empty());
    } else {
        lemma_log_blocks_split(ls, turns, coins, k + 1);
        assert(ls.take(k + 1).drop_last() =~= ls.take(k));
        assert(ls.take(k + 1).last() == ls[k]);
        assert(ls.subrange(k, ls.len() as int).drop_first() =~= ls.subrange(k + 1, ls.len() as int));
        assert(rewrite(ls.take(k + 1), turns, coins).log == rewrite(ls.take(k), turns, coins).log
            + log_block(trim(ls[k]), turns));
    }
}

/// A block that a player logged for turn `n` (a `TURN <n>` line opened outside any
/// block, lines none of which starts with `ENDLOG`, then an `ENDLOG` line), which no
/// later line of the player's log reopens, appears in the rewritten log right after
/// each simulator line `TURN, <n>`: every line of the block, trimmed and prefixed
/// with `PRINT, `, and then the rest of the simulator's log from its next line on.
pub proof fn lemma_log_round_trip(
    player_log: Seq<char>,
    simulator_log: Seq<char>,
    initial_coins: nat,
    pre: Seq<Seq<char>>,
    header: Seq<char>,
    body: Seq<Seq<char>>,
    end: Seq<char>,
    post: Seq<Seq<char>>,
    n: usize,
    i: int,
)
    requires
        lines(player_log) == pre + seq![header] + body + seq![end] + post,
        !scan(pre).capturing,
        opens_turn(header, n),
        forall|j: int| 0 <= j < body.len() ==> !starts_with(trim(#[trigger] body[j]), endlog_tag()),
        starts_with(trim(end), endlog_tag()),
        forall|j: int| 0 <= j < post.len() ==> !opens_turn(#[trigger] post[j], n),
        0 <= i < lines(simulator_log).len(),
        announced_turn(trim(lines(simulator_log)[i])) == Some(n),
    ensures
        ({
            let sim = lines(simulator_log);
            let turns = turn_logs(player_log);
            &&& turns.contains_key(n) && turns[n] == trimmed(body)
            &&& rewrite(sim, turns, initial_coins).log == rewrite(sim.take(i), turns, initial_coins).log
                + trim(sim[i]) + seq!['\n'] + print_lines(trimmed(body)) + log_blocks(
                sim.subrange(i + 1, sim.len() as int),
                turns,
            )
        }),
{
    let pl = lines(player_log);
    let s0 = scan(pre);
    lemma_scan_is_scan_from(pl);
    lemma_scan_is_scan_from(pre);
    let s1 = scan_from(s0, seq![header]);
    assert(seq![header].drop_last() =~= Seq::<Seq<char>>::empty());
    assert(seq![header].last() == header);
    assert(scan_from(s0, seq![header].drop_last()) == s0);
    assert(s1 == scan_step(s0, trim(header)));
    assert(s1.capturing && s1.turn == n && s1.turns == s0.turns && s1.logs == s0.logs);
    let s2 = scan_from(s1, body);
    lemma_body_captured(s1, body);
    let s3 = scan_from(s2, seq![end]);
    assert(seq![end].drop_last() =~= Seq::<Seq<char>>::empty());
    assert(seq![end].last() == end);
    assert(scan_from(s2, seq![end].drop_last()) == s2);
    assert(s3 == scan_step(s2, trim(end)));
    assert(s3.turns == s0.turns.insert(n, s0.logs + trimmed(body)));
    // Outside a block nothing is captured, so the logs are empty when it opens.
    lemma_idle_logs_empty(pre);
    assert(s0.logs + trimmed(body) =~= trimmed(body));
    lemma_turn_kept(s3, post, n, trimmed(body));
    let a = pre;
    let b = seq![header];
    let c = body;
    let d = seq![end];
    lemma_scan_from_append(scan_start(), a, b);
    lemma_scan_from_append(scan_start(), a + b, c);
    lemma_scan_from_append(scan_start(), a + b + c, d);
    lemma_scan_from_append(scan_start(), a + b + c + d, post);
    let sim = lines(simulator_log);
    let turns = turn_logs(player_log);
    lemma_log_blocks_split(sim, turns, initial_coins, i);
    let rest = sim.subrange(i, sim.len() as int);
    assert(rest[0] == sim[i]);
    assert(rest.drop_first() =~= sim.subrange(i + 1, sim.len() as int));
}

/// Outside a block the pending lines are empty.
proof fn lemma_idle_logs_empty(ls: Seq<Seq<char>>)
    ensures
        !scan(ls).capturing ==> scan(ls).logs == Seq::<Seq<char>>::empty(),
        scan(ls).capturing || scan(ls).logs == Seq::<Seq<char>>::empty(),
    decreases ls.len(),
{
    if ls.len() > 0 {
        lemma_idle_logs_empty(ls.drop_last());
    }
}

} // verus!
