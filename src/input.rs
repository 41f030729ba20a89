//! The text written to each participant's input before it starts: the match
//! settings, the troops, and for a normal match the map.
use vstd::prelude::*;

use crate::request::{Attacker, Defender, NormalGameRequest, PvPGameRequest};
use crate::text::{decimal, push_decimal};

verus! {

pub open spec fn dec(n: u32) -> Seq<char> {
    decimal(n as nat)
}

pub open spec fn sp() -> Seq<char> {
    seq![' ']
}

pub open spec fn nl() -> Seq<char> {
    seq!['\n']
}

/// `hp range attack_power speed price is_aerial weight num_ability_turns
/// ability_activation_cost`
pub open spec fn attacker_line(a: Attacker) -> Seq<char> {
    dec(a.hp) + sp() + dec(a.range) + sp() + dec(a.attack_power) + sp() + dec(a.speed) + sp()
        + dec(a.price) + sp() + dec(a.is_aerial) + sp() + dec(a.weight) + sp() + dec(
        a.num_ability_turns,
    ) + sp() + dec(a.ability_activation_cost) + nl()
}

/// `hp range attack_power 0 price is_aerial`: the `0` fills the slot of the speed.
pub open spec fn defender_line(d: Defender) -> Seq<char> {
    dec(d.hp) + sp() + dec(d.range) + sp() + dec(d.attack_power) + sp() + seq!['0'] + sp() + dec(
        d.price,
    ) + sp() + dec(d.is_aerial) + nl()
}

pub open spec fn attacker_lines(s: Seq<Attacker>) -> Seq<char>
    decreases s.len(),
{
    if s.len() == 0 {
        Seq::empty()
    } else {
        attacker_lines(s.drop_last()) + attacker_line(s.last())
    }
}

pub open spec fn defender_lines(s: Seq<Defender>) -> Seq<char>
    decreases s.len(),
{
    if s.len() == 0 {
        Seq::empty()
    } else {
        defender_lines(s.drop_last()) + defender_line(s.last())
    }
}

/// The troop section: the attacker count, one line per attacker, the defender count,
/// one line per defender.
pub open spec fn troops_text(attackers: Seq<Attacker>, defenders: Seq<Defender>) -> Seq<char> {
    decimal(attackers.len()) + nl() + attacker_lines(attackers) + decimal(defenders.len()) + nl()
        + defender_lines(defenders)
}

/// One map row: each cell followed by a space, then a newline.
pub open spec fn row_cells(row: Seq<u8>) -> Seq<char>
    decreases row.len(),
{
    if row.len() == 0 {
        Seq::empty()
    } else {
        row_cells(row.drop_last()) + decimal(row.last() as nat) + sp()
    }
}

pub open spec fn map_rows(rows: Seq<Vec<u8>>) -> Seq<char>
    decreases rows.len(),
{
    if rows.len() == 0 {
        Seq::empty()
    } else {
        map_rows(rows.drop_last()) + row_cells(rows.last()@) + nl()
    }
}

/// What a normal match's participants read first.
pub open spec fn normal_input(req: NormalGameRequest, map_size: Seq<char>) -> Seq<char> {
    dec(req.parameters.no_of_turns) + sp() + dec(req.parameters.no_of_coins) + nl() + troops_text(
        req.parameters.attackers@,
        req.parameters.defenders@,
    ) + map_size + sp() + map_size + nl() + map_rows(req.map@)
}

/// What a PvP match's simulator channels carry first.
pub open spec fn pvp_input(req: PvPGameRequest) -> Seq<char> {
    dec(req.parameters.no_of_turns) + sp() + dec(req.parameters.no_of_coins) + nl() + troops_text(
        req.parameters.attackers@,
        req.parameters.defenders@,
    )
}

fn push_field(out: &mut String, n: u32, last: bool)
    ensures
        final(out)@ == old(out)@ + dec(n) + (if last {
            nl()
        } else {
            sp()
        }),
{
    push_decimal(out, n as u64);
    if last {
        out.push('\n');
    } else {
        out.push(' ');
    }
}

fn push_attacker(out: &mut String, a: Attacker)
    ensures
        final(out)@ == old(out)@ + attacker_line(a),
{
    push_field(out, a.hp, false);
    push_field(out, a.range, false);
    push_field(out, a.attack_power, false);
    push_field(out, a.speed, false);
    push_field(out, a.price, false);
    push_field(out, a.is_aerial, false);
    push_field(out, a.weight, false);
    push_field(out, a.num_ability_turns, false);
    push_field(out, a.ability_activation_cost, true);
    assert(out@ =~= old(out)@ + attacker_line(a));
}

fn push_defender(out: &mut String, d: Defender)
    ensures
        final(out)@ == old(out)@ + defender_line(d),
{
    push_field(out, d.hp, false);
    push_field(out, d.range, false);
    push_field(out, d.attack_power, false);
    out.push('0');
    out.push(' ');
    push_field(out, d.price, false);
    push_field(out, d.is_aerial, true);
    assert(out@ =~= old(out)@ + defender_line(d));
}

/// Appends the troop section.
pub fn send_troops(out: &mut String, attackers: &Vec<Attacker>, defenders: &Vec<Defender>)
    ensures
        final(out)@ == old(out)@ + troops_text(attackers@, defenders@),
{
    push_decimal(out, attackers.len() as u64);
    out.push('\n');
    let ghost head = out@;
    let mut i: usize = 0;
    while i < attackers.len()
        invariant
            i <= attackers.len(),
            out@ == head + attacker_lines(attackers@.take(i as int)),
        decreases attackers.len() - i,
    {
        assert(attackers@.take(i + 1).drop_last() =~= attackers@.take(i as int));
        push_attacker(out, attackers[i]);
        i = i + 1;
        assert(out@ =~= head + attacker_lines(attackers@.take(i as int)));
    }
    assert(attackers@.take(attackers.len() as int) =~= attackers@);
    push_decimal(out, defenders.len() as u64);
    out.push('\n');
    let ghost mid = out@;
    let mut j: usize = 0;
    while j < defenders.len()
        invariant
            j <= defenders.len(),
            out@ == mid + defender_lines(defenders@.take(j as int)),
        decreases defenders.len() - j,
    {
        assert(defenders@.take(j + 1).drop_last() =~= defenders@.take(j as int));
        push_defender(out, defenders[j]);
        j = j + 1;
        assert(out@ =~= mid + defender_lines(defenders@.take(j as int)));
    }
    assert(defenders@.take(defenders.len() as int) =~= defenders@);
    assert(out@ =~= old(out)@ + troops_text(attackers@, defenders@));
}

/// The text that every participant of a normal match reads before it starts; the
/// map's side length is written as given.
pub fn send_initial_input(normal_game_request: &NormalGameRequest, map_size: &str) -> (r: String)
    ensures
        r@ == normal_input(*normal_game_request, map_size@),
{
    let p = &normal_game_request.parameters;
    let mut out = String::new();
    push_field(&mut out, p.no_of_turns, false);
    push_field(&mut out, p.no_of_coins, true);
    send_troops(&mut out, &p.attackers, &p.defenders);
    out.append(map_size);
    out.push(' ');
    out.append(map_size);
    out.push('\n');
    let map = &normal_game_request.map;
    let ghost head = out@;
    let mut i: usize = 0;
    while i < map.len()
        invariant
            i <= map.len(),
            out@ == head + map_rows(map@.take(i as int)),
        decreases map.len() - i,
    {
        assert(map@.take(i + 1).drop_last() =~= map@.take(i as int));
        let row = &map[i];
        let ghost row_head = out@;
        let mut j: usize = 0;
        while j < row.len()
            invariant
                j <= row.len(),
                out@ == row_head + row_cells(row@.take(j as int)),
            decreases row.len() - j,
        {
            assert(row@.take(j + 1).drop_last() =~= row@.take(j as int));
            push_decimal(&mut out, row[j] as u64);
            out.push(' ');
            j = j + 1;
            assert(out@ =~= row_head + row_cells(row@.take(j as int)));
        }
        assert(row@.take(row.len() as int) =~= row@);
        out.push('\n');
        i = i + 1;
        assert(out@ =~= head + map_rows(map@.take(i as int)));
    }
    assert(map@.take(map.len() as int) =~= map@);
    assert(out@ =~= normal_input(*normal_game_request, map_size@));
    out
}

/// The text that each simulator channel of a PvP match carries before it starts.
pub fn send_initial_pvp_input(pvp_request: &PvPGameRequest) -> (r: String)
    ensures
        r@ == pvp_input(*pvp_request),
{
    let p = &pvp_request.parameters;
    let mut out = String::new();
    push_field(&mut out, p.no_of_turns, false);
    push_field(&mut out, p.no_of_coins, true);
    send_troops(&mut out, &p.attackers, &p.defenders);
    assert(out@ =~= pvp_input(*pvp_request));
    out
}

} // verus!
