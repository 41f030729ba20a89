//! Which FIFO end goes to which participant.
//!
//! A normal match uses two FIFOs: the simulator writes to the player through the
//! first and the player writes to the simulator through the second. A PvP match uses
//! five: each player writes to the simulator through its own FIFO (the first two),
//! reads from it through another (the next two), and the fifth is the simulator's own
//! channel, both of whose ends it gets.
use vstd::prelude::*;

use crate::error::SimulatorError;
use crate::fifo::Fifo;

verus! {

/// The ends of a normal match's two FIFOs.
pub struct NormalWiring<E> {
    pub player_in: E,
    pub player_out: E,
    pub sim_in: E,
    pub sim_out: E,
}

/// The ends of a PvP match's five FIFOs. The simulator's ends of the players' FIFOs
/// are opened by the simulator itself through their descriptors.
pub struct PvPWiring<E> {
    pub p1_in: E,
    pub p1_out: E,
    pub p2_in: E,
    pub p2_out: E,
    pub sim_p1_in: E,
    pub sim_p1_out: E,
    pub sim_p2_in: E,
    pub sim_p2_out: E,
    pub sim_in: E,
    pub sim_out: E,
}

/// The write end of a FIFO whose ends are still there.
pub open spec fn w<E>(f: Fifo<E>) -> E {
    f.spec_ends()->Some_0.0
}

/// The read end of a FIFO whose ends are still there.
pub open spec fn rd<E>(f: Fifo<E>) -> E {
    f.spec_ends()->Some_0.1
}

/// Hands out the ends of a normal match's FIFOs. Fails if the ends of either were
/// already taken.
pub fn wire_normal<E>(to_player: &mut Fifo<E>, to_sim: &mut Fifo<E>) -> (r: Result<
    NormalWiring<E>,
    SimulatorError,
>)
    ensures
        final(to_player).spent(),
        final(to_sim).spent(),
        !old(to_player).spent() && !old(to_sim).spent() ==> (r matches Ok(x) && (x.player_in == rd(
            *old(to_player),
        ) && x.sim_out == w(*old(to_player)) && x.sim_in == rd(*old(to_sim)) && x.player_out == w(
            *old(to_sim),
        ))),
        old(to_player).spent() || old(to_sim).spent() ==> (r matches Err(e)
            && e is FifoCreationError),
{
    let a = to_player.get_ends();
    let b = to_sim.get_ends();
    match (a, b) {
        (Ok((sim_out, player_in)), Ok((player_out, sim_in))) => Ok(
            NormalWiring { player_in, player_out, sim_in, sim_out },
        ),
        (Err(e), _) => Err(e),
        (_, Err(e)) => Err(e),
    }
}

/// Hands out the ends of a PvP match's FIFOs: `from_p1` and `from_p2` carry the
/// players' moves, `to_p1` and `to_p2` the simulator's replies, and `control` is the
/// simulator's own channel. Fails if the ends of any were already taken.
pub fn wire_pvp<E>(
    from_p1: &mut Fifo<E>,
    from_p2: &mut Fifo<E>,
    to_p1: &mut Fifo<E>,
    to_p2: &mut Fifo<E>,
    control: &mut Fifo<E>,
) -> (r: Result<PvPWiring<E>, SimulatorError>)
    ensures
        final(from_p1).spent() && final(from_p2).spent() && final(to_p1).spent() && final(to_p2).spent() && final(control).spent(),
        !old(from_p1).spent() && !old(from_p2).spent() && !old(to_p1).spent() && !old(to_p2).spent() && !old(control).spent() ==> (r matches Ok(x) && ({
            &&& x.p1_out == w(*old(from_p1)) && x.sim_p1_in == rd(*old(from_p1))
            &&& x.p2_out == w(*old(from_p2)) && x.sim_p2_in == rd(*old(from_p2))
            &&& x.sim_p1_out == w(*old(to_p1)) && x.p1_in == rd(*old(to_p1))
            &&& x.sim_p2_out == w(*old(to_p2)) && x.p2_in == rd(*old(to_p2))
            &&& x.sim_out == w(*old(control)) && x.sim_in == rd(*old(control))
        })),
        old(from_p1).spent() || old(from_p2).spent() || old(to_p1).spent() || old(to_p2).spent()
            || old(control).spent() ==> (r matches Err(e) && e is FifoCreationError),
{
    let a = from_p1.get_ends();
    let b = from_p2.get_ends();
    let c = to_p1.get_ends();
    let d = to_p2.get_ends();
    let e = control.get_ends();
    match (a, b, c, d, e) {
        (
            Ok((p1_out, sim_p1_in)),
            Ok((p2_out, sim_p2_in)),
            Ok((sim_p1_out, p1_in)),
            Ok((sim_p2_out, p2_in)),
            Ok((sim_out, sim_in)),
        ) => Ok(
            PvPWiring {
                p1_in,
                p1_out,
                p2_in,
                p2_out,
                sim_p1_in,
                sim_p1_out,
                sim_p2_in,
                sim_p2_out,
                sim_in,
                sim_out,
            },
        ),
        (Err(err), _, _, _, _) => Err(err),
        (_, Err(err), _, _, _) => Err(err),
        (_, _, Err(err), _, _) => Err(err),
        (_, _, _, Err(err), _) => Err(err),
        (_, _, _, _, Err(err)) => Err(err),
    }
}

} // verus!
