//! The decisions of the cohort event loop. The caller polls, reads, waits and kills;
//! this type says, for each ready descriptor and each exit status, what happens to
//! the registrations, which output is collected, and when the match is aborted.
use vstd::prelude::*;

use crate::error::SimulatorError;
use crate::text::{chars_of, parse_usize, parse_usize_in};
use crate::{describes_exit, exit_outcome};
use crate::poll::{
    keys_of, lemma_key_position_unique, processes_of, streams_of, CallbackMessage,
    MultiplexRegistry, PollEntry, ProcessEntry, Role,
};

verus! {

/// How long one round of the loop waits for readiness when no setting says otherwise.
pub const DEFAULT_POLL_TIMEOUT_MS: usize = 1000;

/// The wait of one round of the loop, in milliseconds: the setting when it is an
/// unsigned decimal number, otherwise the default.
pub fn poll_timeout_ms(setting: Option<&str>) -> (r: usize)
    ensures
        r == match setting {
            Some(t) => match parse_usize(t@) {
                Some(n) => n,
                None => DEFAULT_POLL_TIMEOUT_MS,
            },
            None => DEFAULT_POLL_TIMEOUT_MS,
        },
{
    match setting {
        Some(t) => {
            let v = chars_of(t);
            assert(v@.subrange(0, v@.len() as int) =~= v@);
            match parse_usize_in(&v, 0, v.len()) {
                Some(n) => n,
                None => DEFAULT_POLL_TIMEOUT_MS,
            }
        },
        None => DEFAULT_POLL_TIMEOUT_MS,
    }
}

/// An aborted match: the error to report and every child that is still alive, to be
/// killed by the caller.
pub struct Abort<P> {
    pub error: SimulatorError,
    pub to_kill: Vec<ProcessEntry<P>>,
}

pub open spec fn outputs_view(v: Seq<(Role, Vec<u8>)>) -> Seq<(Role, Seq<u8>)> {
    v.map_values(|o: (Role, Vec<u8>)| (o.0, o.1@))
}

/// The processes and streams of one match, and the outputs of the streams that have
/// closed.
pub struct Cohort<P, S> {
    registry: MultiplexRegistry<P, S>,
    outputs: Vec<(Role, Vec<u8>)>,
}

impl<P, S> Cohort<P, S> {
    pub closed spec fn entries(&self) -> Seq<(u64, PollEntry<P, S>)> {
        self.registry@
    }

    /// The collected outputs, in the order in which their streams closed.
    pub closed spec fn collected(&self) -> Seq<(Role, Seq<u8>)> {
        outputs_view(self.outputs@)
    }

    pub closed spec fn wf(&self) -> bool {
        self.registry.wf()
    }

    pub open spec fn has_process(&self) -> bool {
        exists|i: int| 0 <= i < self.entries().len() && #[trigger] self.entries()[i].1 is Process
    }

    pub fn new() -> (r: Self)
        ensures
            r.wf(),
            r.entries() == Seq::<(u64, PollEntry<P, S>)>::empty(),
            r.collected() == Seq::<(Role, Seq<u8>)>::empty(),
    {
        let r = Cohort { registry: MultiplexRegistry::new(), outputs: Vec::new() };
        assert(r.collected() =~= Seq::<(Role, Seq<u8>)>::empty());
        r
    }

    /// Whether every process has been reaped and every stream has closed.
    pub fn is_finished(&self) -> (r: bool)
        ensures
            r == (self.entries().len() == 0),
    {
        self.registry.is_empty()
    }

    pub fn registered_keys(&self) -> (r: Vec<u64>)
        ensures
            r@ == keys_of(self.entries()),
    {
        self.registry.registered_keys()
    }

    /// The stream registered under `key`, if `key` is a stream's descriptor.
    pub fn stderr_stream(&self, key: u64) -> (r: Option<&S>)
        requires
            self.wf(),
        ensures
            match r {
                Some(s) => exists|i: int|
                    0 <= i < self.entries().len() && self.entries()[i].0 == key && (
                    #[trigger] self.entries()[i].1 matches PollEntry::StdErr(e) && (e.spec_stream()
                        == *s)),
                None => !(exists|i: int|
                    0 <= i < self.entries().len() && self.entries()[i].0 == key && (
                    #[trigger] self.entries()[i].1 is StdErr)),
            },
    {
        self.registry.stderr_stream(key)
    }

    /// Gives up the match: every child still registered is handed out to be killed,
    /// and none stays registered.
    pub fn abort(&mut self, error: SimulatorError) -> (r: Abort<P>)
        requires
            old(self).wf(),
        ensures
            final(self).wf(),
            r.error == error,
            r.to_kill@ == processes_of(old(self).entries()),
            final(self).entries() == streams_of(old(self).entries()),
            !final(self).has_process(),
            final(self).collected() == old(self).collected(),
    {
        let to_kill = self.registry.drain_processes();
        Abort { error, to_kill }
    }

    /// Registers a child or a stream. If the descriptor is taken, the match is
    /// aborted: every registered child, and the rejected one, is handed out to be
    /// killed.
    pub fn register(&mut self, key: u64, entry: PollEntry<P, S>) -> (r: Result<(), Abort<P>>)
        requires
            old(self).wf(),
        ensures
            final(self).wf(),
            final(self).collected() == old(self).collected(),
            !keys_of(old(self).entries()).contains(key) ==> (r is Ok && final(self).entries()
                == old(self).entries().push((key, entry))),
            keys_of(old(self).entries()).contains(key) ==> (r matches Err(a) && (a.error is EpollError
                && a.to_kill@ == processes_of(old(self).entries().push((key, entry))))
                && !final(self).has_process()),
    {
        if !self.registry.is_registered(key) {
            let _ = self.registry.register(key, entry);
            return Ok(());
        }
        let ghost before = self.registry@;
        assert(before.push((key, entry)).drop_last() =~= before);
        let mut m = String::new();
        m.append("descriptor is already registered");
        let mut a = self.abort(SimulatorError::EpollError(m));
        match entry {
            PollEntry::Process(p) => a.to_kill.push(p),
            PollEntry::StdErr(_) => {},
        }
        Err(a)
    }

    /// Handles a ready descriptor, after the caller has read `chunk` from it if it is
    /// a stream (`at_eof` when the stream has ended). A stream absorbs the bytes;
    /// once it has ended it is unregistered and its output collected. A child whose
    /// exit notifier fired is unregistered and handed back to be waited on. A
    /// descriptor that is not registered aborts the match.
    pub fn on_ready(&mut self, key: u64, chunk: &[u8], at_eof: bool) -> (r: Result<
        Option<ProcessEntry<P>>,
        Abort<P>,
    >)
        requires
            old(self).wf(),
        ensures
            final(self).wf(),
            !keys_of(old(self).entries()).contains(key) ==> (r matches Err(a) && (a.error is EpollError
                && a.to_kill@ == processes_of(old(self).entries()) && final(self).entries()
                == streams_of(old(self).entries()) && final(self).collected() == old(self).collected())),
            forall|i: int|
                0 <= i < old(self).entries().len() && old(self).entries()[i].0 == key ==> match #[trigger] old(self).entries()[i].1 {
                    PollEntry::Process(p) => r == Ok::<Option<ProcessEntry<P>>, Abort<P>>(Some(p))
                        && final(self).entries() == old(self).entries().remove(i) && final(self).collected() == old(self).collected(),
                    PollEntry::StdErr(e) => (r matches Ok(None)) && if at_eof {
                        final(self).entries() == old(self).entries().remove(i) && final(self).collected() == old(self).collected().push(
                            (e.spec_role(), e.output() + chunk@),
                        )
                    } else {
                        &&& final(self).collected() == old(self).collected()
                        &&& final(self).entries().len() == old(self).entries().len()
                        &&& final(self).entries()[i].1 matches PollEntry::StdErr(f) && (f.output()
                            == e.output() + chunk@ && f.spec_role() == e.spec_role())
                        &&& forall|j: int|
                            0 <= j < old(self).entries().len() && j != i ==> final(self).entries()[j] == old(self).entries()[j]
                    },
                },
    {
        let ghost before = self.registry@;
        let ghost registered = keys_of(before).contains(key);
        proof {
            if registered {
                let j = choose|j: int| 0 <= j < keys_of(before).len() && keys_of(before)[j] == key;
                assert(before[j].0 == key);
            }
        }
        let ghost idx: int = if registered {
            choose|i: int| 0 <= i < before.len() && before[i].0 == key
        } else {
            0
        };
        proof {
            assert forall|i: int| 0 <= i < before.len() && #[trigger] before[i].0 == key implies i
                == idx by {
                assert(keys_of(before)[i] == key);
                lemma_key_position_unique(before, i, idx);
            }
        }
        match self.registry.process_event(key, chunk, at_eof) {
            Err(e) => Err(self.abort(e)),
            Ok(CallbackMessage::Nop) => Ok(None),
            Ok(CallbackMessage::Unregister(k)) => {
                let ghost mid = self.registry@;
                assert(before[idx].1 is StdErr && at_eof && k == key);
                let u = self.registry.unregister(k);
                proof {
                    assert(keys_of(mid)[idx] == key);
                    let j = choose|j: int|
                        0 <= j < mid.len() && #[trigger] mid[j].0 == k && u == Ok::<
                            PollEntry<P, S>,
                            SimulatorError,
                        >(mid[j].1) && self.registry@ == mid.remove(j);
                    lemma_key_position_unique(mid, j, idx);
                    assert(mid.remove(idx) =~= before.remove(idx));
                }
                match u {
                    Ok(PollEntry::StdErr(e)) => {
                        let out = e.take_output();
                        self.outputs.push((out.1, out.0));
                        assert(outputs_view(self.outputs@) =~= outputs_view(old(self).outputs@).push(
                            (out.1, out.0@),
                        ));
                        Ok(None)
                    },
                    Ok(PollEntry::Process(p)) => {
                        let mut m = String::new();
                        m.append("a stream descriptor was registered as a process");
                        Err(self.abort(SimulatorError::EpollError(m)))
                    },
                    Err(e) => Err(self.abort(e)),
                }
            },
            Ok(CallbackMessage::HandleExplicitly(k)) => {
                let ghost mid = self.registry@;
                assert(before[idx].1 is Process && k == key && mid == before);
                let u = self.registry.unregister(k);
                proof {
                    assert(keys_of(mid)[idx] == key);
                    let j = choose|j: int|
                        0 <= j < mid.len() && #[trigger] mid[j].0 == k && u == Ok::<
                            PollEntry<P, S>,
                            SimulatorError,
                        >(mid[j].1) && self.registry@ == mid.remove(j);
                    lemma_key_position_unique(mid, j, idx);
                }
                match u {
                    Ok(PollEntry::Process(p)) => Ok(Some(p)),
                    Ok(PollEntry::StdErr(_)) => {
                        let mut m = String::new();
                        m.append("a process descriptor was registered as a stream");
                        Err(self.abort(SimulatorError::EpollError(m)))
                    },
                    Err(e) => Err(self.abort(e)),
                }
            },
        }
    }

    /// Acts on the exit code of a reaped child: a clean exit lets the match go on;
    /// any other outcome aborts it with the error that `exit_outcome` gives.
    pub fn on_exit(&mut self, code: Option<i32>) -> (r: Result<(), Abort<P>>)
        requires
            old(self).wf(),
        ensures
            final(self).wf(),
            final(self).collected() == old(self).collected(),
            code == Some(0i32) ==> r is Ok && final(self).entries() == old(self).entries(),
            code != Some(0i32) ==> (r matches Err(a) && (describes_exit(code, a.error)
                && a.to_kill@ == processes_of(old(self).entries()) && !final(self).has_process())),
    {
        match exit_outcome(code) {
            Ok(()) => Ok(()),
            Err(e) => Err(self.abort(e)),
        }
    }

    /// The collected outputs, once the match has finished.
    pub fn into_outputs(self) -> (r: Vec<(Role, Vec<u8>)>)
        ensures
            outputs_view(r@) == self.collected(),
    {
        self.outputs
    }
}

/// The outputs of a normal match are those of its player and its simulator, one each.
pub open spec fn normal_outputs_ok(o: Seq<(Role, Seq<u8>)>) -> bool {
    o.len() == 2 && ((o[0].0 == Role::Player && o[1].0 == Role::Simulator) || (o[0].0
        == Role::Simulator && o[1].0 == Role::Player))
}

/// The outputs of a PvP match are those of its two players and its simulator, one each.
pub open spec fn pvp_outputs_ok(o: Seq<(Role, Seq<u8>)>) -> bool {
    &&& o.len() == 3
    &&& forall|i: int|
        0 <= i < 3 ==> (#[trigger] o[i].0 == Role::Player1 || o[i].0 == Role::Player2 || o[i].0
            == Role::Simulator)
    &&& o[0].0 != o[1].0 && o[0].0 != o[2].0 && o[1].0 != o[2].0
}

pub open spec fn unmapped_outputs(e: SimulatorError) -> bool {
    e matches SimulatorError::UnidentifiedError(m) && m@ == "Failed to map outputs"@
}

fn unmapped_error() -> (r: SimulatorError)
    ensures
        unmapped_outputs(r),
{
    let mut m = String::new();
    m.append("Failed to map outputs");
    assert(m@ =~= "Failed to map outputs"@);
    SimulatorError::UnidentifiedError(m)
}

/// Sorts a normal match's outputs by role: the player's, then the simulator's.
pub fn assign_outputs(outputs: Vec<(Role, Vec<u8>)>) -> (r: Result<(Vec<u8>, Vec<u8>), SimulatorError>)
    ensures
        normal_outputs_ok(outputs_view(outputs@)) <==> r is Ok,
        r matches Err(e) ==> unmapped_outputs(e),
        r matches Ok(pair) ==> forall|i: int|
            0 <= i < 2 ==> (#[trigger] outputs@[i].0 == Role::Player ==> pair.0@ == outputs@[i].1@)
                && (outputs@[i].0 == Role::Simulator ==> pair.1@ == outputs@[i].1@),
{
    let ghost o = outputs@;
    if outputs.len() != 2 {
        return Err(unmapped_error());
    }
    let mut outputs = outputs;
    let second = outputs.pop().unwrap();
    let first = outputs.pop().unwrap();
    assert(first == o[0] && second == o[1]);
    match (first.0, second.0) {
        (Role::Player, Role::Simulator) => Ok((first.1, second.1)),
        (Role::Simulator, Role::Player) => Ok((second.1, first.1)),
        _ => Err(unmapped_error()),
    }
}

/// Sorts a PvP match's outputs by role: the first player's, the second player's, then
/// the simulator's.
pub fn assign_pvp_outputs(outputs: Vec<(Role, Vec<u8>)>) -> (r: Result<
    (Vec<u8>, Vec<u8>, Vec<u8>),
    SimulatorError,
>)
    ensures
        pvp_outputs_ok(outputs_view(outputs@)) <==> r is Ok,
        r matches Err(e) ==> unmapped_outputs(e),
        r matches Ok(t) ==> forall|i: int|
            0 <= i < 3 ==> (#[trigger] outputs@[i].0 == Role::Player1 ==> t.0@ == outputs@[i].1@)
                && (outputs@[i].0 == Role::Player2 ==> t.1@ == outputs@[i].1@) && (outputs@[i].0
                == Role::Simulator ==> t.2@ == outputs@[i].1@),
{
    let ghost o = outputs@;
    let ghost ov = outputs_view(o);
    assert(forall|i: int| 0 <= i < o.len() ==> #[trigger] ov[i].0 == o[i].0);
    if outputs.len() != 3 {
        return Err(unmapped_error());
    }
    let mut p1: Option<Vec<u8>> = None;
    let mut p2: Option<Vec<u8>> = None;
    let mut sim: Option<Vec<u8>> = None;
    let mut rest = outputs;
    while rest.len() > 0
        invariant
            rest.len() <= 3,
            o.len() == 3,
            o == outputs@,
            ov == outputs_view(o),
            forall|i: int| 0 <= i < o.len() ==> #[trigger] ov[i].0 == o[i].0,
            rest@ == o.take(rest.len() as int),
            forall|i: int|
                rest.len() <= i < 3 ==> (#[trigger] o[i].0 == Role::Player1 || o[i].0
                    == Role::Player2 || o[i].0 == Role::Simulator),
            forall|i: int, j: int|
                rest.len() <= i < j < 3 ==> #[trigger] o[i].0 != #[trigger] o[j].0,
            p1 is Some <==> exists|i: int| rest.len() <= i < 3 && #[trigger] o[i].0 == Role::Player1,
            p2 is Some <==> exists|i: int| rest.len() <= i < 3 && #[trigger] o[i].0 == Role::Player2,
            sim is Some <==> exists|i: int| rest.len() <= i < 3 && #[trigger] o[i].0
                == Role::Simulator,
            forall|i: int|
                rest.len() <= i < 3 && #[trigger] o[i].0 == Role::Player1 ==> (p1 matches Some(
                    v,
                ) && v@ == o[i].1@),
            forall|i: int|
                rest.len() <= i < 3 && #[trigger] o[i].0 == Role::Player2 ==> (p2 matches Some(
                    v,
                ) && v@ == o[i].1@),
            forall|i: int|
                rest.len() <= i < 3 && #[trigger] o[i].0 == Role::Simulator ==> (sim matches Some(
                    v,
                ) && v@ == o[i].1@),
        decreases rest.len(),
    {
        let ghost n = rest.len() - 1;
        let (role, bytes) = rest.pop().unwrap();
        assert(rest@ =~= o.take(n));
        assert(o[n] == (role, bytes));
        match role {
            Role::Player1 => {
                if p1.is_some() {
                    proof {
                        let i = choose|i: int| n + 1 <= i < 3 && #[trigger] o[i].0 == Role::Player1;
                        assert(ov[i].0 == ov[n].0);
                    }
                    return Err(unmapped_error());
                }
                p1 = Some(bytes);
            },
            Role::Player2 => {
                if p2.is_some() {
                    proof {
                        let i = choose|i: int| n + 1 <= i < 3 && #[trigger] o[i].0 == Role::Player2;
                        assert(ov[i].0 == ov[n].0);
                    }
                    return Err(unmapped_error());
                }
                p2 = Some(bytes);
            },
            Role::Simulator => {
                if sim.is_some() {
                    proof {
                        let i = choose|i: int| n + 1 <= i < 3 && #[trigger] o[i].0 == Role::Simulator;
                        assert(ov[i].0 == ov[n].0);
                    }
                    return Err(unmapped_error());
                }
                sim = Some(bytes);
            },
            Role::Player => {
                assert(ov[n].0 == Role::Player);
                return Err(unmapped_error());
            },
        }
    }
    proof {
        assert(o[0].0 == Role::Player1 || o[1].0 == Role::Player1 || o[2].0 == Role::Player1);
        assert(o[0].0 == Role::Player2 || o[1].0 == Role::Player2 || o[2].0 == Role::Player2);
        assert(o[0].0 == Role::Simulator || o[1].0 == Role::Simulator || o[2].0 == Role::Simulator);
    }
    match (p1, p2, sim) {
        (Some(a), Some(b), Some(c)) => Ok((a, b, c)),
        _ => {
            assert(false);
            Err(unmapped_error())
        },
    }
}

} // verus!
