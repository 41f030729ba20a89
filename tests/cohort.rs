use cc_driver::cohort::{assign_outputs, assign_pvp_outputs, poll_timeout_ms, Cohort};
use cc_driver::wiring::{wire_normal, wire_pvp};
use cc_driver::error::SimulatorError;
use cc_driver::fifo::Fifo;
use cc_driver::poll::{CallbackMessage, MultiplexRegistry, PollEntry, ProcessEntry, Role, StderrEntry};

fn process(pid: u32, role: Role) -> PollEntry<u32, &'static str> {
    PollEntry::Process(ProcessEntry { handle: pid, role })
}

fn stream(name: &'static str, role: Role) -> PollEntry<u32, &'static str> {
    PollEntry::StdErr(StderrEntry::new(name, role))
}

fn normal_cohort() -> Cohort<u32, &'static str> {
    let mut c = Cohort::new();
    assert!(c.register(10, process(100, Role::Player)).is_ok());
    assert!(c.register(11, stream("player", Role::Player)).is_ok());
    assert!(c.register(20, process(200, Role::Simulator)).is_ok());
    assert!(c.register(21, stream("sim", Role::Simulator)).is_ok());
    c
}

#[test]
fn mid_stream_exit_kills_the_simulator() {
    let mut c = normal_cohort();
    assert!(matches!(c.on_ready(11, b"TURN 1\nx\nENDLOG\n", false), Ok(None)));
    let reaped = match c.on_ready(10, &[], false) {
        Ok(Some(p)) => p,
        _ => panic!("the player should be handed back to be waited on"),
    };
    assert_eq!(reaped.handle, 100);
    assert_eq!(reaped.role, Role::Player);
    let abort = match c.on_exit(Some(42)) {
        Err(a) => a,
        Ok(()) => panic!("exit code 42 must abort"),
    };
    match &abort.error {
        SimulatorError::RuntimeError(m) => assert!(m.contains("42")),
        other => panic!("unexpected {:?}", other),
    }
    let killed: Vec<u32> = abort.to_kill.iter().map(|p| p.handle).collect();
    assert_eq!(killed, vec![200]);
    assert_eq!(c.registered_keys(), vec![11, 21]);
}

#[test]
fn clean_run_collects_outputs_by_role() {
    let mut c = normal_cohort();
    assert!(matches!(c.on_ready(21, b"sim says", false), Ok(None)));
    assert!(matches!(c.on_ready(21, b" more", true), Ok(None)));
    assert!(matches!(c.on_ready(20, &[], false), Ok(Some(_))));
    assert!(c.on_exit(Some(0)).is_ok());
    assert!(matches!(c.on_ready(10, &[], false), Ok(Some(_))));
    assert!(c.on_exit(Some(0)).is_ok());
    assert!(!c.is_finished());
    assert!(matches!(c.on_ready(11, b"hi", true), Ok(None)));
    assert!(c.is_finished());
    let outputs = c.into_outputs();
    assert_eq!(
        outputs,
        vec![
            (Role::Simulator, b"sim says more".to_vec()),
            (Role::Player, b"hi".to_vec())
        ]
    );
    let (player, sim) = assign_outputs(outputs).unwrap();
    assert_eq!(player, b"hi".to_vec());
    assert_eq!(sim, b"sim says more".to_vec());
}

#[test]
fn timeout_exit_aborts_with_timeout() {
    let mut c = normal_cohort();
    assert!(matches!(c.on_ready(20, &[], false), Ok(Some(_))));
    match c.on_exit(Some(137)) {
        Err(a) => {
            assert!(matches!(a.error, SimulatorError::TimeOutError(_)));
            assert_eq!(a.to_kill.len(), 1);
            assert_eq!(a.to_kill[0].handle, 100);
        }
        Ok(()) => panic!("137 must abort"),
    }
}

#[test]
fn failed_registration_hands_out_every_child() {
    let mut c = Cohort::new();
    assert!(c.register(10, process(100, Role::Player1)).is_ok());
    assert!(c.register(11, stream("p1", Role::Player1)).is_ok());
    match c.register(10, process(300, Role::Player2)) {
        Err(a) => {
            assert!(matches!(a.error, SimulatorError::EpollError(_)));
            let killed: Vec<u32> = a.to_kill.iter().map(|p| p.handle).collect();
            assert_eq!(killed, vec![100, 300]);
        }
        Ok(()) => panic!("a taken descriptor must be refused"),
    }
    assert_eq!(c.registered_keys(), vec![11]);
}

#[test]
fn abort_leaves_only_streams() {
    let mut c = normal_cohort();
    let a = c.abort(SimulatorError::EpollError("poll failed".to_owned()));
    let killed: Vec<u32> = a.to_kill.iter().map(|p| p.handle).collect();
    assert_eq!(killed, vec![100, 200]);
    assert_eq!(c.registered_keys(), vec![11, 21]);
}

#[test]
fn unknown_descriptor_aborts() {
    let mut c = normal_cohort();
    match c.on_ready(99, &[], false) {
        Err(a) => {
            assert!(matches!(a.error, SimulatorError::EpollError(_)));
            assert_eq!(a.to_kill.len(), 2);
        }
        Ok(_) => panic!("an unknown descriptor must abort"),
    }
}

#[test]
fn registry_hands_entries_back_once() {
    let mut r: MultiplexRegistry<u32, &'static str> = MultiplexRegistry::new();
    assert!(r.register(5, process(1, Role::Player)).is_ok());
    assert!(r.register(6, stream("s", Role::Player)).is_ok());
    assert!(matches!(r.register(5, process(2, Role::Player)), Err(SimulatorError::EpollError(_))));
    assert_eq!(r.registered_keys(), vec![5, 6]);
    match r.unregister(5) {
        Ok(PollEntry::Process(p)) => assert_eq!(p.handle, 1),
        _ => panic!("the process entry should come back"),
    }
    assert!(matches!(r.unregister(5), Err(SimulatorError::EpollError(_))));
    assert_eq!(r.registered_keys(), vec![6]);
    assert!(!r.is_empty());
}

#[test]
fn stream_events_absorb_and_signal_end() {
    let mut r: MultiplexRegistry<u32, &'static str> = MultiplexRegistry::new();
    assert!(r.register(7, stream("s", Role::Simulator)).is_ok());
    assert!(r.register(8, process(3, Role::Simulator)).is_ok());
    assert_eq!(r.stderr_stream(7), Some(&"s"));
    assert_eq!(r.stderr_stream(8), None);
    assert_eq!(r.process_event(7, b"ab", false), Ok(CallbackMessage::Nop));
    assert_eq!(r.process_event(7, b"c", true), Ok(CallbackMessage::Unregister(7)));
    assert_eq!(r.process_event(8, b"", false), Ok(CallbackMessage::HandleExplicitly(8)));
    match r.unregister(7) {
        Ok(PollEntry::StdErr(e)) => assert_eq!(e.take_output(), (b"abc".to_vec(), Role::Simulator)),
        _ => panic!("the stream entry should come back"),
    }
    let drained = r.drain_processes();
    assert_eq!(drained.len(), 1);
    assert!(r.is_empty());
}

#[test]
fn outputs_must_match_the_roles() {
    assert!(matches!(
        assign_outputs(vec![(Role::Player, vec![1])]),
        Err(SimulatorError::UnidentifiedError(m)) if m == "Failed to map outputs"
    ));
    assert!(assign_outputs(vec![(Role::Player, vec![1]), (Role::Player, vec![2])]).is_err());
    let (p, s) = assign_outputs(vec![(Role::Simulator, vec![9]), (Role::Player, vec![1])]).unwrap();
    assert_eq!((p, s), (vec![1], vec![9]));
    let (a, b, c) = assign_pvp_outputs(vec![
        (Role::Player2, vec![2]),
        (Role::Simulator, vec![3]),
        (Role::Player1, vec![1]),
    ])
    .unwrap();
    assert_eq!((a, b, c), (vec![1], vec![2], vec![3]));
    assert!(assign_pvp_outputs(vec![
        (Role::Player1, vec![1]),
        (Role::Player1, vec![1]),
        (Role::Simulator, vec![3]),
    ])
    .is_err());
    assert!(assign_pvp_outputs(vec![(Role::Player1, vec![1]), (Role::Player2, vec![2])]).is_err());
}

#[test]
fn fifo_ends_are_yielded_once() {
    let mut f = Fifo::new("/tmp/x/p1_in".to_owned(), "w", "r");
    assert_eq!(f.path(), "/tmp/x/p1_in");
    assert_eq!(f.get_ends(), Ok(("w", "r")));
    assert!(matches!(f.get_ends(), Err(SimulatorError::FifoCreationError(_))));
    assert!(matches!(f.get_ends(), Err(SimulatorError::FifoCreationError(_))));
}

#[test]
fn normal_wiring_crosses_the_pipes() {
    let mut to_player = Fifo::new("p1_in".to_owned(), "w1", "r1");
    let mut to_sim = Fifo::new("p2_in".to_owned(), "w2", "r2");
    let ends = wire_normal(&mut to_player, &mut to_sim).unwrap();
    assert_eq!(
        (ends.player_in, ends.player_out, ends.sim_in, ends.sim_out),
        ("r1", "w2", "r2", "w1")
    );
    assert!(matches!(
        wire_normal(&mut to_player, &mut to_sim),
        Err(SimulatorError::FifoCreationError(_))
    ));
}

#[test]
fn pvp_wiring_gives_each_player_a_pair() {
    let mut f: Vec<Fifo<String>> = (1..=5)
        .map(|i| Fifo::new(format!("p{i}_in"), format!("w{i}"), format!("r{i}")))
        .collect();
    let (a, rest) = f.split_at_mut(1);
    let (b, rest) = rest.split_at_mut(1);
    let (c, rest) = rest.split_at_mut(1);
    let (d, e) = rest.split_at_mut(1);
    let ends = wire_pvp(&mut a[0], &mut b[0], &mut c[0], &mut d[0], &mut e[0]).unwrap();
    assert_eq!((ends.p1_out.as_str(), ends.sim_p1_in.as_str()), ("w1", "r1"));
    assert_eq!((ends.p2_out.as_str(), ends.sim_p2_in.as_str()), ("w2", "r2"));
    assert_eq!((ends.sim_p1_out.as_str(), ends.p1_in.as_str()), ("w3", "r3"));
    assert_eq!((ends.sim_p2_out.as_str(), ends.p2_in.as_str()), ("w4", "r4"));
    assert_eq!((ends.sim_out.as_str(), ends.sim_in.as_str()), ("w5", "r5"));
}

#[test]
fn poll_timeout_setting_and_default() {
    assert_eq!(poll_timeout_ms(None), 1000);
    assert_eq!(poll_timeout_ms(Some("250")), 250);
    assert_eq!(poll_timeout_ms(Some("soon")), 1000);
    assert_eq!(poll_timeout_ms(Some("")), 1000);
}
