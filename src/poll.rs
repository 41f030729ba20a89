//! The books of the readiness multiplexer: which descriptor stands for which child
//! process or stderr stream, what each stream has produced so far, and what the
//! event loop must do when a descriptor becomes ready.
//!
//! The registry is generic over the child handle `P` and the stream `S`, so it owns
//! them without knowing how they are waited on, read or killed.
use vstd::prelude::*;

use crate::error::SimulatorError;

verus! {

/// Which participant a process or a stderr stream belongs to.
#[derive(Debug, Clone, Copy, PartialEq, Eq, Structural)]
pub enum Role {
    Player,
    Player1,
    Player2,
    Simulator,
}

/// A running child, registered on its exit notifier.
pub struct ProcessEntry<P> {
    pub handle: P,
    pub role: Role,
}

/// The read end of a child's stderr and the bytes read from it so far.
pub struct StderrEntry<S> {
    stream: S,
    role: Role,
    buffer: Vec<u8>,
}

impl<S> StderrEntry<S> {
    pub closed spec fn spec_role(&self) -> Role {
        self.role
    }

    pub closed spec fn spec_stream(&self) -> S {
        self.stream
    }

    /// The bytes absorbed so far.
    pub closed spec fn output(&self) -> Seq<u8> {
        self.buffer@
    }

    pub fn new(stream: S, role: Role) -> (r: Self)
        ensures
            r.spec_role() == role,
            r.spec_stream() == stream,
            r.output() == Seq::<u8>::empty(),
    {
        StderrEntry { stream, role, buffer: Vec::new() }
    }

    pub fn role(&self) -> (r: Role)
        ensures
            r == self.spec_role(),
    {
        self.role
    }

    pub fn stream(&self) -> (r: &S)
        ensures
            *r == self.spec_stream(),
    {
        &self.stream
    }

    /// Appends bytes read from the stream; the buffer only grows.
    pub fn absorb(&mut self, chunk: &[u8])
        ensures
            final(self).output() == old(self).output() + chunk@,
            final(self).spec_role() == old(self).spec_role(),
            final(self).spec_stream() == old(self).spec_stream(),
    {
        let mut i: usize = 0;
        while i < chunk.len()
            invariant
                i <= chunk.len(),
                self.buffer@ == old(self).buffer@ + chunk@.take(i as int),
                self.role == old(self).role,
                self.stream == old(self).stream,
            decreases chunk.len() - i,
        {
            self.buffer.push(chunk[i]);
            i = i + 1;
            assert(self.buffer@ =~= old(self).buffer@ + chunk@.take(i as int));
        }
        assert(chunk@.take(chunk.len() as int) =~= chunk@);
    }

    /// Gives up the entry: its bytes and its role.
    pub fn take_output(self) -> (r: (Vec<u8>, Role))
        ensures
            r.0@ == self.output(),
            r.1 == self.spec_role(),
    {
        (self.buffer, self.role)
    }
}

/// The unit of registration.
pub enum PollEntry<P, S> {
    Process(ProcessEntry<P>),
    StdErr(StderrEntry<S>),
}

/// What the event loop must do after a ready descriptor has been dispatched.
#[derive(Debug, Clone, Copy, PartialEq, Eq, Structural)]
pub enum CallbackMessage {
    /// A stream produced bytes and is still open.
    Nop,
    /// A stream reached its end: unregister it and collect its output.
    Unregister(u64),
    /// A child exited: unregister it, wait for it and act on its exit status.
    HandleExplicitly(u64),
}

pub open spec fn keys_of<P, S>(s: Seq<(u64, PollEntry<P, S>)>) -> Seq<u64> {
    s.map_values(|e: (u64, PollEntry<P, S>)| e.0)
}

/// The process entries among `s`, in order.
pub open spec fn processes_of<P, S>(s: Seq<(u64, PollEntry<P, S>)>) -> Seq<ProcessEntry<P>>
    decreases s.len(),
{
    if s.len() == 0 {
        Seq::empty()
    } else {
        match s.last().1 {
            PollEntry::Process(p) => processes_of(s.drop_last()).push(p),
            PollEntry::StdErr(_) => processes_of(s.drop_last()),
        }
    }
}

/// The stream entries among `s`, in order.
pub open spec fn streams_of<P, S>(s: Seq<(u64, PollEntry<P, S>)>) -> Seq<(u64, PollEntry<P, S>)>
    decreases s.len(),
{
    if s.len() == 0 {
        Seq::empty()
    } else {
        match s.last().1 {
            PollEntry::Process(_) => streams_of(s.drop_last()),
            PollEntry::StdErr(_) => streams_of(s.drop_last()).push(s.last()),
        }
    }
}

/// The registered entries, keyed by descriptor. A key is registered at most once.
pub struct MultiplexRegistry<P, S> {
    entries: Vec<(u64, PollEntry<P, S>)>,
}

impl<P, S> MultiplexRegistry<P, S> {
    /// The registered entries, in order of registration.
    pub closed spec fn view(&self) -> Seq<(u64, PollEntry<P, S>)> {
        self.entries@
    }

    pub open spec fn wf(&self) -> bool {
        keys_of(self@).no_duplicates()
    }

    pub open spec fn registered(&self, key: u64) -> bool {
        keys_of(self@).contains(key)
    }

    pub open spec fn has_process(&self) -> bool {
        exists|i: int| 0 <= i < self@.len() && #[trigger] self@[i].1 is Process
    }

    pub fn new() -> (r: Self)
        ensures
            r.wf(),
            r@ == Seq::<(u64, PollEntry<P, S>)>::empty(),
    {
        let r = MultiplexRegistry { entries: Vec::new() };
        assert(keys_of(r@) =~= Seq::<u64>::empty());
        r
    }

    pub fn is_empty(&self) -> (r: bool)
        ensures
            r == (self@.len() == 0),
    {
        self.entries.len() == 0
    }

    /// Where `key` stands, if it is registered.
    fn position(&self, key: u64) -> (r: Option<usize>)
        ensures
            match r {
                Some(i) => i < self@.len() && self@[i as int].0 == key,
                None => !self.registered(key),
            },
    {
        let mut i: usize = 0;
        while i < self.entries.len()
            invariant
                i <= self.entries.len(),
                forall|j: int| 0 <= j < i ==> self.entries@[j].0 != key,
            decreases self.entries.len() - i,
        {
            if self.entries[i].0 == key {
                return Some(i);
            }
            i = i + 1;
        }
        proof {
            if keys_of(self@).contains(key) {
                let j = choose|j: int| 0 <= j < keys_of(self@).len() && keys_of(self@)[j] == key;
                assert(self.entries@[j].0 == key);
            }
        }
        None
    }

    pub fn is_registered(&self, key: u64) -> (r: bool)
        ensures
            r == self.registered(key),
    {
        match self.position(key) {
            Some(i) => {
                assert(keys_of(self@)[i as int] == key);
                true
            },
            None => false,
        }
    }

    /// The registered descriptors, in order of registration.
    pub fn registered_keys(&self) -> (r: Vec<u64>)
        ensures
            r@ == keys_of(self@),
    {
        let mut r: Vec<u64> = Vec::new();
        let mut i: usize = 0;
        while i < self.entries.len()
            invariant
                i <= self.entries.len(),
                r@ == keys_of(self.entries@.take(i as int)),
            decreases self.entries.len() - i,
        {
            r.push(self.entries[i].0);
            i = i + 1;
            assert(r@ =~= keys_of(self.entries@.take(i as int)));
        }
        assert(self.entries@.take(self.entries.len() as int) =~= self.entries@);
        r
    }

    /// Adds an entry under a descriptor that is not registered yet.
    pub fn register(&mut self, key: u64, entry: PollEntry<P, S>) -> (r: Result<(), SimulatorError>)
        requires
            old(self).wf(),
        ensures
            final(self).wf(),
            old(self).registered(key) ==> (r is Err && final(self)@ == old(self)@),
            !old(self).registered(key) ==> (r is Ok && final(self)@ == old(self)@.push(
                (key, entry),
            )),
            r matches Err(e) ==> e is EpollError,
    {
        match self.position(key) {
            Some(i) => {
                assert(keys_of(self@)[i as int] == key);
                let mut m = String::new();
                m.append("descriptor is already registered");
                Err(SimulatorError::EpollError(m))
            },
            None => {
                self.entries.push((key, entry));
                assert(keys_of(self@) =~= keys_of(old(self)@).push(key));
                Ok(())
            },
        }
    }

    /// Takes the entry of a descriptor out of the registry and hands it back.
    pub fn unregister(&mut self, key: u64) -> (r: Result<PollEntry<P, S>, SimulatorError>)
        requires
            old(self).wf(),
        ensures
            final(self).wf(),
            unregistered(old(self)@, final(self)@, key, r),
    {
        match self.position(key) {
            Some(i) => {
                assert(keys_of(old(self)@)[i as int] == key);
                let (_, entry) = self.entries.remove(i);
                proof {
                    assert(keys_of(self@) =~= keys_of(old(self)@).remove(i as int));
                    lemma_remove_keeps_distinct(keys_of(old(self)@), i as int);
                }
                Ok(entry)
            },
            None => {
                let mut m = String::new();
                m.append("descriptor is not registered");
                Err(SimulatorError::EpollError(m))
            },
        }
    }

    /// The stream of a registered stderr entry, for the caller to read from.
    pub fn stderr_stream(&self, key: u64) -> (r: Option<&S>)
        requires
            self.wf(),
        ensures
            match r {
                Some(s) => exists|i: int|
                    0 <= i < self@.len() && self@[i].0 == key && (#[trigger] self@[i].1 matches PollEntry::StdErr(e)
                        && (e.spec_stream() == *s)),
                None => !(exists|i: int|
                    0 <= i < self@.len() && self@[i].0 == key && (#[trigger] self@[i].1 is StdErr)),
            },
    {
        match self.position(key) {
            Some(i) => match &self.entries[i].1 {
                PollEntry::StdErr(e) => Some(e.stream()),
                PollEntry::Process(_) => {
                    proof {
                        assert forall|j: int|
                            0 <= j < self@.len() && self@[j].0 == key implies !(
                            #[trigger] self@[j].1 is StdErr) by {
                            if j != i {
                                assert(keys_of(self@)[j] == keys_of(self@)[i as int]);
                            }
                        }
                    }
                    None
                },
            },
            None => {
                proof {
                    assert forall|j: int|
                        0 <= j < self@.len() && self@[j].0 == key implies !(
                        #[trigger] self@[j].1 is StdErr) by {
                        assert(keys_of(self@)[j] == key);
                    }
                }
                None
            },
        }
    }

    /// Dispatches a ready descriptor. A child's exit notifier asks for the child to be
    /// reaped; a stream absorbs the bytes read from it and asks to be unregistered
    /// once it has reached its end.
    pub fn process_event(&mut self, key: u64, chunk: &[u8], at_eof: bool) -> (r: Result<
        CallbackMessage,
        SimulatorError,
    >)
        requires
            old(self).wf(),
        ensures
            final(self).wf(),
            keys_of(final(self)@) == keys_of(old(self)@),
            !old(self).registered(key) ==> ((r matches Err(e) && e is EpollError) && final(self)@
                == old(self)@),
            forall|i: int|
                0 <= i < old(self)@.len() && old(self)@[i].0 == key ==> match #[trigger] old(
                    self,
                )@[i].1 {
                    PollEntry::Process(_) => r == Ok::<CallbackMessage, SimulatorError>(
                        CallbackMessage::HandleExplicitly(key),
                    ) && final(self)@ == old(self)@,
                    PollEntry::StdErr(e) => (r == Ok::<CallbackMessage, SimulatorError>(
                        if at_eof {
                            CallbackMessage::Unregister(key)
                        } else {
                            CallbackMessage::Nop
                        },
                    )) && (final(self)@[i].1 matches PollEntry::StdErr(f) && (f.output()
                        == e.output() + chunk@ && f.spec_role() == e.spec_role()
                        && f.spec_stream() == e.spec_stream())) && (forall|j: int|
                        0 <= j < old(self)@.len() && j != i ==> final(self)@[j] == old(
                            self,
                        )@[j]),
                },
    {
        match self.position(key) {
            None => {
                assert forall|j: int| 0 <= j < old(self)@.len() implies old(self)@[j].0 != key by {
                    assert(keys_of(old(self)@)[j] == old(self)@[j].0);
                }
                let mut m = String::new();
                m.append("event for a descriptor that is not registered");
                Err(SimulatorError::EpollError(m))
            },
            Some(i) => {
                proof {
                    assert(keys_of(old(self)@)[i as int] == key);
                    assert forall|j: int|
                        0 <= j < old(self)@.len() && old(self)@[j].0 == key implies j == i by {
                        assert(keys_of(old(self)@)[j] == keys_of(old(self)@)[i as int]);
                    }
                }
                let is_process = match &self.entries[i].1 {
                    PollEntry::Process(_) => true,
                    PollEntry::StdErr(_) => false,
                };
                if is_process {
                    return Ok(CallbackMessage::HandleExplicitly(key));
                }
                let (k, entry) = self.entries.remove(i);
                let mut entry = entry;
                match &mut entry {
                    PollEntry::StdErr(e) => e.absorb(chunk),
                    PollEntry::Process(_) => {},
                }
                let ghost updated = (k, entry);
                self.entries.insert(i, (k, entry));
                assert(self@ =~= old(self)@.update(i as int, updated));
                assert(keys_of(self@) =~= keys_of(old(self)@));
                if at_eof {
                    Ok(CallbackMessage::Unregister(key))
                } else {
                    Ok(CallbackMessage::Nop)
                }
            },
        }
    }

    /// Takes every child out of the registry, leaving the streams, so that the caller
    /// can kill them all.
    pub fn drain_processes(&mut self) -> (r: Vec<ProcessEntry<P>>)
        requires
            old(self).wf(),
        ensures
            final(self).wf(),
            r@ == processes_of(old(self)@),
            final(self)@ == streams_of(old(self)@),
            !final(self).has_process(),
    {
        let mut kept: Vec<(u64, PollEntry<P, S>)> = Vec::new();
        let mut taken: Vec<ProcessEntry<P>> = Vec::new();
        let mut old_entries: Vec<(u64, PollEntry<P, S>)> = Vec::new();
        std::mem::swap(&mut old_entries, &mut self.entries);
        let ghost all = old_entries@;
        let mut rest: Vec<(u64, PollEntry<P, S>)> = Vec::new();
        // Walk the entries from the back, so that each can be moved out with `pop`.
        while old_entries.len() > 0
            invariant
                all == old(self)@,
                old_entries@ == all.take(old_entries.len() as int),
                old_entries.len() <= all.len(),
                rest@ == all.subrange(old_entries.len() as int, all.len() as int).reverse(),
            decreases old_entries.len(),
        {
            let e = old_entries.pop().unwrap();
            rest.push(e);
            assert(old_entries@ =~= all.take(old_entries.len() as int));
            assert(rest@ =~= all.subrange(old_entries.len() as int, all.len() as int).reverse());
        }
        assert(rest@ =~= all.reverse());
        let ghost n = all.len();
        while rest.len() > 0
            invariant
                all == old(self)@,
                n == all.len(),
                rest.len() <= n,
                rest@ == all.subrange(n - rest.len(), n as int).reverse(),
                taken@ == processes_of(all.take(n - rest.len())),
                kept@ == streams_of(all.take(n - rest.len())),
            decreases rest.len(),
        {
            let ghost i = n - rest.len();
            assert(all.take(i + 1).drop_last() =~= all.take(i));
            assert(rest@.last() == all[i]);
            let (k, entry) = rest.pop().unwrap();
            match entry {
                PollEntry::Process(p) => taken.push(p),
                PollEntry::StdErr(e) => kept.push((k, PollEntry::StdErr(e))),
            }
            assert(rest@ =~= all.subrange(n - rest.len(), n as int).reverse());
        }
        assert(all.take(n as int) =~= all);
        self.entries = kept;
        proof {
            lemma_streams_of_keys(all);
            lemma_streams_only(all);
        }
        taken
    }
}

/// The change that `unregister(key)` makes and what it returns.
pub open spec fn unregistered<P, S>(
    before: Seq<(u64, PollEntry<P, S>)>,
    after: Seq<(u64, PollEntry<P, S>)>,
    key: u64,
    r: Result<PollEntry<P, S>, SimulatorError>,
) -> bool {
    if keys_of(before).contains(key) {
        exists|i: int|
            0 <= i < before.len() && #[trigger] before[i].0 == key && r == Ok::<
                PollEntry<P, S>,
                SimulatorError,
            >(before[i].1) && after == before.remove(i)
    } else {
        after == before && (r matches Err(e) && e is EpollError)
    }
}

/// A registered descriptor has one place in the registry.
pub proof fn lemma_key_position_unique<P, S>(s: Seq<(u64, PollEntry<P, S>)>, i: int, j: int)
    requires
        keys_of(s).no_duplicates(),
        0 <= i < s.len(),
        0 <= j < s.len(),
        s[i].0 == s[j].0,
    ensures
        i == j,
{
    assert(keys_of(s)[i] == keys_of(s)[j]);
}

proof fn lemma_remove_keeps_distinct(s: Seq<u64>, i: int)
    requires
        s.no_duplicates(),
        0 <= i < s.len(),
    ensures
        s.remove(i).no_duplicates(),
{
    let t = s.remove(i);
    assert forall|a: int, b: int| 0 <= a < t.len() && 0 <= b < t.len() && a != b implies t[a]
        != t[b] by {
        let a2 = if a < i {
            a
        } else {
            a + 1
        };
        let b2 = if b < i {
            b
        } else {
            b + 1
        };
        assert(t[a] == s[a2] && t[b] == s[b2]);
    }
}

proof fn lemma_streams_of_keys<P, S>(s: Seq<(u64, PollEntry<P, S>)>)
    requires
        keys_of(s).no_duplicates(),
    ensures
        keys_of(streams_of(s)).no_duplicates(),
        forall|k: u64| keys_of(streams_of(s)).contains(k) ==> keys_of(s).contains(k),
    decreases s.len(),
{
    if s.len() > 0 {
        let p = s.drop_last();
        assert(keys_of(p) =~= keys_of(s).drop_last());
        assert forall|a: int, b: int| 0 <= a < b < keys_of(p).len() implies keys_of(p)[a] != keys_of(
            p,
        )[b] by {
            assert(keys_of(s)[a] != keys_of(s)[b]);
        }
        lemma_streams_of_keys(p);
        assert forall|k: u64| keys_of(p).contains(k) implies keys_of(s).contains(k) by {
            let j = choose|j: int| 0 <= j < keys_of(p).len() && keys_of(p)[j] == k;
            assert(keys_of(s)[j] == k);
        }
        match s.last().1 {
            PollEntry::Process(_) => {},
            PollEntry::StdErr(_) => {
                let q = streams_of(p);
                assert(keys_of(streams_of(s)) =~= keys_of(q).push(s.last().0));
                assert(!keys_of(q).contains(s.last().0)) by {
                    if keys_of(q).contains(s.last().0) {
                        assert(keys_of(p).contains(s.last().0));
                        let j = choose|j: int| 0 <= j < keys_of(p).len() && keys_of(p)[j] == s.last().0;
                        assert(keys_of(s)[j] == keys_of(s)[s.len() - 1]);
                    }
                }
                assert(keys_of(s)[s.len() - 1] == s.last().0);
            },
        }
    }
}

proof fn lemma_streams_only<P, S>(s: Seq<(u64, PollEntry<P, S>)>)
    ensures
        forall|i: int| 0 <= i < streams_of(s).len() ==> #[trigger] streams_of(s)[i].1 is StdErr,
    decreases s.len(),
{
    if s.len() > 0 {
        lemma_streams_only(s.drop_last());
    }
}

/// Every child that was registered is among those that `drain_processes` hands out.
proof fn lemma_processes_of_complete<P, S>(s: Seq<(u64, PollEntry<P, S>)>, i: int)
    requires
        0 <= i < s.len(),
        s[i].1 is Process,
    ensures
        processes_of(s).contains(s[i].1->Process_0),
    decreases s.len(),
{
    if i == s.len() - 1 {
        assert(processes_of(s).last() == s[i].1->Process_0);
    } else {
        assert(s.drop_last()[i] == s[i]);
        lemma_processes_of_complete(s.drop_last(), i);
        let q = processes_of(s.drop_last());
        let j = choose|j: int| 0 <= j < q.len() && q[j] == s[i].1->Process_0;
        match s.last().1 {
            PollEntry::Process(p) => {
                assert(processes_of(s)[j] == q[j]);
            },
            PollEntry::StdErr(_) => {},
        }
    }
}

/// An entry is handed back at most once: after `unregister(key)` has returned it, the
/// key is no longer registered, so unregistering it again fails, and every other
/// descriptor keeps its entry.
pub proof fn lemma_unregister_returns_once<P, S>(
    before: MultiplexRegistry<P, S>,
    after: MultiplexRegistry<P, S>,
    key: u64,
    e: PollEntry<P, S>,
)
    requires
        before.wf(),
        unregistered(before@, after@, key, Ok(e)),
    ensures
        !after.registered(key),
        forall|r: Result<PollEntry<P, S>, SimulatorError>|
            #![trigger unregistered(after@, after@, key, r)]
            unregistered(after@, after@, key, r) ==> r is Err,
        forall|k: u64| k != key ==> (after.registered(k) <==> before.registered(k)),
{
    let i = choose|i: int|
        0 <= i < before@.len() && #[trigger] before@[i].0 == key && Ok::<
            PollEntry<P, S>,
            SimulatorError,
        >(e) == Ok::<PollEntry<P, S>, SimulatorError>(before@[i].1) && after@ == before@.remove(i);
    let kb = keys_of(before@);
    let ka = keys_of(after@);
    assert(ka =~= kb.remove(i));
    assert(!ka.contains(key)) by {
        if ka.contains(key) {
            let j = choose|j: int| 0 <= j < ka.len() && ka[j] == key;
            if j < i {
                assert(kb[j] == kb[i]);
            } else {
                assert(kb[j + 1] == kb[i]);
            }
        }
    }
    assert forall|k: u64| k != key implies (ka.contains(k) <==> kb.contains(k)) by {
        if ka.contains(k) {
            let j = choose|j: int| 0 <= j < ka.len() && ka[j] == k;
            if j < i {
                assert(kb[j] == k);
            } else {
                assert(kb[j + 1] == k);
            }
        }
        if kb.contains(k) {
            let j = choose|j: int| 0 <= j < kb.len() && kb[j] == k;
            if j < i {
                assert(ka[j] == k);
            } else if j > i {
                assert(ka[j - 1] == k);
            }
        }
    }
}

/// On abort no child stays registered, and every child that was registered is handed
/// out to be killed: of the registered entries, only streams remain
/// (`streams_of`), and each child is among those handed out (`processes_of`), which
/// is what `drain_processes` and `Cohort::abort` promise.
pub proof fn lemma_drain_leaves_no_child<P, S>(entries: Seq<(u64, PollEntry<P, S>)>)
    ensures
        forall|i: int|
            0 <= i < streams_of(entries).len() ==> #[trigger] streams_of(entries)[i].1 is StdErr,
        forall|i: int|
            0 <= i < entries.len() && (#[trigger] entries[i].1 is Process) ==> processes_of(
                entries,
            ).contains(entries[i].1->Process_0),
{
    lemma_streams_only(entries);
    assert forall|i: int|
        0 <= i < entries.len() && (#[trigger] entries[i].1 is Process) implies processes_of(
        entries,
    ).contains(entries[i].1->Process_0) by {
        lemma_processes_of_complete(entries, i);
    }
}

} // verus!
