//! The session coordinator, as a state machine: it is told what happened
//! (the session started, the tunnel was acquired or not, a unit finished) and
//! answers with what to do next. Whoever runs the units performs the action.
use vstd::prelude::*;

verus! {

/// The four concurrent units of a session.
#[derive(Clone, Copy, Debug, PartialEq, Eq, Structural)]
pub enum Unit {
    Listener,
    Ingestion,
    Tunnel,
    Registrar,
}

/// Where one unit is in its life.
#[derive(Clone, Copy, Debug, PartialEq, Eq, Structural)]
pub enum UnitState {
    NotStarted,
    Running,
    Finished,
}

/// Where the session as a whole is.
#[derive(Clone, Copy, Debug, PartialEq, Eq, Structural)]
pub enum Phase {
    /// Nothing has been started yet.
    Idle,
    /// The listener and the ingestion server run; the tunnel is being acquired.
    Acquiring,
    /// All four units have been started; their outcomes are being collected.
    Joining,
    /// The session result has been handed out.
    Done,
}

/// Why a session failed.
#[derive(Debug, PartialEq, Eq)]
pub enum TailError {
    /// A prerequisite of the tunnel could not be obtained.
    Acquisition(String),
    /// A collaborator ended with a failure.
    Collaborator(Unit, String),
    /// The interrupt subscription itself failed.
    Listener(String),
}

/// What the coordinator is told.
#[derive(Debug, PartialEq, Eq)]
pub enum Event {
    /// Begin the session.
    Start,
    /// The tunnel resource was acquired, or could not be.
    TunnelAcquired(Result<(), TailError>),
    /// A unit returned, with its outcome.
    Finished(Unit, Result<(), TailError>),
}

/// What the coordinator asks for in answer.
#[derive(Debug, PartialEq, Eq)]
pub enum Action {
    /// Create the three signal pairs, spawn the listener with every producer
    /// and the ingestion server with its consumer, then acquire the tunnel.
    Launch,
    /// Spawn the tunnel and the registrar, each with its consumer.
    SpawnTunnelAndRegistrar,
    /// Every collaborator has finished and no interrupt came: stop waiting
    /// for one, so that the listener finishes too.
    StopListener,
    /// Nothing to do: wait for the next unit to finish.
    Wait,
    /// The session is over: return this result.
    Return(Result<(), TailError>),
}

/// The coordinator's state as the contracts see it.
pub struct TailView {
    pub phase: Phase,
    pub listener: UnitState,
    pub ingestion: UnitState,
    pub tunnel: UnitState,
    pub registrar: UnitState,
    /// The first failure observed, not yet handed out.
    pub error: Option<TailError>,
}

impl TailView {
    pub open spec fn state(self, u: Unit) -> UnitState {
        match u {
            Unit::Listener => self.listener,
            Unit::Ingestion => self.ingestion,
            Unit::Tunnel => self.tunnel,
            Unit::Registrar => self.registrar,
        }
    }

    pub open spec fn with_state(self, u: Unit, s: UnitState) -> TailView {
        match u {
            Unit::Listener => TailView { listener: s, ..self },
            Unit::Ingestion => TailView { ingestion: s, ..self },
            Unit::Tunnel => TailView { tunnel: s, ..self },
            Unit::Registrar => TailView { registrar: s, ..self },
        }
    }

    /// No unit that was started is still running.
    pub open spec fn settled(self) -> bool {
        forall|u: Unit| self.state(u) != UnitState::Running
    }

    /// The ingestion server, the tunnel and the registrar have all finished.
    pub open spec fn collaborators_done(self) -> bool {
        &&& self.ingestion == UnitState::Finished
        &&& self.tunnel == UnitState::Finished
        &&& self.registrar == UnitState::Finished
    }

    /// The units that have been started are exactly those the phase allows.
    pub open spec fn wf(self) -> bool {
        match self.phase {
            Phase::Idle => {
                &&& forall|u: Unit| self.state(u) == UnitState::NotStarted
                &&& self.error is None
            },
            Phase::Acquiring => {
                &&& self.listener != UnitState::NotStarted
                &&& self.ingestion != UnitState::NotStarted
                &&& self.tunnel == UnitState::NotStarted
                &&& self.registrar == UnitState::NotStarted
            },
            Phase::Joining => forall|u: Unit| self.state(u) != UnitState::NotStarted,
            Phase::Done => self.error is None,
        }
    }
}

/// The session result for a recorded first failure, if any.
pub open spec fn outcome(error: Option<TailError>) -> Result<(), TailError> {
    match error {
        None => Ok(()),
        Some(e) => Err(e),
    }
}

/// Keeps the failure already recorded; records `r`'s only when there is none.
pub open spec fn keep_first(error: Option<TailError>, r: Result<(), TailError>) -> Option<TailError> {
    match error {
        Some(e) => Some(e),
        None => match r {
            Ok(_) => None,
            Err(e) => Some(e),
        },
    }
}

/// The initial state: nothing started, nothing failed.
pub open spec fn initial() -> TailView {
    TailView {
        phase: Phase::Idle,
        listener: UnitState::NotStarted,
        ingestion: UnitState::NotStarted,
        tunnel: UnitState::NotStarted,
        registrar: UnitState::NotStarted,
        error: None,
    }
}

/// The unit `u` finished with `r`: once every started unit has finished, and
/// the tunnel was acquired, the session returns its first failure or success.
/// When the collaborators are all done while the listener still waits for an
/// interrupt, the listener is asked to stop.
pub open spec fn on_finished(v: TailView, u: Unit, r: Result<(), TailError>) -> (TailView, Action) {
    let w = TailView { error: keep_first(v.error, r), ..v.with_state(u, UnitState::Finished) };
    if w.phase == Phase::Joining && w.settled() {
        (TailView { phase: Phase::Done, error: None, ..w }, Action::Return(outcome(w.error)))
    } else if w.phase == Phase::Joining && w.collaborators_done() && w.listener == UnitState::Running {
        (w, Action::StopListener)
    } else {
        (w, Action::Wait)
    }
}

/// The coordinator's answer to `e` in state `v`, and its next state. An event
/// that does not fit the state changes nothing and asks for nothing.
pub open spec fn next(v: TailView, e: Event) -> (TailView, Action) {
    match e {
        Event::Start => if v.phase == Phase::Idle {
            (
                TailView {
                    phase: Phase::Acquiring,
                    listener: UnitState::Running,
                    ingestion: UnitState::Running,
                    ..v
                },
                Action::Launch,
            )
        } else {
            (v, Action::Wait)
        },
        Event::TunnelAcquired(r) => if v.phase == Phase::Acquiring {
            match r {
                Ok(_) => (
                    TailView {
                        phase: Phase::Joining,
                        tunnel: UnitState::Running,
                        registrar: UnitState::Running,
                        ..v
                    },
                    Action::SpawnTunnelAndRegistrar,
                ),
                Err(e) => (TailView { phase: Phase::Done, error: None, ..v }, Action::Return(Err(e))),
            }
        } else {
            (v, Action::Wait)
        },
        Event::Finished(u, r) => if (v.phase == Phase::Acquiring || v.phase == Phase::Joining)
            && v.state(u) == UnitState::Running {
            on_finished(v, u, r)
        } else {
            (v, Action::Wait)
        },
    }
}

/// Every transition keeps the coordinator well formed.
pub proof fn lemma_next_wf(v: TailView, e: Event)
    requires
        v.wf(),
    ensures
        next(v, e).0.wf(),
{
    if v.phase == Phase::Idle {
        assert(v.state(Unit::Tunnel) == UnitState::NotStarted);
        assert(v.state(Unit::Registrar) == UnitState::NotStarted);
    }
    if let Event::Finished(u, r) = e {
        let w = next(v, e).0;
        if v.phase == Phase::Joining && v.state(u) == UnitState::Running {
            assert forall|x: Unit| w.state(x) != UnitState::NotStarted by {
                assert(v.state(x) != UnitState::NotStarted);
            }
        }
    }
}

/// The session returns only once every unit it started has finished. The one
/// exception is a failed tunnel acquisition, which returns at once and leaves
/// the listener and the ingestion server behind.
pub proof fn lemma_join_completeness(v: TailView, e: Event)
    requires
        v.wf(),
    ensures
        next(v, e).1 is Return ==> {
            ||| (v.phase == Phase::Acquiring && e matches Event::TunnelAcquired(Err(_)))
            ||| forall|u: Unit| #[trigger] next(v, e).0.state(u) == UnitState::Finished
        },
        (v.phase == Phase::Joining && e is Finished && v.state(e->Finished_0)
            == UnitState::Running) ==> (next(v, e).1 is Return <==> forall|x: Unit| x
            != e->Finished_0 ==> v.state(x) != UnitState::Running),
{
    if let Event::Finished(u, r) = e {
        if v.phase == Phase::Joining && v.state(u) == UnitState::Running {
            let w = TailView { error: keep_first(v.error, r), ..v.with_state(u, UnitState::Finished) };
            assert forall|x: Unit| x != u implies w.state(x) == v.state(x) by {}
            assert(w.state(u) == UnitState::Finished);
            assert forall|x: Unit| #[trigger] w.state(x) != UnitState::NotStarted by {
                assert(v.state(x) != UnitState::NotStarted);
            }
            let z = next(v, e).0;
            if next(v, e).1 is Return {
                assert(w.settled());
                assert forall|x: Unit| #[trigger] z.state(x) == UnitState::Finished by {
                    assert(w.state(x) != UnitState::NotStarted);
                    assert(w.state(x) != UnitState::Running);
                    assert(z.state(x) == w.state(x));
                }
            }
        }
    }
}

/// The coordinator's answers to a run of unit completions, in the order
/// they arrive, and its state after them.
pub open spec fn finish_all(v: TailView, outs: Seq<(Unit, Result<(), TailError>)>) -> (TailView, Seq<Action>)
    decreases outs.len(),
{
    if outs.len() == 0 {
        (v, Seq::empty())
    } else {
        let (w, a) = next(v, Event::Finished(outs[0].0, outs[0].1));
        let (z, rest) = finish_all(w, outs.drop_first());
        (z, seq![a] + rest)
    }
}

/// The earliest failure among outcomes, in the order they arrive.
pub open spec fn first_failure(outs: Seq<(Unit, Result<(), TailError>)>) -> Option<TailError>
    decreases outs.len(),
{
    if outs.len() == 0 {
        None
    } else {
        match outs[0].1 {
            Err(e) => Some(e),
            Ok(_) => first_failure(outs.drop_first()),
        }
    }
}

/// The failure observed first wins. Once all units run, let each running
/// unit finish once, in any order: the coordinator waits until the last of
/// them (asking at most to stop the listener on the way), and then returns
/// the failure it had already recorded, or else the earliest failure among
/// the completions, or success if there was none.
pub proof fn lemma_first_error_wins(v: TailView, outs: Seq<(Unit, Result<(), TailError>)>)
    requires
        v.wf(),
        v.phase == Phase::Joining,
        outs.len() > 0,
        forall|i: int, j: int| 0 <= i < j < outs.len() ==> outs[i].0 != outs[j].0,
        forall|u: Unit| v.state(u) == UnitState::Running <==> exists|i: int| 0 <= i < outs.len() && (#[trigger] outs[i]).0 == u,
    ensures
        finish_all(v, outs).1.len() == outs.len(),
        forall|i: int| 0 <= i < outs.len() - 1 ==> {
            ||| finish_all(v, outs).1[i] == Action::Wait
            ||| finish_all(v, outs).1[i] == Action::StopListener
        },
        finish_all(v, outs).1.last() == Action::Return(outcome(keep_first_error(v.error, outs))),
        finish_all(v, outs).0.phase == Phase::Done,
    decreases outs.len(),
{
    let u0 = outs[0].0;
    let r0 = outs[0].1;
    assert(v.state(u0) == UnitState::Running) by {
        assert(exists|i: int| 0 <= i < outs.len() && (#[trigger] outs[i]).0 == u0);
    }
    let w = TailView { error: keep_first(v.error, r0), ..v.with_state(u0, UnitState::Finished) };
    assert forall|x: Unit| x != u0 implies w.state(x) == v.state(x) by {}
    assert(w.state(u0) == UnitState::Finished);
    lemma_next_wf(v, Event::Finished(u0, r0));
    let rest = outs.drop_first();
    if outs.len() == 1 {
        assert forall|x: Unit| #[trigger] w.state(x) != UnitState::Running by {
            if x != u0 && v.state(x) == UnitState::Running {
                let i = choose|i: int| 0 <= i < outs.len() && (#[trigger] outs[i]).0 == x;
                assert(i == 0);
            }
        }
        assert(w.settled());
        let a = Action::Return(outcome(w.error));
        let z = next(v, Event::Finished(u0, r0)).0;
        assert(next(v, Event::Finished(u0, r0)).1 == a);
        assert(z.phase == Phase::Done);
        assert(rest.len() == 0);
        assert(finish_all(z, rest) == (z, Seq::<Action>::empty()));
        assert(finish_all(v, outs).1 =~= seq![a]);
        assert(first_failure(rest) is None);
        assert(keep_first_error(v.error, outs) == w.error);
    } else {
        assert(w.state(outs[1].0) == UnitState::Running) by {
            assert(outs[1].0 != u0);
            assert(exists|i: int| 0 <= i < outs.len() && (#[trigger] outs[i]).0 == outs[1].0);
        }
        assert(!w.settled());
        let a0 = next(v, Event::Finished(u0, r0)).1;
        assert(next(v, Event::Finished(u0, r0)).0 == w);
        assert(a0 == Action::Wait || a0 == Action::StopListener);
        assert forall|x: Unit| w.state(x) == UnitState::Running <==> exists|i: int|
            0 <= i < rest.len() && (#[trigger] rest[i]).0 == x by {
            if w.state(x) == UnitState::Running {
                let i = choose|i: int| 0 <= i < outs.len() && (#[trigger] outs[i]).0 == x;
                assert(i != 0);
                assert(rest[i - 1].0 == x);
            }
            if exists|i: int| 0 <= i < rest.len() && (#[trigger] rest[i]).0 == x {
                let i = choose|i: int| 0 <= i < rest.len() && (#[trigger] rest[i]).0 == x;
                assert(outs[i + 1].0 == x);
                assert(x != u0);
            }
        }
        lemma_first_error_wins(w, rest);
        assert(keep_first_error(w.error, rest) == keep_first_error(v.error, outs));
        let acts = finish_all(v, outs).1;
        let racts = finish_all(w, rest).1;
        assert(acts == seq![a0] + racts);
        assert forall|i: int| 0 <= i < outs.len() - 1 implies acts[i] == Action::Wait || acts[i]
            == Action::StopListener by {
            if i > 0 {
                assert(acts[i] == racts[i - 1]);
            }
        }
    }
}

/// The failure a session ends with: one already recorded, or else the
/// earliest among the completions still to come.
pub open spec fn keep_first_error(error: Option<TailError>, outs: Seq<(Unit, Result<(), TailError>)>) -> Option<TailError> {
    match error {
        Some(e) => Some(e),
        None => first_failure(outs),
    }
}

/// A session that no interrupt ends still ends: when the last collaborator
/// finishes while the listener waits, the coordinator asks to stop the
/// listener, and once the listener reports back it returns the session's
/// first failure, or success.
pub proof fn lemma_natural_completion(v: TailView, u: Unit, r: Result<(), TailError>)
    requires
        v.wf(),
        v.phase == Phase::Joining,
        v.listener == UnitState::Running,
        u != Unit::Listener,
        v.state(u) == UnitState::Running,
        forall|x: Unit| x != u && x != Unit::Listener ==> v.state(x) == UnitState::Finished,
    ensures
        next(v, Event::Finished(u, r)).1 == Action::StopListener,
        next(next(v, Event::Finished(u, r)).0, Event::Finished(Unit::Listener, Ok(()))).1
            == Action::Return(outcome(keep_first(v.error, r))),
{
    let w = TailView { error: keep_first(v.error, r), ..v.with_state(u, UnitState::Finished) };
    assert(v.state(Unit::Ingestion) == UnitState::Finished || u == Unit::Ingestion);
    assert(v.state(Unit::Tunnel) == UnitState::Finished || u == Unit::Tunnel);
    assert(v.state(Unit::Registrar) == UnitState::Finished || u == Unit::Registrar);
    assert(w.collaborators_done());
    assert(w.state(Unit::Listener) == UnitState::Running);
    assert(!w.settled());
    assert(next(v, Event::Finished(u, r)) == (w, Action::StopListener));
    let z = TailView { error: keep_first(w.error, Ok(())), ..w.with_state(Unit::Listener, UnitState::Finished) };
    assert(z.listener == UnitState::Finished);
    assert forall|x: Unit| #[trigger] z.state(x) != UnitState::Running by {}
    assert(z.settled());
    assert(z.error == keep_first(v.error, r));
}

/// The coordinator of one tail session.
pub struct Tail {
    phase: Phase,
    listener: UnitState,
    ingestion: UnitState,
    tunnel: UnitState,
    registrar: UnitState,
    error: Option<TailError>,
}

impl View for Tail {
    type V = TailView;

    closed spec fn view(&self) -> TailView {
        TailView {
            phase: self.phase,
            listener: self.listener,
            ingestion: self.ingestion,
            tunnel: self.tunnel,
            registrar: self.registrar,
            error: self.error,
        }
    }
}

/// The first failure seen wins: an `Err` is recorded only when none is yet.
fn record(error: &mut Option<TailError>, r: Result<(), TailError>)
    ensures
        *final(error) == keep_first(*old(error), r),
{
    if error.is_none() {
        match r {
            Ok(()) => {},
            Err(e) => {
                *error = Some(e);
            },
        }
    }
}

impl Tail {
    pub open spec fn wf(&self) -> bool {
        self@.wf()
    }

    /// A coordinator that has started nothing.
    pub fn new() -> (r: Tail)
        ensures
            r.wf(),
            r@ == initial(),
    {
        Tail {
            phase: Phase::Idle,
            listener: UnitState::NotStarted,
            ingestion: UnitState::NotStarted,
            tunnel: UnitState::NotStarted,
            registrar: UnitState::NotStarted,
            error: None,
        }
    }

    pub fn phase(&self) -> (r: Phase)
        ensures
            r == self@.phase,
    {
        self.phase
    }

    pub fn state(&self, u: Unit) -> (r: UnitState)
        ensures
            r == self@.state(u),
    {
        match u {
            Unit::Listener => self.listener,
            Unit::Ingestion => self.ingestion,
            Unit::Tunnel => self.tunnel,
            Unit::Registrar => self.registrar,
        }
    }

    fn set_state(&mut self, u: Unit, s: UnitState)
        ensures
            final(self)@ == old(self)@.with_state(u, s),
    {
        match u {
            Unit::Listener => self.listener = s,
            Unit::Ingestion => self.ingestion = s,
            Unit::Tunnel => self.tunnel = s,
            Unit::Registrar => self.registrar = s,
        }
    }

    fn settled(&self) -> (r: bool)
        ensures
            r == self@.settled(),
    {
        let r = self.listener != UnitState::Running && self.ingestion != UnitState::Running
            && self.tunnel != UnitState::Running && self.registrar != UnitState::Running;
        proof {
            if !r {
                let v = self@;
                if self.listener == UnitState::Running {
                    assert(v.state(Unit::Listener) == UnitState::Running);
                } else if self.ingestion == UnitState::Running {
                    assert(v.state(Unit::Ingestion) == UnitState::Running);
                } else if self.tunnel == UnitState::Running {
                    assert(v.state(Unit::Tunnel) == UnitState::Running);
                } else {
                    assert(v.state(Unit::Registrar) == UnitState::Running);
                }
            }
        }
        r
    }

    /// Answers one event: the action to perform, and the coordinator's new
    /// state, are those `next` gives.
    pub fn handle(&mut self, e: Event) -> (r: Action)
        requires
            old(self).wf(),
        ensures
            final(self).wf(),
            (final(self)@, r) == next(old(self)@, e),
    {
        proof {
            lemma_next_wf(old(self)@, e);
        }
        match e {
            Event::Start => {
                if self.phase != Phase::Idle {
                    return Action::Wait;
                }
                self.phase = Phase::Acquiring;
                self.listener = UnitState::Running;
                self.ingestion = UnitState::Running;
                Action::Launch
            },
            Event::TunnelAcquired(r) => {
                if self.phase != Phase::Acquiring {
                    return Action::Wait;
                }
                match r {
                    Ok(()) => {
                        self.phase = Phase::Joining;
                        self.tunnel = UnitState::Running;
                        self.registrar = UnitState::Running;
                        Action::SpawnTunnelAndRegistrar
                    },
                    Err(err) => {
                        self.phase = Phase::Done;
                        self.error = None;
                        Action::Return(Err(err))
                    },
                }
            },
            Event::Finished(u, r) => {
                if !(self.phase == Phase::Acquiring || self.phase == Phase::Joining) || self.state(u)
                    != UnitState::Running {
                    return Action::Wait;
                }
                self.set_state(u, UnitState::Finished);
                record(&mut self.error, r);
                if self.phase == Phase::Joining && self.settled() {
                    self.phase = Phase::Done;
                    let result = match self.error.take() {
                        None => Ok(()),
                        Some(err) => Err(err),
                    };
                    return Action::Return(result);
                }
                if self.phase == Phase::Joining && self.listener == UnitState::Running
                    && self.ingestion == UnitState::Finished && self.tunnel == UnitState::Finished
                    && self.registrar == UnitState::Finished {
                    return Action::StopListener;
                }
                Action::Wait
            },
        }
    }
}

} // verus!
