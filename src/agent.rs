//! The agent lifecycle state machine.
//!
//! An agent is configured while `Idle` and then activated into `Started`,
//! where the runtime drives it: it reports each completed piece of outside
//! work as an `Event`, and the agent answers with the next `Action`. The
//! runtime performs actions (runs a hook, takes an envelope, runs a reactor,
//! stops the children) and nothing else; every decision is made here.
use crate::id::AgentId;
use crate::message::{InternalMessage, OutboundEnvelope, Payload};
use crate::reactor::{route_spec, ReactorMap, Route};
use crate::slot_map::{entries_exactly, SlotMap};
use vstd::prelude::*;

verus! {

/// Marker for an agent that is still being configured.
#[derive(Debug, Clone, Copy, PartialEq, Eq, Structural)]
pub struct Idle;

/// Marker for an agent whose drain loop has been scheduled.
#[derive(Debug, Clone, Copy, PartialEq, Eq, Structural)]
pub struct Started;

/// Where a started agent stands in its run.
#[derive(Debug, Clone, Copy, PartialEq, Eq, Structural)]
pub enum Stage {
    /// `before_start` is running.
    BeforeStart,
    /// `after_start` is running.
    AfterStart,
    /// Waiting for the next envelope.
    Draining,
    /// A reactor is running.
    Reacting,
    /// `Terminate` arrived; `before_stop` is running.
    BeforeStop,
    /// The mailbox is closed and the children are being stopped.
    Terminating,
    /// `after_stop` is running.
    AfterStop,
    /// The run is over.
    Stopped,
}

/// The four lifecycle hooks.
#[derive(Debug, Clone, Copy, PartialEq, Eq, Structural)]
pub enum Hook {
    BeforeStart,
    AfterStart,
    BeforeStop,
    AfterStop,
}

/// Outside work that has completed.
#[derive(Debug, Clone, Copy, PartialEq, Eq, Structural)]
pub enum Event {
    /// The hook last asked for has returned.
    HookDone,
    /// An envelope was taken from the mailbox; this is where it goes.
    Delivered(Route),
    /// The reactor last asked for has returned.
    ReactorDone,
    /// Every child asked to stop has stopped, or was given up on.
    ChildrenStopped,
}

/// The next piece of outside work.
#[derive(Debug, Clone, Copy, PartialEq, Eq, Structural)]
pub enum Action {
    /// Run this hook and report `HookDone`.
    RunHook(Hook),
    /// Take the next envelope and report `Delivered`.
    Receive,
    /// Run the reactor in this slot on the envelope and report `ReactorDone`.
    Invoke(u64),
    /// Drop the envelope and take the next one.
    Discard,
    /// Apply this subscription change (the broker does) and take the next envelope.
    Control(InternalMessage),
    /// Hand the request on to every subscriber of this type (the broker does)
    /// and take the next envelope.
    Publish(u64),
    /// Close the mailbox, stop every child, and report `ChildrenStopped`.
    Shutdown,
    /// The run is over: the drain task ends.
    Finish,
    /// The event does not belong to the current stage; nothing changes.
    Ignore,
}

/// One transition: the next stage and the action to perform.
pub open spec fn step_spec(s: Stage, e: Event) -> (Stage, Action) {
    match (s, e) {
        (Stage::BeforeStart, Event::HookDone) => (Stage::AfterStart, Action::RunHook(Hook::AfterStart)),
        (Stage::AfterStart, Event::HookDone) => (Stage::Draining, Action::Receive),
        (Stage::Draining, Event::Delivered(route)) => match route {
            Route::Reactor(slot) => (Stage::Reacting, Action::Invoke(slot)),
            Route::Terminate => (Stage::BeforeStop, Action::RunHook(Hook::BeforeStop)),
            Route::Control(msg) => (Stage::Draining, Action::Control(msg)),
            Route::Publish(t) => (Stage::Draining, Action::Publish(t)),
            Route::Unhandled => (Stage::Draining, Action::Discard),
        },
        (Stage::Reacting, Event::ReactorDone) => (Stage::Draining, Action::Receive),
        (Stage::BeforeStop, Event::HookDone) => (Stage::Terminating, Action::Shutdown),
        (Stage::Terminating, Event::ChildrenStopped) => (Stage::AfterStop, Action::RunHook(Hook::AfterStop)),
        (Stage::AfterStop, Event::HookDone) => (Stage::Stopped, Action::Finish),
        _ => (s, Action::Ignore),
    }
}

/// How far a run has progressed; draining and reacting share a rank.
pub open spec fn rank(s: Stage) -> int {
    match s {
        Stage::BeforeStart => 0,
        Stage::AfterStart => 1,
        Stage::Draining => 2,
        Stage::Reacting => 2,
        Stage::BeforeStop => 3,
        Stage::Terminating => 4,
        Stage::AfterStop => 5,
        Stage::Stopped => 6,
    }
}

/// The stage after the events `es`, from stage `s`.
#[verifier::opaque]
pub open spec fn stage_after(s: Stage, es: Seq<Event>) -> Stage
    decreases es.len(),
{
    if es.len() == 0 {
        s
    } else {
        step_spec(stage_after(s, es.drop_last()), es.last()).0
    }
}

/// The stage in which the `k`-th event of `es` arrives, from stage `s`.
pub open spec fn stage_at(s: Stage, es: Seq<Event>, k: int) -> Stage {
    stage_after(s, es.subrange(0, k))
}

/// The action answered to the `k`-th event of `es`, from stage `s`.
pub open spec fn action_at(s: Stage, es: Seq<Event>, k: int) -> Action {
    step_spec(stage_at(s, es, k), es[k]).1
}

proof fn lemma_stage_at_next(s: Stage, es: Seq<Event>, k: int)
    requires
        0 <= k < es.len(),
    ensures
        stage_at(s, es, k + 1) == step_spec(stage_at(s, es, k), es[k]).0,
{
    reveal(stage_after);
    assert(es.subrange(0, k + 1).drop_last() =~= es.subrange(0, k));
}

proof fn lemma_stage_at_start(s: Stage, es: Seq<Event>)
    ensures
        stage_at(s, es, 0) == s,
{
    reveal(stage_after);
    assert(es.subrange(0, 0) =~= Seq::<Event>::empty());
}

proof fn lemma_rank_step(s: Stage, e: Event)
    ensures
        rank(step_spec(s, e).0) == rank(s) || rank(step_spec(s, e).0) == rank(s) + 1,
{
}

/// A run that reaches rank `r` crossed into it at some event.
proof fn lemma_crossing(s: Stage, es: Seq<Event>, k: int, r: int)
    requires
        0 <= k <= es.len(),
        rank(s) < r <= rank(stage_at(s, es, k)),
    ensures
        exists|j: int|
            0 <= j < k && rank(#[trigger] stage_at(s, es, j)) == r - 1 && rank(
                stage_at(s, es, j + 1),
            ) == r,
    decreases k,
{
    lemma_stage_at_start(s, es);
    if k > 0 {
        lemma_stage_at_next(s, es, k - 1);
        lemma_rank_step(stage_at(s, es, k - 1), es[k - 1]);
        if rank(stage_at(s, es, k - 1)) >= r {
            lemma_crossing(s, es, k - 1, r);
        } else {
            assert(rank(stage_at(s, es, k - 1)) == r - 1);
        }
    }
}

/// Hook ordering, first part: from activation, no reactor is invoked before
/// `after_start` has returned.
pub proof fn lemma_after_start_before_reactors(es: Seq<Event>, k: int)
    requires
        0 <= k < es.len(),
        action_at(Stage::BeforeStart, es, k) is Invoke,
    ensures
        exists|j: int|
            0 <= j < k && #[trigger] stage_at(Stage::BeforeStart, es, j) == Stage::AfterStart
                && es[j] == Event::HookDone,
{
    let s = Stage::BeforeStart;
    lemma_stage_at_start(s, es);
    lemma_crossing(s, es, k, 2);
    let j = choose|j: int|
        0 <= j < k && rank(#[trigger] stage_at(s, es, j)) == 1 && rank(stage_at(s, es, j + 1))
            == 2;
    lemma_stage_at_next(s, es, j);
}

/// Hook ordering, second part: the mailbox is closed only once `before_stop`
/// has been asked for and has returned.
pub proof fn lemma_before_stop_before_close(s: Stage, es: Seq<Event>, k: int)
    requires
        0 <= k < es.len(),
        rank(s) <= 2,
        action_at(s, es, k) == Action::Shutdown,
    ensures
        stage_at(s, es, k) == Stage::BeforeStop,
        es[k] == Event::HookDone,
        exists|j: int| 0 <= j < k && #[trigger] action_at(s, es, j) == Action::RunHook(Hook::BeforeStop),
{
    lemma_crossing(s, es, k, 3);
    let j = choose|j: int|
        0 <= j < k && rank(#[trigger] stage_at(s, es, j)) == 2 && rank(stage_at(s, es, j + 1))
            == 3;
    lemma_stage_at_next(s, es, j);
    assert(action_at(s, es, j) == Action::RunHook(Hook::BeforeStop));
}

/// Hook ordering, third part: `after_stop` is asked for only once the
/// children have stopped, that is once `terminate` has returned.
pub proof fn lemma_after_stop_after_terminate(s: Stage, es: Seq<Event>, k: int)
    requires
        0 <= k < es.len(),
        action_at(s, es, k) == Action::RunHook(Hook::AfterStop),
    ensures
        stage_at(s, es, k) == Stage::Terminating,
        es[k] == Event::ChildrenStopped,
{
}

/// The drain task ends only after its children were stopped: `Finish` comes
/// after a `ChildrenStopped` report in the terminating stage.
pub proof fn lemma_children_stopped_before_finish(s: Stage, es: Seq<Event>, k: int)
    requires
        0 <= k < es.len(),
        rank(s) <= 4,
        action_at(s, es, k) == Action::Finish,
    ensures
        exists|j: int|
            0 <= j < k && #[trigger] stage_at(s, es, j) == Stage::Terminating && es[j]
                == Event::ChildrenStopped,
{
    lemma_crossing(s, es, k, 5);
    let j = choose|j: int|
        0 <= j < k && rank(#[trigger] stage_at(s, es, j)) == 4 && rank(stage_at(s, es, j + 1))
            == 5;
    lemma_stage_at_next(s, es, j);
}

proof fn lemma_stays_reacting(s: Stage, es: Seq<Event>, i: int, m: int)
    requires
        0 <= i < m <= es.len(),
        stage_at(s, es, i + 1) == Stage::Reacting,
        forall|j: int|
            i < j < m ==> !(#[trigger] stage_at(s, es, j) == Stage::Reacting && es[j]
                == Event::ReactorDone),
    ensures
        stage_at(s, es, m) == Stage::Reacting,
    decreases m - i,
{
    if m > i + 1 {
        lemma_stays_reacting(s, es, i, m - 1);
        lemma_stage_at_next(s, es, m - 1);
    }
}

/// One reactor at a time: between two invocations the first reactor has
/// reported completion, so no two reactors ever run together.
pub proof fn lemma_one_reactor_at_a_time(s: Stage, es: Seq<Event>, i: int, k: int)
    requires
        0 <= i < k < es.len(),
        action_at(s, es, i) is Invoke,
        action_at(s, es, k) is Invoke,
    ensures
        exists|j: int|
            i < j < k && #[trigger] stage_at(s, es, j) == Stage::Reacting && es[j]
                == Event::ReactorDone,
{
    lemma_stage_at_next(s, es, i);
    if !exists|j: int|
        i < j < k && #[trigger] stage_at(s, es, j) == Stage::Reacting && es[j]
            == Event::ReactorDone {
        lemma_stays_reacting(s, es, i, k);
    }
}

/// A name for the state of an agent, apart from its phase marker.
pub struct AgentView {
    pub key: u64,
    pub id: Seq<Seq<char>>,
    pub parent: Option<u64>,
    pub broker: Option<u64>,
    pub reactors: Map<u64, u64>,
    pub children: Map<u64, u64>,
    pub stage: Stage,
    pub terminate_requested: bool,
}

/// An agent: its identity, reactors, children and, once started, its stage.
pub struct ManagedAgent<P> {
    key: u64,
    id: AgentId,
    parent: Option<u64>,
    broker: Option<u64>,
    reactors: ReactorMap,
    children: SlotMap,
    stage: Stage,
    terminate_requested: bool,
    phase: P,
}

impl<P> View for ManagedAgent<P> {
    type V = AgentView;

    closed spec fn view(&self) -> AgentView {
        AgentView {
            key: self.key,
            id: self.id@,
            parent: self.parent,
            broker: self.broker,
            reactors: self.reactors@,
            children: self.children@,
            stage: self.stage,
            terminate_requested: self.terminate_requested,
        }
    }
}

impl<P> ManagedAgent<P> {
    pub closed spec fn wf(&self) -> bool {
        &&& self.id.wf()
        &&& self.reactors.wf()
        &&& self.children.wf()
        &&& self.terminate_requested == (rank(self.stage) >= 3)
    }

    pub fn key(&self) -> (r: u64)
        ensures
            r == self@.key,
    {
        self.key
    }

    pub fn id(&self) -> (r: &AgentId)
        ensures
            r@ == self@.id,
            self.wf() ==> r.wf(),
    {
        &self.id
    }

    pub fn broker(&self) -> (r: Option<u64>)
        ensures
            r == self@.broker,
    {
        self.broker
    }

    pub fn parent(&self) -> (r: Option<u64>)
        ensures
            r == self@.parent,
    {
        self.parent
    }

    /// Records a child whose handle the runtime keeps in `slot`.
    pub fn add_child(&mut self, child: u64, slot: u64)
        requires
            old(self).wf(),
        ensures
            final(self).wf(),
            final(self)@ == (AgentView { children: old(self)@.children.insert(child, slot), ..old(self)@ }),
    {
        self.children.insert(child, slot);
    }

    /// Forgets a child whose run is over; returns its slot if it was a child.
    pub fn remove_child(&mut self, child: u64) -> (r: Option<u64>)
        requires
            old(self).wf(),
        ensures
            final(self).wf(),
            final(self)@ == (AgentView { children: old(self)@.children.remove(child), ..old(self)@ }),
            r == (if old(self)@.children.contains_key(child) {
                Some(old(self)@.children[child])
            } else {
                None
            }),
    {
        self.children.remove(child)
    }

    /// Each child and the slot of its handle, once each.
    pub fn children(&self) -> (r: Vec<(u64, u64)>)
        ensures
            entries_exactly(r@, self@.children),
    {
        self.children.entries()
    }

    /// Where `payload` goes under this agent's reactors.
    pub fn route<B>(&self, payload: &Payload<B>) -> (r: Route)
        ensures
            r == route_spec(self@.reactors, *payload),
    {
        self.reactors.route(payload)
    }

    /// The agent's own return address.
    pub fn new_envelope(&self) -> (r: Option<OutboundEnvelope>)
        ensures
            r == Some(OutboundEnvelope { sender: self@.key, reply_to: Some(self@.key) }),
    {
        Some(OutboundEnvelope::new(Some(self.key), self.key))
    }

    /// The parent's return address, if the agent has a parent.
    pub fn new_parent_envelope(&self) -> (r: Option<OutboundEnvelope>)
        ensures
            r == (match self@.parent {
                Some(p) => Some(OutboundEnvelope { sender: p, reply_to: Some(p) }),
                None => None,
            }),
    {
        match self.parent {
            Some(p) => Some(OutboundEnvelope::new(Some(p), p)),
            None => None,
        }
    }
}

impl ManagedAgent<Idle> {
    /// A new agent with no reactors and no children.
    pub fn new(key: u64, id: AgentId, parent: Option<u64>, broker: Option<u64>) -> (r: ManagedAgent<
        Idle,
    >)
        requires
            id.wf(),
        ensures
            r.wf(),
            r@ == (AgentView {
                key,
                id: id@,
                parent,
                broker,
                reactors: Map::empty(),
                children: Map::empty(),
                stage: Stage::BeforeStart,
                terminate_requested: false,
            }),
    {
        ManagedAgent {
            key,
            id,
            parent,
            broker,
            reactors: ReactorMap::new(),
            children: SlotMap::new(),
            stage: Stage::BeforeStart,
            terminate_requested: false,
            phase: Idle,
        }
    }

    /// Registers the reactor in `slot` for messages of type `type_tag`,
    /// replacing an earlier registration for that type.
    pub fn on_message(&mut self, type_tag: u64, slot: u64)
        requires
            old(self).wf(),
        ensures
            final(self).wf(),
            final(self)@ == (AgentView {
                reactors: old(self)@.reactors.insert(type_tag, slot),
                ..old(self)@
            }),
    {
        self.reactors.register(type_tag, slot);
    }

    /// Freezes the reactors and starts the run: the first action runs
    /// `before_start`.
    pub fn activate(self) -> (r: (ManagedAgent<Started>, Action))
        requires
            self.wf(),
        ensures
            r.0.wf(),
            r.0@ == (AgentView { stage: Stage::BeforeStart, terminate_requested: false, ..self@ }),
            r.1 == Action::RunHook(Hook::BeforeStart),
    {
        let agent = ManagedAgent {
            key: self.key,
            id: self.id,
            parent: self.parent,
            broker: self.broker,
            reactors: self.reactors,
            children: self.children,
            stage: Stage::BeforeStart,
            terminate_requested: false,
            phase: Started,
        };
        (agent, Action::RunHook(Hook::BeforeStart))
    }
}

impl ManagedAgent<Started> {
    pub fn stage(&self) -> (r: Stage)
        ensures
            r == self@.stage,
    {
        self.stage
    }

    /// Takes the report of completed outside work and answers with the next action.
    pub fn step(&mut self, event: Event) -> (r: Action)
        requires
            old(self).wf(),
        ensures
            final(self).wf(),
            final(self)@ == (AgentView {
                stage: step_spec(old(self)@.stage, event).0,
                terminate_requested: rank(step_spec(old(self)@.stage, event).0) >= 3,
                ..old(self)@
            }),
            r == step_spec(old(self)@.stage, event).1,
    {
        let (next, action) = match (self.stage, event) {
            (Stage::BeforeStart, Event::HookDone) => (Stage::AfterStart, Action::RunHook(Hook::AfterStart)),
            (Stage::AfterStart, Event::HookDone) => (Stage::Draining, Action::Receive),
            (Stage::Draining, Event::Delivered(route)) => match route {
                Route::Reactor(slot) => (Stage::Reacting, Action::Invoke(slot)),
                Route::Terminate => (Stage::BeforeStop, Action::RunHook(Hook::BeforeStop)),
                Route::Control(msg) => (Stage::Draining, Action::Control(msg)),
                Route::Publish(t) => (Stage::Draining, Action::Publish(t)),
                Route::Unhandled => (Stage::Draining, Action::Discard),
            },
            (Stage::Reacting, Event::ReactorDone) => (Stage::Draining, Action::Receive),
            (Stage::BeforeStop, Event::HookDone) => (Stage::Terminating, Action::Shutdown),
            (Stage::Terminating, Event::ChildrenStopped) => (
                Stage::AfterStop,
                Action::RunHook(Hook::AfterStop),
            ),
            (Stage::AfterStop, Event::HookDone) => (Stage::Stopped, Action::Finish),
            (s, _) => (s, Action::Ignore),
        };
        if let (Stage::Draining, Event::Delivered(Route::Terminate)) = (self.stage, event) {
            self.terminate_requested = true;
        }
        self.stage = next;
        action
    }

    /// Routes a dequeued payload and steps on it.
    pub fn deliver<B>(&mut self, payload: &Payload<B>) -> (r: Action)
        requires
            old(self).wf(),
        ensures
            final(self).wf(),
            final(self)@ == (AgentView {
                stage: step_spec(
                    old(self)@.stage,
                    Event::Delivered(route_spec(old(self)@.reactors, *payload)),
                ).0,
                terminate_requested: rank(
                    step_spec(
                        old(self)@.stage,
                        Event::Delivered(route_spec(old(self)@.reactors, *payload)),
                    ).0,
                ) >= 3,
                ..old(self)@
            }),
            r == step_spec(old(self)@.stage, Event::Delivered(route_spec(old(self)@.reactors, *payload))).1,
    {
        let route = self.reactors.route(payload);
        self.step(Event::Delivered(route))
    }
}

} // verus!
