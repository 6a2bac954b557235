//! System bootstrap: the registry of agents, the broker, and spawning.
use crate::agent::{AgentView, Idle, ManagedAgent, Stage};
use crate::broker::Broker;
use crate::id::ConfigError;
use crate::supervision::{
    orphans_below, spawn_outcome, stop_spec, RecordView, Registry, ShutdownError,
};
use vstd::prelude::*;

verus! {

/// How to spawn an agent: its name, its parent (none for a top-level agent)
/// and the broker it uses (none for the system's broker).
#[derive(Debug, Clone)]
pub struct AgentConfig {
    pub name: String,
    pub parent: Option<u64>,
    pub broker: Option<u64>,
}

impl AgentConfig {
    pub fn new(name: String, parent: Option<u64>, broker: Option<u64>) -> (r: AgentConfig)
        ensures
            r.name@ == name@,
            r.parent == parent,
            r.broker == broker,
    {
        AgentConfig { name, parent, broker }
    }
}

/// The key of the system's broker, the first agent registered.
pub const BROKER_KEY: u64 = 0;

/// A launched system: it registers agents and knows its broker.
pub struct SystemReady {
    registry: Registry,
}

impl View for SystemReady {
    type V = Seq<RecordView>;

    closed spec fn view(&self) -> Seq<RecordView> {
        self.registry@
    }
}

impl SystemReady {
    pub closed spec fn wf(&self) -> bool {
        &&& self.registry.wf()
        &&& self.registry@.len() > 0
    }

    /// Starts a system: its registry holds the broker, top-level agent
    /// `broker`, under `BROKER_KEY`. Returns the system, the broker agent
    /// (idle, for the runtime to activate) and the broker's empty table.
    pub fn launch() -> (r: (SystemReady, ManagedAgent<Idle>, Broker))
        ensures
            r.0.wf(),
            r.0@.len() == 1,
            r.0@[0].id == seq![seq!['b', 'r', 'o', 'k', 'e', 'r']],
            r.0@[0].parent is None,
            !r.0@[0].stopped,
            r.1@.key == BROKER_KEY,
            r.1@.id == r.0@[0].id,
            r.1@.parent is None,
            r.1@.broker is None,
            r.1@.stage == Stage::BeforeStart,
            r.1@.reactors == Map::<u64, u64>::empty(),
            r.1@.children == Map::<u64, u64>::empty(),
            r.2@ == Seq::<(u64, u64)>::empty(),
            r.2.key_spec() == BROKER_KEY,
            r.1.wf(),
            r.2.wf(),
    {
        let mut registry = Registry::new();
        proof {
            reveal_strlit("broker");
            assert("broker"@ =~= seq!['b', 'r', 'o', 'k', 'e', 'r']);
        }
        let _ = registry.spawn("broker", None);
        let id = match registry.id_of(BROKER_KEY) {
            Some(id) => id.copy(),
            None => vstd::pervasive::unreached(),
        };
        let agent = ManagedAgent::new(BROKER_KEY, id, None, None);
        (SystemReady { registry }, agent, Broker::new(BROKER_KEY))
    }

    pub fn registry(&self) -> (r: &Registry)
        ensures
            r@ == self@,
            self.wf() ==> r.wf(),
    {
        &self.registry
    }

    /// Registers an agent as `config` describes and returns it, idle. A
    /// child's id extends its parent's; without a broker in `config` the
    /// agent uses the system's broker.
    pub fn spawn_agent(&mut self, config: &AgentConfig) -> (r: Result<ManagedAgent<Idle>, ConfigError>)
        requires
            old(self).wf(),
        ensures
            final(self).wf(),
            old(self)@.len() >= u64::MAX ==> r == Err::<ManagedAgent<Idle>, ConfigError>(
                ConfigError::RegistryFull,
            ) && final(self)@ == old(self)@,
            old(self)@.len() < u64::MAX ==> match spawn_outcome(
                old(self)@,
                config.name@,
                config.parent,
            ) {
                Ok(id) => r is Ok && final(self)@ == old(self)@.push(
                    RecordView { id, parent: config.parent, stopped: false },
                ) && r->Ok_0.wf() && r->Ok_0@ == (AgentView {
                    key: old(self)@.len() as u64,
                    id,
                    parent: config.parent,
                    broker: match config.broker {
                        Some(b) => Some(b),
                        None => Some(BROKER_KEY),
                    },
                    reactors: Map::empty(),
                    children: Map::empty(),
                    stage: Stage::BeforeStart,
                    terminate_requested: false,
                }),
                Err(e) => r == Err::<ManagedAgent<Idle>, ConfigError>(e) && final(self)@ == old(
                    self,
                )@,
            },
    {
        if self.registry.len() as u64 >= u64::MAX {
            return Err(ConfigError::RegistryFull);
        }
        let key = match self.registry.spawn(config.name.as_str(), config.parent) {
            Ok(key) => key,
            Err(e) => return Err(e),
        };
        let id = match self.registry.id_of(key) {
            Some(id) => id.copy(),
            None => vstd::pervasive::unreached(),
        };
        let broker = match config.broker {
            Some(b) => Some(b),
            None => Some(BROKER_KEY),
        };
        Ok(ManagedAgent::new(key, id, config.parent, broker))
    }

    /// Records that the run of `key` is over; returns the children it orphaned.
    pub fn record_stopped(&mut self, key: u64) -> (r: Result<Vec<u64>, ShutdownError>)
        requires
            old(self).wf(),
        ensures
            final(self).wf(),
            key >= old(self)@.len() ==> r == Err::<Vec<u64>, ShutdownError>(
                ShutdownError::UnknownAgent,
            ) && final(self)@ == old(self)@,
            key < old(self)@.len() ==> r is Ok && final(self)@ == stop_spec(old(self)@, key as int),
            r matches Ok(orphans) ==> orphans@ == orphans_below(
                old(self)@,
                key as int,
                old(self)@.len() as int,
            ),
    {
        self.registry.mark_stopped(key)
    }
}

} // verus!
