//! The supervision registry: every agent of a system, its parent, and whether
//! its run is over. An agent's key is its position in the registry, so a
//! parent is always registered before its children.
use crate::id::{is_strict_prefix, valid_path, valid_segment, AgentId, ConfigError};
use vstd::prelude::*;

verus! {

/// What the registry knows of one agent.
pub struct RecordView {
    pub id: Seq<Seq<char>>,
    pub parent: Option<u64>,
    pub stopped: bool,
}

/// Why a stop could not be recorded.
#[derive(Debug, Clone, Copy, PartialEq, Eq, Structural)]
pub enum ShutdownError {
    UnknownAgent,
}

/// `d` is a descendant of `a`: following parents from `d` reaches `a`.
pub open spec fn descends(v: Seq<RecordView>, d: int, a: int) -> bool
    decreases d,
{
    if 0 <= d < v.len() {
        match v[d].parent {
            Some(p) => (p as int) < d && (p as int == a || descends(v, p as int, a)),
            None => false,
        }
    } else {
        false
    }
}

/// Whether a running agent already has this id.
pub open spec fn id_in_use(v: Seq<RecordView>, id: Seq<Seq<char>>) -> bool {
    exists|i: int| 0 <= i < v.len() && !v[i].stopped && #[trigger] v[i].id == id
}

/// The id that `spawn` gives, or the error it reports.
pub open spec fn spawn_outcome(v: Seq<RecordView>, name: Seq<char>, parent: Option<u64>) -> Result<
    Seq<Seq<char>>,
    ConfigError,
> {
    match parent {
        Some(p) => if p >= v.len() {
            Err(ConfigError::UnknownParent)
        } else if v[p as int].stopped {
            Err(ConfigError::ParentStopped)
        } else if !valid_segment(name) {
            Err(ConfigError::InvalidName)
        } else if id_in_use(v, v[p as int].id.push(name)) {
            Err(ConfigError::DuplicateId)
        } else {
            Ok(v[p as int].id.push(name))
        },
        None => if !valid_segment(name) {
            Err(ConfigError::InvalidName)
        } else if id_in_use(v, seq![name]) {
            Err(ConfigError::DuplicateId)
        } else {
            Ok(seq![name])
        },
    }
}

/// What `mark_stopped(key)` leaves: the agent stopped, and each of its
/// children that still runs detached from it (orphaned).
pub open spec fn stop_spec(v: Seq<RecordView>, key: int) -> Seq<RecordView> {
    Seq::new(
        v.len(),
        |i: int|
            if i == key {
                RecordView { stopped: true, ..v[i] }
            } else if v[i].parent == Some(key as u64) && !v[i].stopped {
                RecordView { parent: None, ..v[i] }
            } else {
                v[i]
            },
    )
}

/// The children of `key` that `mark_stopped(key)` orphans.
pub open spec fn orphaned_by(v: Seq<RecordView>, key: int, i: int) -> bool {
    0 <= i < v.len() && i != key && v[i].parent == Some(key as u64) && !v[i].stopped
}

/// The children of `key` that `mark_stopped(key)` orphans, among the first
/// `n` agents, in key order.
pub open spec fn orphans_below(v: Seq<RecordView>, key: int, n: int) -> Seq<u64>
    decreases n,
{
    if n <= 0 {
        Seq::empty()
    } else if orphaned_by(v, key, n - 1) {
        orphans_below(v, key, n - 1).push((n - 1) as u64)
    } else {
        orphans_below(v, key, n - 1)
    }
}

pub struct Registry {
    ids: Vec<AgentId>,
    parents: Vec<Option<u64>>,
    stopped: Vec<bool>,
}

impl View for Registry {
    type V = Seq<RecordView>;

    closed spec fn view(&self) -> Seq<RecordView> {
        Seq::new(
            self.ids@.len(),
            |i: int|
                RecordView { id: self.ids@[i]@, parent: self.parents@[i], stopped: self.stopped@[i] },
        )
    }
}

/// The registry's invariant, over its records.
pub open spec fn registry_wf(v: Seq<RecordView>) -> bool {
    &&& v.len() <= u64::MAX
    &&& forall|i: int| 0 <= i < v.len() ==> valid_path(#[trigger] v[i].id)
    &&& forall|i: int|
        0 <= i < v.len() && (#[trigger] v[i]).parent is Some ==> {
            let p = v[i].parent->Some_0 as int;
            &&& p < i
            &&& is_strict_prefix(v[p].id, v[i].id)
            &&& v[p].stopped ==> v[i].stopped
        }
    &&& forall|i: int, j: int|
        0 <= i < j < v.len() && !v[i].stopped && !v[j].stopped ==> #[trigger] v[i].id
            != #[trigger] v[j].id
}

impl Registry {
    pub closed spec fn wf(&self) -> bool {
        &&& self.parents@.len() == self.ids@.len()
        &&& self.stopped@.len() == self.ids@.len()
        &&& registry_wf(self@)
    }

    pub fn new() -> (r: Registry)
        ensures
            r.wf(),
            r@ == Seq::<RecordView>::empty(),
    {
        let r = Registry { ids: Vec::new(), parents: Vec::new(), stopped: Vec::new() };
        assert(r@ =~= Seq::<RecordView>::empty());
        r
    }

    pub fn len(&self) -> (r: usize)
        requires
            self.wf(),
        ensures
            r == self@.len(),
    {
        self.ids.len()
    }

    fn id_taken(&self, id: &AgentId) -> (r: bool)
        requires
            self.wf(),
        ensures
            r == id_in_use(self@, id@),
    {
        let mut i: usize = 0;
        while i < self.ids.len()
            invariant
                self.wf(),
                0 <= i <= self@.len(),
                forall|j: int| 0 <= j < i ==> !(!self@[j].stopped && #[trigger] self@[j].id == id@),
            decreases self@.len() - i,
        {
            if !self.stopped[i] && self.ids[i].same_as(id) {
                assert(self@[i as int].id == id@);
                return true;
            }
            i += 1;
        }
        false
    }

    /// Registers a new running agent called `name`: a top-level one, or a
    /// child of `parent` whose id extends the parent's. Returns its key.
    pub fn spawn(&mut self, name: &str, parent: Option<u64>) -> (r: Result<u64, ConfigError>)
        requires
            old(self).wf(),
            old(self)@.len() < u64::MAX,
        ensures
            final(self).wf(),
            match spawn_outcome(old(self)@, name@, parent) {
                Ok(id) => r == Ok::<u64, ConfigError>(old(self)@.len() as u64) && final(self)@
                    == old(self)@.push(RecordView { id, parent, stopped: false }),
                Err(e) => r == Err::<u64, ConfigError>(e) && final(self)@ == old(self)@,
            },
    {
        let id = match parent {
            Some(p) => {
                if p >= self.ids.len() as u64 {
                    return Err(ConfigError::UnknownParent);
                }
                if self.stopped[p as usize] {
                    return Err(ConfigError::ParentStopped);
                }
                proof {
                    assert(valid_path(self@[p as int].id));
                }
                match self.ids[p as usize].child(name) {
                    Ok(id) => id,
                    Err(e) => return Err(e),
                }
            },
            None => match AgentId::with_root(name) {
                Ok(id) => id,
                Err(e) => return Err(e),
            },
        };
        if self.id_taken(&id) {
            return Err(ConfigError::DuplicateId);
        }
        let key = self.ids.len() as u64;
        let ghost old_v = self@;
        let ghost new_id = id@;
        self.ids.push(id);
        self.parents.push(parent);
        self.stopped.push(false);
        proof {
            assert(self@ =~= old_v.push(RecordView { id: new_id, parent, stopped: false }));
            let v = self@;
            assert forall|i: int| 0 <= i < v.len() && (#[trigger] v[i]).parent is Some implies {
                let p = v[i].parent->Some_0 as int;
                &&& p < i
                &&& is_strict_prefix(v[p].id, v[i].id)
                &&& v[p].stopped ==> v[i].stopped
            } by {
                if i == v.len() - 1 {
                    let p = parent->Some_0 as int;
                    assert(v[p] == old_v[p]);
                    assert(new_id.subrange(0, old_v[p].id.len() as int) =~= old_v[p].id);
                } else {
                    assert(v[i] == old_v[i]);
                }
            }
            assert forall|i: int, j: int|
                0 <= i < j < v.len() && !v[i].stopped && !v[j].stopped implies #[trigger] v[i].id
                != #[trigger] v[j].id by {
                if j == v.len() - 1 {
                    assert(v[i] == old_v[i]);
                    if v[i].id == new_id {
                        assert(id_in_use(old_v, new_id));
                    }
                }
            }
        }
        Ok(key)
    }

    /// Records that the run of `key` is over. Its children that still run are
    /// orphaned (detached from it) and returned in key order.
    pub fn mark_stopped(&mut self, key: u64) -> (r: Result<Vec<u64>, ShutdownError>)
        requires
            old(self).wf(),
        ensures
            final(self).wf(),
            key >= old(self)@.len() ==> r == Err::<Vec<u64>, ShutdownError>(
                ShutdownError::UnknownAgent,
            ) && final(self)@ == old(self)@,
            key < old(self)@.len() ==> r is Ok && final(self)@ == stop_spec(old(self)@, key as int),
            r matches Ok(orphans) ==> orphans@ == orphans_below(
                old(self)@,
                key as int,
                old(self)@.len() as int,
            ),
    {
        if key >= self.ids.len() as u64 {
            return Err(ShutdownError::UnknownAgent);
        }
        let ghost old_v = self@;
        let mut orphans: Vec<u64> = Vec::new();
        let mut i: usize = 0;
        while i < self.ids.len()
            invariant
                self.parents@.len() == self.ids@.len(),
                self.stopped@.len() == self.ids@.len(),
                0 <= i <= self@.len(),
                self@.len() == old_v.len(),
                key < old_v.len(),
                old_v.len() <= u64::MAX,
                forall|j: int|
                    0 <= j < i ==> #[trigger] self@[j] == stop_spec(old_v, key as int)[j],
                forall|j: int| i <= j < self@.len() ==> #[trigger] self@[j] == old_v[j],
                orphans@ == orphans_below(old_v, key as int, i as int),
            decreases self@.len() - i,
        {
            let ghost before = self@;
            if i as u64 == key {
                self.stopped.set(i, true);
            } else if self.parents[i] == Some(key) && !self.stopped[i] {
                self.parents.set(i, None);
                orphans.push(i as u64);
            }
            proof {
                assert(before[i as int] == old_v[i as int]);
                assert forall|j: int| 0 <= j < self@.len() && j != i implies #[trigger] self@[j]
                    == before[j] by {}
                assert(self@[i as int] == stop_spec(old_v, key as int)[i as int]);
            }
            i += 1;
        }
        proof {
            assert(self@ =~= stop_spec(old_v, key as int));
            let v = self@;
            assert forall|a: int| 0 <= a < v.len() && (#[trigger] v[a]).parent is Some implies {
                let p = v[a].parent->Some_0 as int;
                &&& p < a
                &&& is_strict_prefix(v[p].id, v[a].id)
                &&& v[p].stopped ==> v[a].stopped
            } by {
                assert(old_v[a].parent is Some);
                let p = old_v[a].parent->Some_0 as int;
                assert(v[a].parent == old_v[a].parent);
                assert(v[p].id == old_v[p].id);
            }
            assert forall|a: int, b: int|
                0 <= a < b < v.len() && !v[a].stopped && !v[b].stopped implies #[trigger] v[a].id
                != #[trigger] v[b].id by {
                assert(!old_v[a].stopped && !old_v[b].stopped);
            }
        }
        Ok(orphans)
    }

    pub fn is_stopped(&self, key: u64) -> (r: Option<bool>)
        requires
            self.wf(),
        ensures
            r == (if key < self@.len() { Some(self@[key as int].stopped) } else { None }),
    {
        if key < self.ids.len() as u64 {
            Some(self.stopped[key as usize])
        } else {
            None
        }
    }

    pub fn parent_of(&self, key: u64) -> (r: Option<u64>)
        requires
            self.wf(),
        ensures
            r == (if key < self@.len() { self@[key as int].parent } else { None }),
    {
        if key < self.ids.len() as u64 {
            self.parents[key as usize]
        } else {
            None
        }
    }

    pub fn id_of(&self, key: u64) -> (r: Option<&AgentId>)
        requires
            self.wf(),
        ensures
            r matches Some(id) ==> key < self@.len() && id@ == self@[key as int].id && id.wf(),
            r is None <==> key >= self@.len(),
    {
        if key < self.ids.len() as u64 {
            Some(&self.ids[key as usize])
        } else {
            None
        }
    }
}

/// Shutdown completeness: once an agent is recorded as stopped, every agent
/// that descends from it (and was not orphaned) is recorded as stopped too.
pub proof fn lemma_shutdown_complete(v: Seq<RecordView>, a: int, d: int)
    requires
        registry_wf(v),
        0 <= a < v.len(),
        v[a].stopped,
        descends(v, d, a),
    ensures
        v[d].stopped,
    decreases d,
{
    let p = v[d].parent->Some_0 as int;
    assert(v[d].parent is Some);
    if p != a {
        lemma_shutdown_complete(v, a, p);
    }
}

/// Children's ids extend their ancestors' ids.
pub proof fn lemma_descendant_id_extends(v: Seq<RecordView>, a: int, d: int)
    requires
        registry_wf(v),
        0 <= a < v.len(),
        descends(v, d, a),
    ensures
        is_strict_prefix(v[a].id, v[d].id),
    decreases d,
{
    let p = v[d].parent->Some_0 as int;
    assert(v[d].parent is Some);
    if p != a {
        lemma_descendant_id_extends(v, a, p);
        assert(v[d].id.subrange(0, v[a].id.len() as int) =~= v[p].id.subrange(0, v[a].id.len() as int));
    }
}

} // verus!
