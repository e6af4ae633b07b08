//! The registry of rooms and the phase orchestrator.
//!
//! A run walks a fixed lifecycle. First every room is fingerprinted and
//! compared against its cache entry; then the selection step decides whether
//! anything runs at all; then the per-room phases fire, each a barrier, each
//! skipping rooms that are not selected or have already failed; finally every
//! room that did not fail has its fresh fingerprint persisted.
//!
//! Running a shell command is outside work: the orchestrator only decides
//! which commands run where and in what order, hands them out as
//! [`HookInvocation`] values, and takes the per-room failures back.

pub mod config;
pub mod room;

use vstd::prelude::*;

use crate::hash::fingerprint_of;
use room::{build_decision, Hooks, RoomBuilder};

verus! {

/// One per-room lifecycle phase, in the order the run executes them.
#[derive(Clone, Copy, PartialEq, Eq, Structural)]
pub enum Phase {
    BeforeSynchronously,
    Before,
    RunParallel,
    RunSynchronously,
    After,
}

/// How the invocations of one phase are dispatched: one at a time in room
/// order, or fanned out with a join at the phase barrier.
#[derive(Clone, Copy, PartialEq, Eq, Structural)]
pub enum Concurrency {
    Sequential,
    Parallel,
}

/// The hook a phase draws its command from.
pub open spec fn spec_hook(hooks: Hooks, phase: Phase) -> Option<String> {
    match phase {
        Phase::BeforeSynchronously => hooks.before_synchronously,
        Phase::Before => hooks.before,
        Phase::RunParallel => hooks.run_parallel,
        Phase::RunSynchronously => hooks.run_synchronously,
        Phase::After => hooks.after,
    }
}

/// A room takes part in a phase when it is selected for this run, has not
/// failed, and defines the phase's hook.
pub open spec fn eligible(rooms: Seq<RoomBuilder>, phase: Phase, i: int) -> bool {
    &&& 0 <= i < rooms.len()
    &&& rooms[i].should_build
    &&& !rooms[i].errored
    &&& spec_hook(rooms[i].hooks, phase) is Some
}

/// Whether a room of this name is already registered.
pub open spec fn has_room_named(rooms: Seq<RoomBuilder>, name: Seq<char>) -> bool {
    exists|i: int| 0 <= i < rooms.len() && rooms[i].name@ == name
}

/// The registry's invariant: room names are unique. The configuration keys
/// rooms by name, so no two registered rooms can share one.
pub open spec fn distinct_names(rooms: Seq<RoomBuilder>) -> bool {
    forall|i: int, j: int| 0 <= i < j < rooms.len() ==> rooms[i].name@ != rooms[j].name@
}

/// The names of the rooms selected for this run, in registry order.
pub open spec fn spec_diff_names(rooms: Seq<RoomBuilder>) -> Seq<Seq<char>> {
    rooms.filter(|r: RoomBuilder| r.should_build).map_values(|r: RoomBuilder| r.name@)
}

/// A room whose file-tree content is identical across two runs, compared
/// without the force flag against the fingerprint the first run persisted,
/// is not selected on the second run, and no phase runs any hook for it.
pub proof fn lemma_identical_content_second_run_idle(
    rooms: Seq<RoomBuilder>,
    i: int,
    phase: Phase,
    prev_content: Seq<u8>,
    content: Seq<u8>,
)
    requires
        0 <= i < rooms.len(),
        content == prev_content,
        rooms[i].should_build == build_decision(
            false,
            Some(fingerprint_of(prev_content)),
            fingerprint_of(content),
        ),
    ensures
        !rooms[i].should_build,
        !eligible(rooms, phase, i),
{
}

/// No phase runs any hook for a room that is not selected.
pub proof fn lemma_unselected_room_idle(rooms: Seq<RoomBuilder>, phase: Phase, i: int)
    requires
        0 <= i < rooms.len(),
        !rooms[i].should_build,
    ensures
        !eligible(rooms, phase, i),
{
}

/// A room that has failed is skipped by every later phase: its failure is
/// contained and the other rooms go on without it.
pub proof fn lemma_errored_room_skipped(rooms: Seq<RoomBuilder>, phase: Phase, i: int)
    requires
        0 <= i < rooms.len(),
        rooms[i].errored,
    ensures
        !eligible(rooms, phase, i),
{
}

/// One shell command the orchestrator asks to have run: the index of the
/// room it belongs to, the working directory, the room's name for reporting,
/// and the command itself.
pub struct HookInvocation {
    pub room_index: usize,
    pub path: String,
    pub name: String,
    pub command: String,
}

/// One cache entry to persist at the end of a run: the entry's file path and
/// the fingerprint to store in it.
pub struct CacheWrite {
    pub room_index: usize,
    pub path: String,
    pub fingerprint: String,
}

/// A fatal registration failure: the named room's path does not exist.
#[derive(Debug)]
pub struct MissingPath {
    pub name: String,
    pub path: String,
}

/// What the selection step decides once every room's fingerprint is settled.
pub enum RunSelection {
    /// Persist the fresh fingerprints and run no hooks.
    UpdateHashesOnly,
    /// No room changed: report so and stop.
    NothingChanged,
    /// Changed rooms, reported but not run.
    DryRun(Vec<String>),
    /// Changed rooms; the phases go ahead.
    Proceed(Vec<String>),
}

/// The registry of rooms plus the two global hooks.
pub struct RoomserviceBuilder {
    pub before_all: Option<String>,
    pub rooms: Vec<RoomBuilder>,
    pub after_all: Option<String>,
    pub project: String,
    pub cache_dir: String,
    pub force: bool,
}

/// The fixed lifecycle of the per-room phases: which phases run, in what
/// order, and with what concurrency.
pub fn lifecycle() -> (r: Vec<(Phase, Concurrency)>)
    ensures
        r@ =~= seq![
            (Phase::BeforeSynchronously, Concurrency::Sequential),
            (Phase::Before, Concurrency::Parallel),
            (Phase::RunParallel, Concurrency::Parallel),
            (Phase::RunSynchronously, Concurrency::Sequential),
            (Phase::After, Concurrency::Parallel),
        ],
{
    let mut order: Vec<(Phase, Concurrency)> = Vec::new();
    order.push((Phase::BeforeSynchronously, Concurrency::Sequential));
    order.push((Phase::Before, Concurrency::Parallel));
    order.push((Phase::RunParallel, Concurrency::Parallel));
    order.push((Phase::RunSynchronously, Concurrency::Sequential));
    order.push((Phase::After, Concurrency::Parallel));
    order
}

/// The command a phase runs for a room, if the room defines its hook.
pub fn hook_of(hooks: &Hooks, phase: Phase) -> (r: Option<String>)
    ensures
        r == spec_hook(*hooks, phase),
{
    let source = match phase {
        Phase::BeforeSynchronously => &hooks.before_synchronously,
        Phase::Before => &hooks.before,
        Phase::RunParallel => &hooks.run_parallel,
        Phase::RunSynchronously => &hooks.run_synchronously,
        Phase::After => &hooks.after,
    };
    match source {
        Some(cmd) => Some(cmd.clone()),
        None => None,
    }
}

impl Default for RoomserviceBuilder {
    /// An empty registry rooted at the working directory, with the usual
    /// cache directory and no force flag.
    fn default() -> (r: RoomserviceBuilder)
        ensures
            r.project@ == "./"@,
            r.cache_dir@ == ".roomservice"@,
            !r.force,
            r.rooms@ =~= Seq::<RoomBuilder>::empty(),
            r.before_all is None,
            r.after_all is None,
    {
        RoomserviceBuilder {
            project: String::from_str("./"),
            force: false,
            cache_dir: String::from_str(".roomservice"),
            rooms: Vec::new(),
            before_all: None,
            after_all: None,
        }
    }
}

impl RoomserviceBuilder {
    /// An empty registry for one run. The caller has made sure the cache
    /// directory exists.
    pub fn new(project: String, cache_dir: String, force: bool) -> (r: RoomserviceBuilder)
        ensures
            r.project == project,
            r.cache_dir == cache_dir,
            r.force == force,
            r.rooms@ =~= Seq::<RoomBuilder>::empty(),
            r.before_all is None,
            r.after_all is None,
    {
        RoomserviceBuilder {
            project,
            cache_dir,
            force,
            rooms: Vec::new(),
            before_all: None,
            after_all: None,
        }
    }

    /// Sets the global hook that runs once before any per-room phase.
    pub fn add_before_all(&mut self, before_all: &str)
        ensures
            final(self).before_all matches Some(c) && c@ == before_all@,
            final(self).after_all == old(self).after_all,
            final(self).rooms == old(self).rooms,
            final(self).project == old(self).project,
            final(self).cache_dir == old(self).cache_dir,
            final(self).force == old(self).force,
    {
        self.before_all = Some(String::from_str(before_all))
    }

    /// Sets the global hook that runs once after every per-room phase.
    pub fn add_after_all(&mut self, after_all: &str)
        ensures
            final(self).after_all matches Some(c) && c@ == after_all@,
            final(self).before_all == old(self).before_all,
            final(self).rooms == old(self).rooms,
            final(self).project == old(self).project,
            final(self).cache_dir == old(self).cache_dir,
            final(self).force == old(self).force,
    {
        self.after_all = Some(String::from_str(after_all))
    }

    /// Registers a room. The caller resolves the room's path against the
    /// project root and hands over the canonical form, or `None` when the
    /// path does not exist on disk — then registration fails naming the room
    /// and the path it claimed.
    pub fn add_room(&mut self, room: RoomBuilder, canonical_path: Option<String>) -> (r: Result<
        (),
        MissingPath,
    >)
        ensures
            final(self).before_all == old(self).before_all,
            final(self).after_all == old(self).after_all,
            final(self).project == old(self).project,
            final(self).cache_dir == old(self).cache_dir,
            final(self).force == old(self).force,
            canonical_path matches Some(p) ==> {
                &&& r is Ok
                &&& final(self).rooms@ =~= old(self).rooms@.push(
                    (RoomBuilder { path: p, ..room }),
                )
            },
            canonical_path is None ==> {
                &&& r matches Err(e) && e.name == room.name && e.path == room.path
                &&& final(self).rooms == old(self).rooms
            },
            distinct_names(old(self).rooms@) && !has_room_named(old(self).rooms@, room.name@)
                ==> distinct_names(final(self).rooms@),
    {
        match canonical_path {
            Some(p) => {
                let mut added = room;
                added.path = p;
                self.rooms.push(added);
                Ok(())
            },
            None => Err(
                MissingPath { name: room.name, path: room.path },
            ),
        }
    }

    /// Whether any registered room has failed during this run.
    pub fn had_errors(&self) -> (r: bool)
        ensures
            r == exists|i: int| 0 <= i < self.rooms@.len() && self.rooms@[i].errored,
    {
        let mut i: usize = 0;
        while i < self.rooms.len()
            invariant
                i <= self.rooms@.len(),
                forall|k: int| 0 <= k < i ==> !self.rooms@[k].errored,
            decreases self.rooms@.len() - i,
        {
            if self.rooms[i].errored {
                return true;
            }
            i = i + 1;
        }
        false
    }

    /// The names of the rooms selected for this run, in registry order.
    pub fn diff_names(&self) -> (r: Vec<String>)
        ensures
            r.deep_view() == spec_diff_names(self.rooms@),
    {
        let ghost pred = |room: RoomBuilder| room.should_build;
        let ghost name_of = |room: RoomBuilder| room.name@;
        let mut names: Vec<String> = Vec::new();
        let mut i: usize = 0;
        while i < self.rooms.len()
            invariant
                i <= self.rooms@.len(),
                pred == (|room: RoomBuilder| room.should_build),
                name_of == (|room: RoomBuilder| room.name@),
                names.deep_view() == self.rooms@.take(i as int).filter(pred).map_values(name_of),
            decreases self.rooms@.len() - i,
        {
            let ghost pre = self.rooms@.take(i as int);
            let ghost post = self.rooms@.take(i + 1 as int);
            proof {
                assert(post.drop_last() =~= pre);
                assert(post.last() == self.rooms@[i as int]);
            }
            let ghost prev_dv = names.deep_view();
            if self.rooms[i].should_build {
                names.push(self.rooms[i].name.clone());
            }
            proof {
                reveal_with_fuel(Seq::<_>::filter, 2);
                if pred(self.rooms@[i as int]) {
                    assert(post.filter(pred) == pre.filter(pred).push(post.last()));
                    assert(names.deep_view() =~= prev_dv.push(self.rooms@[i as int].name@));
                    assert(pre.filter(pred).push(post.last()).map_values(name_of) =~= pre.filter(
                        pred,
                    ).map_values(name_of).push(name_of(post.last())));
                } else {
                    assert(post.filter(pred) == pre.filter(pred));
                }
                assert(post.filter(pred).map_values(name_of) =~= names.deep_view());
            }
            i = i + 1;
        }
        proof {
            assert(self.rooms@.take(self.rooms@.len() as int) =~= self.rooms@);
        }
        names
    }

    /// The selection decision, taken once every room's fingerprint is
    /// settled: persist-only runs skip straight to the cache writes; a run
    /// where nothing changed stops; a dry run reports the changed rooms and
    /// stops; otherwise the phases go ahead for the reported rooms.
    pub fn select(&self, update_hashes_only: bool, dry: bool) -> (r: RunSelection)
        ensures
            update_hashes_only ==> r is UpdateHashesOnly,
            !update_hashes_only && spec_diff_names(self.rooms@).len() == 0 ==> r is NothingChanged,
            !update_hashes_only && spec_diff_names(self.rooms@).len() > 0 && dry ==> (r matches
            RunSelection::DryRun(names) && names.deep_view() == spec_diff_names(self.rooms@)),
            !update_hashes_only && spec_diff_names(self.rooms@).len() > 0 && !dry ==> (r matches
            RunSelection::Proceed(names) && names.deep_view() == spec_diff_names(self.rooms@)),
    {
        if update_hashes_only {
            return RunSelection::UpdateHashesOnly;
        }
        let names = self.diff_names();
        assert(names@.len() == names.deep_view().len());
        if names.len() == 0 {
            RunSelection::NothingChanged
        } else if dry {
            RunSelection::DryRun(names)
        } else {
            RunSelection::Proceed(names)
        }
    }

    /// The commands one phase runs: one invocation for each eligible room,
    /// in registry order, each carrying the room's working directory, its
    /// name and the phase's hook command.
    pub fn phase_commands(&self, phase: Phase) -> (r: Vec<HookInvocation>)
        ensures
            forall|j: int|
                0 <= j < r@.len() ==> {
                    let inv = #[trigger] r@[j];
                    &&& eligible(self.rooms@, phase, inv.room_index as int)
                    &&& inv.path == self.rooms@[inv.room_index as int].path
                    &&& inv.name == self.rooms@[inv.room_index as int].name
                    &&& Some(inv.command) == spec_hook(
                        self.rooms@[inv.room_index as int].hooks,
                        phase,
                    )
                },
            forall|i: int|
                #[trigger] eligible(self.rooms@, phase, i) ==> exists|j: int|
                    0 <= j < r@.len() && #[trigger] r@[j].room_index == i,
            forall|j1: int, j2: int|
                0 <= j1 < j2 < r@.len() ==> r@[j1].room_index < r@[j2].room_index,
    {
        let mut out: Vec<HookInvocation> = Vec::new();
        let mut i: usize = 0;
        while i < self.rooms.len()
            invariant
                i <= self.rooms@.len(),
                forall|j: int|
                    0 <= j < out@.len() ==> {
                        let inv = #[trigger] out@[j];
                        &&& eligible(self.rooms@, phase, inv.room_index as int)
                        &&& inv.room_index < i
                        &&& inv.path == self.rooms@[inv.room_index as int].path
                        &&& inv.name == self.rooms@[inv.room_index as int].name
                        &&& Some(inv.command) == spec_hook(
                            self.rooms@[inv.room_index as int].hooks,
                            phase,
                        )
                    },
                forall|k: int|
                    0 <= k < i && #[trigger] eligible(self.rooms@, phase, k) ==> exists|j: int|
                        0 <= j < out@.len() && #[trigger] out@[j].room_index == k,
                forall|j1: int, j2: int|
                    0 <= j1 < j2 < out@.len() ==> out@[j1].room_index < out@[j2].room_index,
            decreases self.rooms@.len() - i,
        {
            let ghost prev_out = out@;
            if self.rooms[i].should_build && !self.rooms[i].errored {
                match hook_of(&self.rooms[i].hooks, phase) {
                    Some(command) => {
                        out.push(
                            HookInvocation {
                                room_index: i,
                                path: self.rooms[i].path.clone(),
                                name: self.rooms[i].name.clone(),
                                command,
                            },
                        );
                    },
                    None => (),
                }
            }
            proof {
                assert(forall|j: int| 0 <= j < prev_out.len() ==> out@[j] == prev_out[j]);
                if eligible(self.rooms@, phase, i as int) {
                    assert(out@[out@.len() - 1].room_index == i);
                }
            }
            i = i + 1;
        }
        out
    }

    /// The cache entries to persist at the end of the run: one for every
    /// room that did not fail, selected or not, carrying the fingerprint
    /// settled during the hash phase. Failed rooms are left out, so their
    /// stale entries survive.
    pub fn finalize_writes(&self) -> (r: Vec<CacheWrite>)
        requires
            forall|i: int|
                0 <= i < self.rooms@.len() && !(#[trigger] self.rooms@[i].errored)
                    ==> self.rooms@[i].latest_hash is Some,
        ensures
            forall|j: int|
                0 <= j < r@.len() ==> {
                    let w = #[trigger] r@[j];
                    &&& 0 <= w.room_index < self.rooms@.len()
                    &&& !self.rooms@[w.room_index as int].errored
                    &&& w.path@ == self.rooms@[w.room_index as int].cache_dir@ + seq!['/']
                        + self.rooms@[w.room_index as int].name@
                    &&& Some(w.fingerprint) == self.rooms@[w.room_index as int].latest_hash
                },
            forall|i: int|
                0 <= i < self.rooms@.len() && !(#[trigger] self.rooms@[i].errored) ==> exists|
                    j: int,
                |
                    0 <= j < r@.len() && #[trigger] r@[j].room_index == i,
            forall|j1: int, j2: int|
                0 <= j1 < j2 < r@.len() ==> r@[j1].room_index < r@[j2].room_index,
    {
        let mut out: Vec<CacheWrite> = Vec::new();
        let mut i: usize = 0;
        while i < self.rooms.len()
            invariant
                i <= self.rooms@.len(),
                forall|k: int|
                    0 <= k < self.rooms@.len() && !(#[trigger] self.rooms@[k].errored)
                        ==> self.rooms@[k].latest_hash is Some,
                forall|j: int|
                    0 <= j < out@.len() ==> {
                        let w = #[trigger] out@[j];
                        &&& 0 <= w.room_index < self.rooms@.len()
                        &&& w.room_index < i
                        &&& !self.rooms@[w.room_index as int].errored
                        &&& w.path@ == self.rooms@[w.room_index as int].cache_dir@ + seq!['/']
                            + self.rooms@[w.room_index as int].name@
                        &&& Some(w.fingerprint) == self.rooms@[w.room_index as int].latest_hash
                    },
                forall|k: int|
                    0 <= k < i && !(#[trigger] self.rooms@[k].errored) ==> exists|j: int|
                        0 <= j < out@.len() && #[trigger] out@[j].room_index == k,
                forall|j1: int, j2: int|
                    0 <= j1 < j2 < out@.len() ==> out@[j1].room_index < out@[j2].room_index,
            decreases self.rooms@.len() - i,
        {
            let ghost prev_out = out@;
            if !self.rooms[i].errored {
                let path = self.rooms[i].cache_path();
                match &self.rooms[i].latest_hash {
                    Some(h) => {
                        out.push(CacheWrite { room_index: i, path, fingerprint: h.clone() });
                    },
                    None => (),
                }
            }
            proof {
                assert(forall|j: int| 0 <= j < prev_out.len() ==> out@[j] == prev_out[j]);
                if !self.rooms@[i as int].errored {
                    assert(out@[out@.len() - 1].room_index == i);
                }
            }
            i = i + 1;
        }
        out
    }

    /// Whether a phase runs at all: it does exactly when some selected room
    /// defines its hook. An inactive phase is skipped outright, banner
    /// included.
    pub fn phase_is_active(&self, phase: Phase) -> (r: bool)
        ensures
            r == exists|i: int|
                0 <= i < self.rooms@.len() && #[trigger] self.rooms@[i].should_build && spec_hook(
                    self.rooms@[i].hooks,
                    phase,
                ) is Some,
    {
        let mut i: usize = 0;
        while i < self.rooms.len()
            invariant
                i <= self.rooms@.len(),
                forall|k: int|
                    0 <= k < i ==> !(#[trigger] self.rooms@[k].should_build && spec_hook(
                        self.rooms@[k].hooks,
                        phase,
                    ) is Some),
            decreases self.rooms@.len() - i,
        {
            if self.rooms[i].should_build {
                let hook = hook_of(&self.rooms[i].hooks, phase);
                if hook.is_some() {
                    return true;
                }
            }
            i = i + 1;
        }
        false
    }
}

} // verus!
