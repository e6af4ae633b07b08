//! A room: one named subproject with a path, a set of lifecycle hooks, and
//! the mutable state of the current run.

use vstd::prelude::*;

use crate::hash::{fingerprint_of, hash_bytes, lemma_fingerprint_injective, meow_of};

verus! {

/// The optional shell command for each lifecycle hook of a room.
pub struct Hooks {
    pub before: Option<String>,
    pub before_synchronously: Option<String>,
    pub run_synchronously: Option<String>,
    pub run_parallel: Option<String>,
    pub after: Option<String>,
    pub finally: Option<String>,
}

/// A room's immutable configuration together with its run state.
///
/// `should_build`, `latest_hash` and `errored` belong to the run in
/// progress: they are written only by the task handling this room.
pub struct RoomBuilder {
    pub name: String,
    pub path: String,
    pub cache_dir: String,
    pub include_pattern: String,
    pub hooks: Hooks,
    pub should_build: bool,
    pub latest_hash: Option<String>,
    pub errored: bool,
}

/// Whether a room must be rebuilt, given the force flag, the cache entry of
/// the previous run, and the fingerprint just computed.
pub open spec fn build_decision(force: bool, prev: Option<Seq<char>>, curr: Seq<char>) -> bool {
    force || match prev {
        Some(p) => p != curr,
        None => true,
    }
}

/// An unchanged room is not selected again: without the force flag, a room
/// whose fresh content carries the fingerprint persisted by the previous
/// run is not rebuilt.
pub proof fn lemma_unchanged_room_not_selected(prev_content: Seq<u8>, content: Seq<u8>)
    requires
        content == prev_content,
    ensures
        !build_decision(
            false,
            Some(fingerprint_of(prev_content)),
            fingerprint_of(content),
        ),
{
}

/// A room whose content has changed between two runs — changed as the
/// digest sees it — is selected on the next run, force flag or not.
pub proof fn lemma_changed_room_selected(force: bool, prev_content: Seq<u8>, content: Seq<u8>)
    requires
        meow_of(prev_content) != meow_of(content),
    ensures
        build_decision(
            force,
            Some(fingerprint_of(prev_content)),
            fingerprint_of(content),
        ),
{
    if fingerprint_of(prev_content) == fingerprint_of(content) {
        lemma_fingerprint_injective(prev_content, content);
    }
}

/// With the force flag set, every room is selected, whatever the
/// fingerprint comparison says.
pub proof fn lemma_force_selects_all(prev: Option<Seq<char>>, curr: Seq<char>)
    ensures
        build_decision(true, prev, curr),
{
}

impl RoomBuilder {
    /// A freshly registered room: marked to build, no fingerprint yet, no
    /// error.
    pub fn new(name: String, path: String, cache_dir: String, include_pattern: String, hooks: Hooks) -> (r:
        RoomBuilder)
        ensures
            r.name == name,
            r.path == path,
            r.cache_dir == cache_dir,
            r.include_pattern == include_pattern,
            r.hooks == hooks,
            r.should_build,
            r.latest_hash is None,
            !r.errored,
    {
        RoomBuilder {
            name,
            path,
            cache_dir,
            include_pattern,
            hooks,
            errored: false,
            should_build: true,
            latest_hash: None,
        }
    }

    /// The fingerprint of the content gathered from this room's file tree.
    pub fn generate_hash(&self, content: &[u8]) -> (r: String)
        ensures
            r@ == fingerprint_of(content@),
    {
        hash_bytes(content)
    }

    /// The path of this room's cache entry: one file inside the cache
    /// directory, named after the room.
    pub fn cache_path(&self) -> (r: String)
        ensures
            r@ == self.cache_dir@ + seq!['/'] + self.name@,
    {
        proof {
            reveal_strlit("/");
        }
        let mut path = String::new();
        path.append(self.cache_dir.as_str());
        path.append("/");
        path.append(self.name.as_str());
        proof {
            assert(path@ =~= self.cache_dir@ + seq!['/'] + self.name@);
        }
        path
    }

    /// Marks the room as failed. Sticky: nothing within a run clears it.
    pub fn set_errored(&mut self)
        ensures
            final(self).errored,
            final(self).name == old(self).name,
            final(self).path == old(self).path,
            final(self).cache_dir == old(self).cache_dir,
            final(self).include_pattern == old(self).include_pattern,
            final(self).hooks == old(self).hooks,
            final(self).should_build == old(self).should_build,
            final(self).latest_hash == old(self).latest_hash,
    {
        self.errored = true
    }

    /// Settles whether this room must be rebuilt: fingerprints the content
    /// gathered from its file tree, compares with the previous run's cache
    /// entry, and records both the decision and the fresh fingerprint.
    pub fn should_build(&mut self, force: bool, prev: Option<String>, content: &[u8])
        ensures
            final(self).should_build == build_decision(
                force,
                prev.deep_view(),
                fingerprint_of(content@),
            ),
            final(self).latest_hash matches Some(h) && h@ == fingerprint_of(content@),
            final(self).name == old(self).name,
            final(self).path == old(self).path,
            final(self).cache_dir == old(self).cache_dir,
            final(self).include_pattern == old(self).include_pattern,
            final(self).hooks == old(self).hooks,
            final(self).errored == old(self).errored,
    {
        let curr = self.generate_hash(content);
        if force {
            self.should_build = true
        } else {
            match &prev {
                Some(old_hash) => {
                    if curr.eq(old_hash) {
                        self.should_build = false
                    } else {
                        self.should_build = true;
                    }
                },
                None => self.should_build = true,
            }
        }
        self.latest_hash = Some(curr);
    }
}

} // verus!
