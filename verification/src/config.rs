//! Locating and describing the project configuration.
//!
//! The configuration file is looked for at a base path and then upward,
//! parent directory by parent directory. Whether a path exists on disk is
//! the caller's business: the functions here compute, for a given base path,
//! the candidate file to probe and the next base to try, and decide from the
//! probe's outcome how the search goes on.

use vstd::prelude::*;

verus! {

/// The file name the configuration is stored under.
pub open spec fn config_file_name() -> Seq<char> {
    "roomservice.config.yml"@
}

/// A project's configuration as read from the configuration file.
pub struct Config {
    pub before_all: Option<String>,
    pub rooms: Vec<(String, RoomConfig)>,
    pub after_all: Option<String>,
}

/// One room's entry in the configuration file, together with the run state
/// scratched onto it while the room is processed.
pub struct RoomConfig {
    pub path: String,
    pub include_pattern: String,
    pub before_synchronous: Option<String>,
    pub before: Option<String>,
    pub run_synchronous: Option<String>,
    pub run_parallel: Option<String>,
    pub after: Option<String>,
    pub finally: Option<String>,
    pub error: bool,
    pub new_hash: Option<String>,
}

impl RoomConfig {
    /// Marks this room's run as failed.
    pub fn error(&mut self)
        ensures
            final(self).error,
            final(self).path == old(self).path,
            final(self).include_pattern == old(self).include_pattern,
            final(self).before_synchronous == old(self).before_synchronous,
            final(self).before == old(self).before,
            final(self).run_synchronous == old(self).run_synchronous,
            final(self).run_parallel == old(self).run_parallel,
            final(self).after == old(self).after,
            final(self).finally == old(self).finally,
            final(self).new_hash == old(self).new_hash,
    {
        self.error = true
    }
}

/// A base path joined with a file name, with one separator between them.
pub open spec fn join_path_view(base: Seq<char>, name: Seq<char>) -> Seq<char> {
    if base.len() > 0 && base.last() == '/' {
        base + name
    } else {
        base + seq!['/'] + name
    }
}

/// The base path one directory further up, expressed relative to the
/// starting point: a leading `./` is replaced by `../`, anything else is
/// prefixed with `../`.
pub open spec fn ascend_view(base: Seq<char>) -> Seq<char> {
    if base.len() >= 2 && base[0] == '.' && base[1] == '/' {
        seq!['.', '.', '/'] + base.skip(2)
    } else {
        seq!['.', '.', '/'] + base
    }
}

/// Joins a base path and a file name with one separator.
fn join_path(base: &str, name: &str) -> (r: String)
    ensures
        r@ == join_path_view(base@, name@),
{
    proof {
        reveal_strlit("/");
    }
    let len = base.unicode_len();
    let mut out = String::from_str(base);
    if len == 0 || base.get_char(len - 1) != '/' {
        out.append("/");
    }
    out.append(name);
    proof {
        assert(out@ =~= join_path_view(base@, name@));
    }
    out
}

/// The path where the configuration file would sit for a given base path:
/// the candidate the caller probes on disk.
pub fn find_config_candidate(base_path: &str) -> (r: String)
    ensures
        r@ == join_path_view(base_path@, config_file_name()),
{
    join_path(base_path, "roomservice.config.yml")
}

/// One step of the upward search for the configuration file.
pub enum ConfigSearch {
    /// The configuration file sits at this path.
    Found(String),
    /// Not here; try again from this base path, one directory up.
    Ascend(String),
    /// Not here, and there is no parent left to try.
    NotFound,
}

/// Decides one step of the upward search. `candidate_exists` reports whether
/// the candidate of [`find_config_candidate`] is a file on disk, and
/// `parent_exists` whether the candidate's parent directory is; both are
/// probed by the caller.
pub fn find_config(base_path: &str, candidate_exists: bool, parent_exists: bool) -> (r:
    ConfigSearch)
    ensures
        candidate_exists ==> (r matches ConfigSearch::Found(p) && p@ == join_path_view(
            base_path@,
            config_file_name(),
        )),
        !candidate_exists && parent_exists ==> (r matches ConfigSearch::Ascend(b) && b@
            == ascend_view(base_path@)),
        !candidate_exists && !parent_exists ==> r is NotFound,
{
    if candidate_exists {
        ConfigSearch::Found(find_config_candidate(base_path))
    } else if parent_exists {
        proof {
            reveal_strlit("../");
        }
        let len = base_path.unicode_len();
        let mut next = String::from_str("../");
        if len >= 2 && base_path.get_char(0) == '.' && base_path.get_char(1) == '/' {
            next.append(base_path.substring_char(2, len));
        } else {
            next.append(base_path);
        }
        proof {
            assert(next@ =~= ascend_view(base_path@));
        }
        ConfigSearch::Ascend(next)
    } else {
        ConfigSearch::NotFound
    }
}

/// Where the project root is to be taken from.
pub enum ProjectSearch {
    /// A configuration file was named: its parent directory is the root.
    FromFile(String),
    /// A directory was named: it is the root itself.
    FromDir(String),
    /// Nothing was named: search for the configuration file upward from
    /// this base path.
    SearchFrom(String),
    /// A path was named but nothing sits there.
    NoProject,
}

/// Decides where the project root comes from. `is_file` and `is_dir` report
/// what the named path is on disk; both are false when nothing sits there,
/// and ignored when no path was named.
pub fn find_project(maybe_base_or_file: Option<String>, is_file: bool, is_dir: bool) -> (r:
    ProjectSearch)
    ensures
        maybe_base_or_file is Some && is_file ==> (r matches ProjectSearch::FromFile(p) && p
            == maybe_base_or_file.unwrap()),
        maybe_base_or_file is Some && !is_file && is_dir ==> (r matches ProjectSearch::FromDir(p)
            && p == maybe_base_or_file.unwrap()),
        maybe_base_or_file is Some && !is_file && !is_dir ==> r is NoProject,
        maybe_base_or_file is None ==> (r matches ProjectSearch::SearchFrom(b) && b@ == "./"@),
{
    match maybe_base_or_file {
        Some(base_or_file) => {
            if is_file {
                ProjectSearch::FromFile(base_or_file)
            } else if is_dir {
                ProjectSearch::FromDir(base_or_file)
            } else {
                ProjectSearch::NoProject
            }
        },
        None => ProjectSearch::SearchFrom(String::from_str("./")),
    }
}

/// Whether a path names a configuration file outright, rather than a
/// directory to search: true exactly when `.yml` occurs in it.
pub open spec fn names_yml_file(s: Seq<char>) -> bool {
    exists|k: int| 0 <= k && k + 4 <= s.len() && #[trigger] s.subrange(k, k + 4) == ".yml"@
}

/// Whether the given path names a `.yml` file anywhere in its text.
pub fn path_names_yml_file(path: &str) -> (r: bool)
    ensures
        r == names_yml_file(path@),
{
    proof {
        reveal_strlit(".yml");
    }
    let len = path.unicode_len();
    if len < 4 {
        return false;
    }
    let mut k: usize = 0;
    while k <= len - 4
        invariant
            4 <= len,
            k <= len,
            len == path@.len(),
            ".yml"@ =~= seq!['.', 'y', 'm', 'l'],
            forall|kk: int| 0 <= kk < k ==> #[trigger] path@.subrange(kk, kk + 4) != ".yml"@,
        decreases len - k,
    {
        if path.get_char(k) == '.' && path.get_char(k + 1) == 'y' && path.get_char(k + 2) == 'm'
            && path.get_char(k + 3) == 'l' {
            proof {
                assert(path@.subrange(k as int, k as int + 4) =~= ".yml"@);
            }
            return true;
        }
        proof {
            assert(path@.subrange(k as int, k as int + 4)[0] == path@[k as int]);
            assert(path@.subrange(k as int, k as int + 4) != ".yml"@);
        }
        k = k + 1;
    }
    false
}

} // verus!
