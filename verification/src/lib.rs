//! An incremental build orchestrator for monorepos: a project declares named
//! rooms, each a subproject with a filesystem path and a set of lifecycle
//! hooks. A run fingerprints every room's file tree, compares against the
//! fingerprints persisted by the previous run, and executes the hooks of the
//! changed rooms only, phase by phase, containing each room's failures.
//!
//! This crate holds the decision logic: change detection, room selection,
//! the phase lifecycle, and failure isolation. Probing the filesystem,
//! parsing the configuration file and spawning shell commands are the
//! caller's business; the functions here consume and produce plain values.

pub mod config;
pub mod hash;
pub mod roomservice;

use vstd::prelude::*;

use roomservice::config::RoomConfig;
use roomservice::room::Hooks;

verus! {

/// The pieces joined with the separator between each two: the text the
/// pieces came from.
pub open spec fn join_with(pieces: Seq<Seq<char>>, sep: char) -> Seq<char>
    decreases pieces.len(),
{
    if pieces.len() == 0 {
        Seq::empty()
    } else if pieces.len() == 1 {
        pieces[0]
    } else {
        pieces[0] + seq![sep] + join_with(pieces.drop_first(), sep)
    }
}

/// Appending one more piece appends one separator and the piece.
proof fn lemma_join_with_push(pieces: Seq<Seq<char>>, x: Seq<char>, sep: char)
    ensures
        pieces.len() >= 1 ==> join_with(pieces.push(x), sep) == join_with(pieces, sep) + seq![sep]
            + x,
        pieces.len() == 0 ==> join_with(pieces.push(x), sep) == x,
    decreases pieces.len(),
{
    reveal_with_fuel(join_with, 3);
    if pieces.len() == 0 {
        assert(pieces.push(x) =~= seq![x]);
    } else if pieces.len() == 1 {
        assert(pieces.push(x).drop_first() =~= seq![x]);
        assert(pieces.push(x)[0] == pieces[0]);
        assert(join_with(pieces.push(x), sep) == pieces[0] + seq![sep] + x);
    } else {
        assert(pieces.push(x).drop_first() =~= pieces.drop_first().push(x));
        lemma_join_with_push(pieces.drop_first(), x, sep);
        assert(join_with(pieces.push(x), sep) == pieces[0] + seq![sep] + join_with(
            pieces.drop_first().push(x),
            sep,
        ));
        assert(pieces[0] + seq![sep] + (join_with(pieces.drop_first(), sep) + seq![sep] + x) =~= (
        pieces[0] + seq![sep] + join_with(pieces.drop_first(), sep)) + seq![sep] + x);
    }
}

/// Splits a comma-separated list of room names. The result is pinned down
/// by three facts: it is never empty, no piece contains a comma, and joining
/// the pieces with commas restores the input.
pub fn split_commas(s: &str) -> (r: Vec<String>)
    ensures
        r@.len() >= 1,
        join_with(r.deep_view(), ',') == s@,
        forall|i: int, j: int|
            0 <= i < r@.len() && 0 <= j < r@[i]@.len() ==> #[trigger] r@[i]@[j] != ',',
{
    let len = s.unicode_len();
    let mut pieces: Vec<String> = Vec::new();
    let mut start: usize = 0;
    let mut k: usize = 0;
    while k < len
        invariant
            start <= k <= len,
            len == s@.len(),
            join_with(pieces.deep_view().push(s@.subrange(start as int, k as int)), ',')
                == s@.subrange(0, k as int),
            forall|i: int, j: int|
                0 <= i < pieces@.len() && 0 <= j < pieces@[i]@.len() ==> #[trigger] pieces@[i]@[j]
                    != ',',
            forall|j: int| start <= j < k ==> s@[j] != ',',
        decreases len - k,
    {
        let ghost prev_pieces = pieces.deep_view();
        let ghost prev_current = s@.subrange(start as int, k as int);
        let c = s.get_char(k);
        if c == ',' {
            pieces.push(s.substring_char(start, k).to_owned());
            start = k + 1;
            proof {
                assert(pieces.deep_view() =~= prev_pieces.push(prev_current));
                lemma_join_with_push(prev_pieces.push(prev_current), Seq::empty(), ',');
                assert(s@.subrange(start as int, k as int + 1) =~= Seq::<char>::empty());
                assert(join_with(
                    pieces.deep_view().push(s@.subrange(start as int, k as int + 1)),
                    ',',
                ) =~= s@.subrange(0, k as int + 1));
            }
        } else {
            proof {
                let cur = s@.subrange(start as int, k as int + 1);
                lemma_join_with_push(prev_pieces, prev_current, ',');
                lemma_join_with_push(prev_pieces, cur, ',');
                assert(cur =~= prev_current.push(c));
                if prev_pieces.len() >= 1 {
                    assert(join_with(prev_pieces, ',') + seq![','] + cur =~= (join_with(
                        prev_pieces,
                        ',',
                    ) + seq![','] + prev_current).push(c));
                }
                assert(join_with(pieces.deep_view().push(cur), ',') =~= s@.subrange(
                    0,
                    k as int + 1,
                ));
            }
        }
        k = k + 1;
    }
    let ghost prev_pieces = pieces.deep_view();
    pieces.push(s.substring_char(start, len).to_owned());
    proof {
        assert(pieces.deep_view() =~= prev_pieces.push(s@.subrange(start as int, len as int)));
        assert(s@.subrange(0, len as int) =~= s@);
    }
    pieces
}

/// Whether a name occurs in a list of names.
pub open spec fn name_in(list: Seq<String>, name: Seq<char>) -> bool {
    exists|i: int| 0 <= i < list.len() && list[i]@ == name
}

/// Whether a room of this name is configured.
pub open spec fn room_in(rooms: Seq<(String, RoomConfig)>, name: Seq<char>) -> bool {
    exists|i: int| 0 <= i < rooms.len() && rooms[i].0@ == name
}

/// Whether a name occurs in a list of names.
fn list_contains(list: &Vec<String>, name: &String) -> (r: bool)
    ensures
        r == name_in(list@, name@),
{
    let mut i: usize = 0;
    while i < list.len()
        invariant
            i <= list@.len(),
            forall|ii: int| 0 <= ii < i ==> list@[ii]@ != name@,
        decreases list@.len() - i,
    {
        if list[i].eq(name) {
            return true;
        }
        i = i + 1;
    }
    false
}

/// Checks the room names handed to a `--only` or `--ignore` flag against the
/// configured rooms: `None` when every name is configured, else the index of
/// the first name that is not — naming a room that does not exist is fatal.
pub fn check_room_provided_to_flag(provided_to_flag: &Vec<String>, rooms: &Vec<
    (String, RoomConfig),
>) -> (r: Option<usize>)
    ensures
        r is None ==> forall|i: int|
            0 <= i < provided_to_flag@.len() ==> room_in(rooms@, #[trigger] provided_to_flag@[i]@),
        r matches Some(i) ==> {
            &&& 0 <= i < provided_to_flag@.len()
            &&& !room_in(rooms@, provided_to_flag@[i as int]@)
            &&& forall|ii: int| 0 <= ii < i ==> room_in(rooms@, #[trigger] provided_to_flag@[ii]@)
        },
{
    let mut i: usize = 0;
    while i < provided_to_flag.len()
        invariant
            i <= provided_to_flag@.len(),
            forall|ii: int| 0 <= ii < i ==> room_in(rooms@, #[trigger] provided_to_flag@[ii]@),
        decreases provided_to_flag@.len() - i,
    {
        let name = &provided_to_flag[i];
        let mut found = false;
        let mut j: usize = 0;
        while j < rooms.len()
            invariant
                j <= rooms@.len(),
                found == exists|jj: int| 0 <= jj < j && rooms@[jj].0@ == name@,
            decreases rooms@.len() - j,
        {
            if rooms[j].0.eq(name) {
                found = true;
            }
            j = j + 1;
        }
        if !found {
            return Some(i);
        }
        i = i + 1;
    }
    None
}

/// Whether a room takes part in the run at all, under the `--only` and
/// `--ignore` room filters. An `--ignore` list excludes its rooms; an
/// `--only` list admits its rooms alone; with neither, every room is in.
pub open spec fn spec_room_selected(name: Seq<char>, only: Seq<String>, ignore: Seq<String>) -> bool {
    if ignore.len() > 0 {
        !name_in(ignore, name)
    } else if only.len() > 0 {
        name_in(only, name)
    } else {
        true
    }
}

/// Applies the `--only` and `--ignore` room filters to one room name.
pub fn room_selected(name: &String, only: &Vec<String>, ignore: &Vec<String>) -> (r: bool)
    ensures
        r == spec_room_selected(name@, only@, ignore@),
{
    let mut should_add = true;
    if only.len() > 0 {
        should_add = list_contains(only, name);
    }
    if ignore.len() > 0 {
        should_add = !list_contains(ignore, name);
    }
    should_add
}

/// The two pairs of run modifiers that cannot be combined.
#[derive(Clone, Copy, PartialEq, Eq, Structural, Debug)]
pub enum ModifierConflict {
    OnlyAndIgnore,
    AfterAndNoAfter,
}

/// Validates the run modifiers: `--only` against `--ignore`, `--after`
/// against `--no-after`. At most one of each pair may be supplied; a
/// conflict is fatal before any phase runs.
pub fn check_modifiers(has_only: bool, has_ignore: bool, after: bool, no_after: bool) -> (r: Option<
    ModifierConflict,
>)
    ensures
        has_only && has_ignore ==> r == Some(ModifierConflict::OnlyAndIgnore),
        !(has_only && has_ignore) && after && no_after ==> r == Some(
            ModifierConflict::AfterAndNoAfter,
        ),
        !(has_only && has_ignore) && !(after && no_after) ==> r is None,
{
    if has_only && has_ignore {
        Some(ModifierConflict::OnlyAndIgnore)
    } else if after && no_after {
        Some(ModifierConflict::AfterAndNoAfter)
    } else {
        None
    }
}

/// A clone of an optional command.
fn clone_hook(src: &Option<String>) -> (r: Option<String>)
    ensures
        r == *src,
{
    match src {
        Some(s) => Some(s.clone()),
        None => None,
    }
}

/// The hooks a room enters the run with, after the `--after` and
/// `--no-after` modifiers: `--after` keeps the after hook alone, and
/// `--no-after` drops exactly that hook.
pub fn effective_hooks(room_config: &RoomConfig, after: bool, no_after: bool) -> (r: Hooks)
    ensures
        r.before == (if after {
            Option::<String>::None
        } else {
            room_config.before
        }),
        r.before_synchronously == (if after {
            Option::<String>::None
        } else {
            room_config.before_synchronous
        }),
        r.run_synchronously == (if after {
            Option::<String>::None
        } else {
            room_config.run_synchronous
        }),
        r.run_parallel == (if after {
            Option::<String>::None
        } else {
            room_config.run_parallel
        }),
        r.after == (if no_after {
            Option::<String>::None
        } else {
            room_config.after
        }),
        r.finally == (if after {
            Option::<String>::None
        } else {
            room_config.finally
        }),
{
    Hooks {
        before: if after {
            None
        } else {
            clone_hook(&room_config.before)
        },
        before_synchronously: if after {
            None
        } else {
            clone_hook(&room_config.before_synchronous)
        },
        run_synchronously: if after {
            None
        } else {
            clone_hook(&room_config.run_synchronous)
        },
        run_parallel: if after {
            None
        } else {
            clone_hook(&room_config.run_parallel)
        },
        after: if no_after {
            None
        } else {
            clone_hook(&room_config.after)
        },
        finally: if after {
            None
        } else {
            clone_hook(&room_config.finally)
        },
    }
}

} // verus!
