//! The configuration data model, as the orchestrator consumes it: plain
//! values handed over once the configuration file has been parsed.

use vstd::prelude::*;

verus! {

/// A whole project's configuration: two optional global hooks and the rooms,
/// each under its name. Names are unique; the entries arrive in ascending
/// name order, as the name-keyed source of truth yields them.
pub struct Config {
    pub before_all: Option<String>,
    pub rooms: Vec<(String, RoomConfig)>,
    pub after_all: Option<String>,
}

/// One room's entry in the configuration file.
pub struct RoomConfig {
    pub path: String,
    pub include_pattern: String,
    pub before: Option<String>,
    pub before_synchronous: Option<String>,
    pub run_synchronous: Option<String>,
    pub run_parallel: Option<String>,
    pub after: Option<String>,
    pub finally: Option<String>,
}

/// The `include` pattern a room gets when its entry names none.
pub fn default_include() -> (r: String)
    ensures
        r@ == "./**/*.*"@,
{
    String::from_str("./**/*.*")
}

} // verus!
