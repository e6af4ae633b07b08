use roomservice::hash::hash_bytes;
use roomservice::roomservice::room::{Hooks, RoomBuilder};
use roomservice::roomservice::{
    hook_of, lifecycle, Concurrency, Phase, RoomserviceBuilder, RunSelection,
};

fn no_hooks() -> Hooks {
    Hooks {
        before: None,
        before_synchronously: None,
        run_synchronously: None,
        run_parallel: None,
        after: None,
        finally: None,
    }
}

fn room(name: &str, hooks: Hooks) -> RoomBuilder {
    RoomBuilder::new(
        name.to_string(),
        format!("./{}", name),
        ".roomservice".to_string(),
        "./**/*.*".to_string(),
        hooks,
    )
}

fn registry(force: bool) -> RoomserviceBuilder {
    RoomserviceBuilder::new("/project".to_string(), "/project/.roomservice".to_string(), force)
}

#[test]
fn first_run_selects_every_room() {
    let mut web = room("web", no_hooks());
    web.should_build(false, None, b"web sources");
    assert!(web.should_build);
    assert_eq!(web.latest_hash, Some(hash_bytes(b"web sources")));
}

#[test]
fn unchanged_room_is_not_selected_again() {
    let content: &[u8] = b"identical file-tree content";
    let mut first = room("web", no_hooks());
    first.should_build(false, None, content);
    let persisted = first.latest_hash.clone().unwrap();

    let mut second = room("web", no_hooks());
    second.should_build(false, Some(persisted), content);
    assert!(!second.should_build);
}

#[test]
fn changed_room_is_selected() {
    let mut first = room("web", no_hooks());
    first.should_build(false, None, b"version one");
    let persisted = first.latest_hash.clone().unwrap();

    let mut second = room("web", no_hooks());
    second.should_build(false, Some(persisted), b"version two");
    assert!(second.should_build);
}

#[test]
fn force_selects_unchanged_room() {
    let content: &[u8] = b"stable content";
    let persisted = hash_bytes(content);
    let mut r = room("web", no_hooks());
    r.should_build(true, Some(persisted), content);
    assert!(r.should_build);
}

#[test]
fn set_errored_is_sticky_and_local() {
    let mut r = room("api", no_hooks());
    assert!(!r.errored);
    r.set_errored();
    assert!(r.errored);
    assert_eq!(r.name, "api");
    assert!(r.should_build);
}

#[test]
fn cache_path_is_cache_dir_slash_name() {
    let r = room("web", no_hooks());
    assert_eq!(r.cache_path(), ".roomservice/web");
}

#[test]
fn lifecycle_order_and_concurrency() {
    let order = lifecycle();
    assert_eq!(order.len(), 5);
    assert!(matches!(order[0], (Phase::BeforeSynchronously, Concurrency::Sequential)));
    assert!(matches!(order[1], (Phase::Before, Concurrency::Parallel)));
    assert!(matches!(order[2], (Phase::RunParallel, Concurrency::Parallel)));
    assert!(matches!(order[3], (Phase::RunSynchronously, Concurrency::Sequential)));
    assert!(matches!(order[4], (Phase::After, Concurrency::Parallel)));
}

#[test]
fn phase_commands_cover_eligible_rooms_in_order() {
    let mut rs = registry(false);
    let mut hooks_web = no_hooks();
    hooks_web.run_parallel = Some("echo build-web".to_string());
    let mut hooks_api = no_hooks();
    hooks_api.run_parallel = Some("echo build-api".to_string());
    let mut hooks_docs = no_hooks();
    hooks_docs.run_parallel = Some("echo build-docs".to_string());

    rs.add_room(room("api", hooks_api), Some("/project/api".to_string())).unwrap();
    rs.add_room(room("docs", hooks_docs), Some("/project/docs".to_string())).unwrap();
    rs.add_room(room("web", hooks_web), Some("/project/web".to_string())).unwrap();

    // api errors, docs was not selected, web stays eligible.
    rs.rooms[0].set_errored();
    rs.rooms[1].should_build = false;

    let cmds = rs.phase_commands(Phase::RunParallel);
    assert_eq!(cmds.len(), 1);
    assert_eq!(cmds[0].room_index, 2);
    assert_eq!(cmds[0].name, "web");
    assert_eq!(cmds[0].path, "/project/web");
    assert_eq!(cmds[0].command, "echo build-web");
}

#[test]
fn phase_commands_empty_for_undefined_hook() {
    let mut rs = registry(false);
    let mut hooks = no_hooks();
    hooks.run_parallel = Some("echo x".to_string());
    rs.add_room(room("web", hooks), Some("/project/web".to_string())).unwrap();
    let cmds = rs.phase_commands(Phase::After);
    assert!(cmds.is_empty());
}

#[test]
fn phase_is_active_only_for_selected_rooms() {
    let mut rs = registry(false);
    let mut hooks = no_hooks();
    hooks.after = Some("echo after".to_string());
    rs.add_room(room("web", hooks), Some("/project/web".to_string())).unwrap();
    assert!(rs.phase_is_active(Phase::After));
    rs.rooms[0].should_build = false;
    // The only room with this hook is not selected: the phase is skipped,
    // banner included.
    assert!(!rs.phase_is_active(Phase::After));
    assert!(!rs.phase_is_active(Phase::Before));
}

#[test]
fn diff_names_lists_selected_rooms_in_order() {
    let mut rs = registry(false);
    rs.add_room(room("api", no_hooks()), Some("/project/api".to_string())).unwrap();
    rs.add_room(room("docs", no_hooks()), Some("/project/docs".to_string())).unwrap();
    rs.add_room(room("web", no_hooks()), Some("/project/web".to_string())).unwrap();
    rs.rooms[1].should_build = false;
    assert_eq!(rs.diff_names(), vec!["api".to_string(), "web".to_string()]);
}

#[test]
fn select_reports_nothing_changed() {
    let mut rs = registry(false);
    rs.add_room(room("web", no_hooks()), Some("/project/web".to_string())).unwrap();
    rs.rooms[0].should_build = false;
    assert!(matches!(rs.select(false, false), RunSelection::NothingChanged));
}

#[test]
fn select_update_hashes_only_wins() {
    let mut rs = registry(false);
    rs.add_room(room("web", no_hooks()), Some("/project/web".to_string())).unwrap();
    assert!(matches!(rs.select(true, true), RunSelection::UpdateHashesOnly));
}

#[test]
fn select_dry_run_reports_changed_rooms_without_running() {
    let mut rs = registry(false);
    rs.add_room(room("api", no_hooks()), Some("/project/api".to_string())).unwrap();
    rs.add_room(room("web", no_hooks()), Some("/project/web".to_string())).unwrap();
    rs.rooms[0].should_build = false;
    match rs.select(false, true) {
        RunSelection::DryRun(names) => assert_eq!(names, vec!["web".to_string()]),
        _ => panic!("expected a dry run"),
    }
}

#[test]
fn select_proceeds_with_changed_rooms() {
    let mut rs = registry(false);
    rs.add_room(room("web", no_hooks()), Some("/project/web".to_string())).unwrap();
    match rs.select(false, false) {
        RunSelection::Proceed(names) => assert_eq!(names, vec!["web".to_string()]),
        _ => panic!("expected the phases to go ahead"),
    }
}

#[test]
fn errored_room_keeps_its_old_cache_entry() {
    let mut rs = registry(false);
    rs.add_room(room("api", no_hooks()), Some("/project/api".to_string())).unwrap();
    rs.add_room(room("web", no_hooks()), Some("/project/web".to_string())).unwrap();
    rs.rooms[0].should_build(false, None, b"api content");
    rs.rooms[1].should_build(false, None, b"web content");
    rs.rooms[0].set_errored();

    let writes = rs.finalize_writes();
    // The failed room is left out: its stale entry survives; the healthy
    // room's entry is written as usual.
    assert_eq!(writes.len(), 1);
    assert_eq!(writes[0].room_index, 1);
    assert_eq!(writes[0].path, ".roomservice/web");
    assert_eq!(writes[0].fingerprint, hash_bytes(b"web content"));
}

#[test]
fn finalize_writes_covers_unchanged_rooms_too() {
    let content: &[u8] = b"unchanged";
    let persisted = hash_bytes(content);
    let mut rs = registry(false);
    rs.add_room(room("web", no_hooks()), Some("/project/web".to_string())).unwrap();
    rs.rooms[0].should_build(false, Some(persisted.clone()), content);
    assert!(!rs.rooms[0].should_build);
    // An unchanged room still has its entry rewritten, healing a missing or
    // corrupt cache file.
    let writes = rs.finalize_writes();
    assert_eq!(writes.len(), 1);
    assert_eq!(writes[0].fingerprint, persisted);
}

#[test]
fn had_errors_reports_any_failed_room() {
    let mut rs = registry(false);
    rs.add_room(room("api", no_hooks()), Some("/project/api".to_string())).unwrap();
    rs.add_room(room("web", no_hooks()), Some("/project/web".to_string())).unwrap();
    assert!(!rs.had_errors());
    rs.rooms[1].set_errored();
    assert!(rs.had_errors());
}

#[test]
fn add_room_rejects_missing_path() {
    let mut rs = registry(false);
    let err = rs.add_room(room("ghost", no_hooks()), None).unwrap_err();
    assert_eq!(err.name, "ghost");
    assert_eq!(err.path, "./ghost");
    assert!(rs.rooms.is_empty());
}

#[test]
fn add_room_canonicalizes_the_path() {
    let mut rs = registry(false);
    rs.add_room(room("web", no_hooks()), Some("/project/web".to_string())).unwrap();
    assert_eq!(rs.rooms.len(), 1);
    assert_eq!(rs.rooms[0].path, "/project/web");
    assert_eq!(rs.rooms[0].name, "web");
}

#[test]
fn global_hooks_are_optional_and_independent() {
    let mut rs = registry(false);
    assert!(rs.before_all.is_none());
    assert!(rs.after_all.is_none());
    rs.add_before_all("yarn install");
    assert_eq!(rs.before_all, Some("yarn install".to_string()));
    assert!(rs.after_all.is_none());
    rs.add_after_all("yarn audit");
    assert_eq!(rs.after_all, Some("yarn audit".to_string()));
}

#[test]
fn default_registry_points_at_the_working_directory() {
    let rs = RoomserviceBuilder::default();
    assert_eq!(rs.project, "./");
    assert_eq!(rs.cache_dir, ".roomservice");
    assert!(!rs.force);
    assert!(rs.rooms.is_empty());
}

#[test]
fn hook_of_picks_the_phase_hook() {
    let hooks = Hooks {
        before: Some("b".to_string()),
        before_synchronously: Some("bs".to_string()),
        run_synchronously: Some("rs".to_string()),
        run_parallel: Some("rp".to_string()),
        after: Some("a".to_string()),
        finally: Some("f".to_string()),
    };
    assert_eq!(hook_of(&hooks, Phase::Before), Some("b".to_string()));
    assert_eq!(hook_of(&hooks, Phase::BeforeSynchronously), Some("bs".to_string()));
    assert_eq!(hook_of(&hooks, Phase::RunSynchronously), Some("rs".to_string()));
    assert_eq!(hook_of(&hooks, Phase::RunParallel), Some("rp".to_string()));
    assert_eq!(hook_of(&hooks, Phase::After), Some("a".to_string()));
    assert_eq!(hook_of(&no_hooks(), Phase::Before), None);
}
