use nix_opengl_driver::detect::Driver;
use nix_opengl_driver::errors::Error;
use nix_opengl_driver::hash_store::{parse_store_text, HashStore};
use nix_opengl_driver::lifecycle::{cache_write_result, install_step_result, removal_result,
    uninstall_file_paths, StepOutcome};
use nix_opengl_driver::service::{pin_plan, render_service, tool_derivation_path, PinAction};
use nix_opengl_driver::state::{State, StateSlots};
use nix_opengl_driver::tmpfiles::rule_line;

#[test]
fn tool_derivation_path_works() {
    let tool_path = "/nix/store/fdz1cyfchp65rc9rdidyffx1n21i473v-nix-opengl-driver-0.1.0/bin/nix-opengl-driver";
    assert_eq!(
        tool_derivation_path(tool_path),
        "/nix/store/fdz1cyfchp65rc9rdidyffx1n21i473v-nix-opengl-driver-0.1.0"
    );
}

#[test]
fn short_paths_keep_their_full_text() {
    assert_eq!(tool_derivation_path("/usr/bin/tool"), "/usr/bin/tool");
    assert_eq!(tool_derivation_path("relative"), "relative");
}

#[test]
fn state_round_trips_through_save_and_load() {
    let slots = StateSlots { primary: None, backup: None };
    let d = Driver::Nvidia("570.133.07".to_string());
    let (slots, _text) = State::save(slots, &d, "/path/to/result", "2025-03-14T13:12:07+00:00");
    let st = State::load(slots.primary.as_deref(), slots.backup.as_deref()).unwrap();
    assert_eq!(st.active, "/path/to/result");
    assert_eq!(st.detected, "nvidia 570.133.07");
    assert_eq!(st.last_sync, "2025-03-14T13:12:07+00:00");
}

#[test]
fn second_save_moves_first_snapshot_to_backup() {
    let slots = StateSlots { primary: None, backup: None };
    let d1 = Driver::Nvidia("570.133.07".to_string());
    let (slots, text1) = State::save(slots, &d1, "/nix/store/aaa-farm", "2025-03-14T13:12:07+00:00");
    let (slots, text2) = State::save(slots, &Driver::Mesa, "/nix/store/bbb-farm", "2025-03-15T09:00:00+00:00");
    assert_eq!(slots.primary.as_deref(), Some(text2.as_str()));
    assert_eq!(slots.backup.as_deref(), Some(text1.as_str()));
    let backup_state = State::parse(slots.backup.as_deref().unwrap()).unwrap();
    assert_eq!(backup_state.active, "/nix/store/aaa-farm");
    let primary_state = State::parse(slots.primary.as_deref().unwrap()).unwrap();
    assert_eq!(primary_state.detected, "mesa");
}

#[test]
fn first_save_leaves_no_backup() {
    let slots = StateSlots { primary: None, backup: None };
    let (slots, _) = State::save(slots, &Driver::Mesa, "/nix/store/aaa-farm", "t");
    assert!(slots.backup.is_none());
    assert!(slots.primary.is_some());
}

#[test]
fn load_falls_back_to_backup() {
    let slots = StateSlots { primary: None, backup: None };
    let (slots, text) = State::save(slots, &Driver::Mesa, "/nix/store/aaa-farm", "t");
    let st = State::load(Some("scribbles"), Some(text.as_str())).unwrap();
    assert_eq!(st.active, "/nix/store/aaa-farm");
    assert!(State::load(Some("scribbles"), Some("more scribbles")).is_none());
    assert!(State::load(None, None).is_none());
    drop(slots);
}

#[test]
fn state_text_is_json_a_stranger_can_read() {
    let st = State::new_state(
        &Driver::Nvidia("570.133.07".to_string()),
        "/path with \"quotes\" and \\slashes\\",
        "2025-03-14T13:12:07+00:00",
    );
    let text = st.render();
    let v: serde_json::Value = serde_json::from_str(&text).expect("the state file must be JSON");
    assert_eq!(v.get("detected").unwrap().as_str().unwrap(), "nvidia 570.133.07");
    assert_eq!(v.get("active").unwrap().as_str().unwrap(), "/path with \"quotes\" and \\slashes\\");
    assert_eq!(v.get("last_sync").unwrap().as_str().unwrap(), "2025-03-14T13:12:07+00:00");
}

#[test]
fn awkward_characters_survive_the_state_round_trip() {
    let st = State::new_state(&Driver::Mesa, "/a\tb\nc\"d\\e", "now");
    let text = st.render();
    let back = State::parse(&text).unwrap();
    assert_eq!(back.active, "/a\tb\nc\"d\\e");
    assert_eq!(back.detected, "mesa");
    assert_eq!(back.last_sync, "now");
}

#[test]
fn cache_insert_then_get_returns_the_hash() {
    let mut store = HashStore::empty();
    store.insert("570.133.07".to_string(), "sha256-LUPmTFgb=".to_string());
    assert_eq!(store.get("570.133.07"), Some(&"sha256-LUPmTFgb=".to_string()));
    assert_eq!(store.get("999.0"), None);
}

#[test]
fn denied_cache_write_still_reports_success() {
    let mut store = HashStore::empty();
    store.insert("570.133.07".to_string(), "sha256-LUPmTFgb=".to_string());
    let persisted = cache_write_result(&StepOutcome::PermissionDenied)
        .expect("a read-only cache directory must not fail the run");
    assert!(!persisted);
    assert_eq!(store.get("570.133.07"), Some(&"sha256-LUPmTFgb=".to_string()));
}

#[test]
fn other_cache_write_failures_are_fatal() {
    assert!(matches!(
        cache_write_result(&StepOutcome::Failed("disk full".to_string())),
        Err(Error::CacheWrite(_))
    ));
    assert_eq!(cache_write_result(&StepOutcome::Done).unwrap(), true);
}

#[test]
fn cache_insert_overwrites_an_existing_version() {
    let mut store = HashStore::empty();
    store.insert("570.133.07".to_string(), "sha256-old=".to_string());
    store.insert("570.133.07".to_string(), "sha256-new=".to_string());
    assert_eq!(store.get("570.133.07"), Some(&"sha256-new=".to_string()));
    let text = store.render();
    let pairs = parse_store_text(&text).unwrap();
    assert_eq!(pairs.len(), 1);
}

#[test]
fn cache_file_round_trips() {
    let mut store = HashStore::empty();
    store.insert("570.133.07".to_string(), "sha256-LUPmTFgb=".to_string());
    store.insert("565.77".to_string(), "sha256-AAAA=".to_string());
    let text = store.render();
    let pairs = parse_store_text(&text).expect("our own rendering must parse");
    assert_eq!(pairs.len(), 2);
    assert_eq!(pairs[0], ("570.133.07".to_string(), "sha256-LUPmTFgb=".to_string()));
    assert_eq!(pairs[1], ("565.77".to_string(), "sha256-AAAA=".to_string()));
    let reloaded = HashStore::load(Some(text.as_str())).unwrap();
    assert_eq!(reloaded.get("565.77"), Some(&"sha256-AAAA=".to_string()));
}

#[test]
fn awkward_characters_survive_the_cache_round_trip() {
    let mut store = HashStore::empty();
    store.insert("ver \"x\"\\".to_string(), "hash\nvalue".to_string());
    let text = store.render();
    let v: serde_json::Value = serde_json::from_str(&text).expect("the cache file must be JSON");
    assert_eq!(
        v.get("map").unwrap().get("ver \"x\"\\").unwrap().as_str().unwrap(),
        "hash\nvalue"
    );
    let reloaded = HashStore::load(Some(text.as_str())).unwrap();
    assert_eq!(reloaded.get("ver \"x\"\\"), Some(&"hash\nvalue".to_string()));
}

#[test]
fn control_characters_are_escaped_as_json_units() {
    let st = State::new_state(&Driver::Mesa, "a\u{1}b\u{1f}c", "now");
    let text = st.render();
    let v: serde_json::Value = serde_json::from_str(&text).expect("the state file must be JSON");
    assert_eq!(v.get("active").unwrap().as_str().unwrap(), "a\u{1}b\u{1f}c");
    let back = State::parse(&text).unwrap();
    assert_eq!(back.active, "a\u{1}b\u{1f}c");
}

#[test]
fn hexadecimal_escapes_are_accepted_when_parsing() {
    let text = "{\n  \"detected\": \"a\\u0041b\",\n  \"active\": \"\\u001F\",\n  \"last_sync\": \"t\"\n}";
    let st = State::parse(text).unwrap();
    assert_eq!(st.detected, "aAb");
    assert_eq!(st.active, "\u{1f}");
}

#[test]
fn state_parse_rejects_trailing_garbage() {
    let st = State::new_state(&Driver::Mesa, "/p", "t");
    let mut text = st.render();
    assert!(State::parse(&text).is_some());
    text.push('x');
    assert!(State::parse(&text).is_none());
}

#[test]
fn cache_file_is_json_a_stranger_can_read() {
    let mut store = HashStore::empty();
    store.insert("570.133.07".to_string(), "sha256-LUPmTFgb=".to_string());
    let text = store.render();
    let v: serde_json::Value = serde_json::from_str(&text).expect("the cache file must be JSON");
    assert_eq!(
        v.get("map").unwrap().get("570.133.07").unwrap().as_str().unwrap(),
        "sha256-LUPmTFgb="
    );
}

#[test]
fn empty_cache_renders_and_reloads() {
    let store = HashStore::empty();
    let text = store.render();
    assert_eq!(text, "{\n  \"map\": {}\n}");
    let reloaded = HashStore::load(Some(text.as_str())).unwrap();
    assert_eq!(reloaded.get("anything"), None);
}

#[test]
fn missing_cache_file_starts_empty_but_corrupt_one_is_fatal() {
    let store = HashStore::load(None).unwrap();
    assert_eq!(store.get("570.133.07"), None);
    assert!(matches!(HashStore::load(Some("{ not json")), Err(Error::Parse)));
}

#[test]
fn cache_location_follows_privilege() {
    assert_eq!(
        HashStore::store_path(0, Some("/home/u/.local/share"), Some("/home/u")).as_deref(),
        Some("/var/lib/nix-opengl-driver/hashmap.json")
    );
    assert_eq!(
        HashStore::store_path(1000, Some("/home/u/.local/share"), Some("/home/u")).as_deref(),
        Some("/home/u/.local/share/nix-opengl-driver/hashmap.json")
    );
    assert_eq!(
        HashStore::store_path(1000, None, Some("/home/u")).as_deref(),
        Some("/home/u/.local/state/nix-opengl-driver/hashmap.json")
    );
    assert_eq!(HashStore::store_path(1000, None, None), None);
}

#[test]
fn uninstall_with_nothing_installed_is_a_no_op() {
    for _path in uninstall_file_paths() {
        assert!(removal_result(&StepOutcome::NotFound).is_ok());
    }
    // the service unit, the running service and the rule file are absent too
    assert!(removal_result(&StepOutcome::NotFound).is_ok());
    assert!(removal_result(&StepOutcome::NotFound).is_ok());
    assert!(removal_result(&StepOutcome::NotFound).is_ok());
}

#[test]
fn uninstall_stops_at_permission_denied() {
    assert!(matches!(
        removal_result(&StepOutcome::PermissionDenied),
        Err(Error::Lifecycle(_))
    ));
    assert!(removal_result(&StepOutcome::Done).is_ok());
    match removal_result(&StepOutcome::Failed("io error".to_string())) {
        Err(Error::Lifecycle(m)) => assert_eq!(m, "io error"),
        _ => panic!("an unexpected failure must abort"),
    }
}

#[test]
fn install_steps_tolerate_nothing() {
    assert!(install_step_result(&StepOutcome::Done).is_ok());
    assert!(matches!(
        install_step_result(&StepOutcome::PermissionDenied),
        Err(Error::Lifecycle(_))
    ));
    assert!(matches!(
        install_step_result(&StepOutcome::Failed("boom".to_string())),
        Err(Error::Lifecycle(_))
    ));
}

#[test]
fn uninstall_removes_the_three_files_in_order() {
    let paths = uninstall_file_paths();
    assert_eq!(paths[0], "/nix/var/nix/gcroots/nix-opengl-driver/current");
    assert_eq!(paths[1], "/var/lib/nix-opengl-driver/state.json");
    assert_eq!(paths[2], "/var/lib/nix-opengl-driver/state.json.bak");
}

#[test]
fn store_binaries_are_pinned_by_derivation_root() {
    match pin_plan("/nix/store/fdz1cyfchp65rc9rdidyffx1n21i473v-nix-opengl-driver-0.1.0/bin/nix-opengl-driver") {
        PinAction::PinTool(p) => {
            assert_eq!(p, "/nix/store/fdz1cyfchp65rc9rdidyffx1n21i473v-nix-opengl-driver-0.1.0")
        },
        PinAction::SkipWithWarning => panic!("a store binary must be pinned"),
    }
    assert!(matches!(pin_plan("/usr/local/bin/tool"), PinAction::SkipWithWarning));
}

#[test]
fn service_unit_names_the_tool_binary() {
    let tpl = "[Service]\nExecStart={{tool_path}} sync\n";
    let unit = render_service("/nix/store/abc-tool/bin/tool", tpl).unwrap();
    assert_eq!(unit, "[Service]\nExecStart=/nix/store/abc-tool/bin/tool sync\n");
}

#[test]
fn the_rule_links_the_runtime_symlink_to_the_gcroot() {
    assert_eq!(
        rule_line(),
        "L /run/opengl-driver - - - - /nix/var/nix/gcroots/nix-opengl-driver/current\n"
    );
}
