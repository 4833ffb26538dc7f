use townfeed::merge::{merge_areas, marker_key, AreaMarker};
use townfeed::pipeline::{apply_cycle, error_is_transient, plan_cycle, status_is_success,
    FetchOutcome};
use townfeed::repository::TownRepository;
use townfeed::town::build_town;

fn marker(name: &str, desc: &str) -> AreaMarker {
    AreaMarker { name: name.to_string(), desc: Some(desc.to_string()) }
}

#[test]
fn marker_keys_split_on_double_underscore() {
    assert_eq!(marker_key("Foo__plot1"), "Foo");
    assert_eq!(marker_key("Plain"), "Plain");
    assert_eq!(marker_key("A__B__C"), "A");
    assert_eq!(marker_key("Foo__home"), "Foo");
}

#[test]
fn primary_and_home_descriptors_merge() {
    let markers = vec![marker("Foo__plot1", "A"), marker("Foo__home", "B")];
    let merged = merge_areas(&markers);
    assert_eq!(merged.len(), 1);
    assert_eq!(merged[0].key, "Foo");
    assert_eq!(merged[0].desc, "A\nB");
}

#[test]
fn home_only_groups_produce_nothing() {
    let markers = vec![marker("Bar__home", "B")];
    let merged = merge_areas(&markers);
    assert_eq!(merged.len(), 0);
}

#[test]
fn last_descriptor_wins_within_a_group() {
    let markers = vec![
        marker("Foo__plot1", "old"),
        marker("Foo__plot2", "new"),
        marker("Foo__home", "h1"),
        marker("Foo__home", "h2"),
    ];
    let merged = merge_areas(&markers);
    assert_eq!(merged.len(), 1);
    assert_eq!(merged[0].desc, "new\nh2");
}

#[test]
fn primary_without_text_is_skipped() {
    let markers = vec![
        AreaMarker { name: "Foo__plot1".to_string(), desc: None },
        marker("Foo__home", "B"),
        marker("Ok__plot1", "fine"),
    ];
    let merged = merge_areas(&markers);
    assert_eq!(merged.len(), 1);
    assert_eq!(merged[0].key, "Ok");
    assert_eq!(merged[0].desc, "fine");
}

#[test]
fn keys_come_in_first_appearance_order() {
    let markers = vec![
        marker("B__plot", "b"),
        marker("A__plot", "a"),
        marker("B__home", "bh"),
    ];
    let merged = merge_areas(&markers);
    let keys: Vec<&str> = merged.iter().map(|m| m.key.as_str()).collect();
    assert_eq!(keys, vec!["B", "A"]);
}

#[test]
fn latest_snapshot_wins_regardless_of_arrival_order() {
    let desc = "<span style=\"font-weight:bold\">Mayor</span>: Alice<br />";
    let older = build_town("Foo", desc, 100);
    let newer = build_town("Foo", desc, 200);

    let mut repo = TownRepository::new();
    repo.put(older);
    repo.put(newer);
    let got = repo.get_latest("foo").expect("key must be present");
    assert_eq!(got.last_updated, 200);

    let older = build_town("Foo", desc, 100);
    let newer = build_town("Foo", desc, 200);
    let mut repo_swapped = TownRepository::new();
    repo_swapped.put(newer);
    repo_swapped.put(older);
    let got = repo_swapped.get_latest("foo").expect("key must be present");
    assert_eq!(got.last_updated, 200);
}

#[test]
fn lookup_is_case_insensitive() {
    let desc = "<span style=\"font-weight:bold\">Mayor</span>: Alice<br />";
    let mut repo = TownRepository::new();
    repo.put(build_town("AsTaRtE", desc, 1));
    let got = repo.get_town("ASTARTE").expect("case-insensitive lookup");
    assert_eq!(got.town_name, "AsTaRtE");
    assert_eq!(got.town_name_lower, "astarte");
    assert!(repo.get_town("elsewhere").is_none());
}

#[test]
fn persisted_records_keep_the_key_invariant() {
    let desc = "<span style=\"font-weight:bold\">Mayor</span>: Alice<br />";
    let mut repo = TownRepository::new();
    repo.put(build_town("Foo", desc, 1));
    repo.put(build_town("MiXeD", desc, 2));
    for name in ["foo", "mixed"] {
        let got = repo.get_latest(name).expect("present");
        assert_eq!(got.town_name_lower, got.town_name.to_lowercase());
    }
}

#[test]
fn http_status_classification() {
    assert!(status_is_success(200));
    assert!(status_is_success(204));
    assert!(!status_is_success(199));
    assert!(!status_is_success(300));
    assert!(!status_is_success(404));
    assert!(!status_is_success(500));
}

#[test]
fn transient_persistence_errors_are_recognized() {
    assert!(error_is_transient("ValidationException: one or more parameter values were invalid"));
    assert!(!error_is_transient("ProvisionedThroughputExceededException"));
    assert!(!error_is_transient(""));
}

#[test]
fn failed_cycles_plan_nothing_and_do_not_touch_the_store() {
    let mut repo = TownRepository::new();
    let outcomes = [
        FetchOutcome::Transport,
        FetchOutcome::Response(500, "{}".to_string()),
        FetchOutcome::Response(200, "not json at all".to_string()),
        FetchOutcome::Response(200, "{\"sets\":{}}".to_string()),
        FetchOutcome::Response(200, "{\"sets\":{\"towny.markerset\":{}}}".to_string()),
    ];
    for outcome in outcomes {
        assert_eq!(plan_cycle(&outcome, 42).len(), 0);
        apply_cycle(&mut repo, &outcome, 42);
        assert_eq!(repo.len(), 0);
    }
}

#[test]
fn a_successful_cycle_persists_merged_records() {
    let body = [
        "{\"sets\":{\"towny.markerset\":{\"areas\":{",
        "\"Astarte__plot\":{\"desc\":\"<span style=\\\"font-weight:bold\\\">Bank</span>: $10.50<br />\"},",
        "\"Astarte__home\":{\"desc\":\"<span style=\\\"font-weight:bold\\\">Mayor</span>: Zoe<br />\"},",
        "\"Lonely__home\":{\"desc\":\"ignored\"}",
        "}}}}",
    ]
    .concat();
    let outcome = FetchOutcome::Response(200, body.to_string());
    let mut repo = TownRepository::new();
    apply_cycle(&mut repo, &outcome, 777);
    assert_eq!(repo.len(), 1);
    let got = repo.get_latest("astarte").expect("merged entity persisted");
    assert_eq!(got.town_name, "Astarte");
    assert_eq!(got.bank, 1050);
    assert_eq!(got.mayor, "Zoe");
    assert_eq!(got.last_updated, 777);
    assert!(repo.get_latest("lonely").is_none());
}

#[test]
fn repeated_cycles_supersede_by_timestamp() {
    let body = [
        "{\"sets\":{\"towny.markerset\":{\"areas\":{",
        "\"Foo__plot\":{\"desc\":\"<span style=\\\"font-weight:bold\\\">Bank</span>: $1<br />\"}",
        "}}}}",
    ]
    .concat();
    let mut repo = TownRepository::new();
    apply_cycle(&mut repo, &FetchOutcome::Response(200, body.to_string()), 100);
    apply_cycle(&mut repo, &FetchOutcome::Response(200, body.to_string()), 200);
    assert_eq!(repo.len(), 2);
    let got = repo.get_latest("foo").expect("present");
    assert_eq!(got.last_updated, 200);
}
