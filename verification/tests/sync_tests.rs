use hedit::sync::{
    plan_round, select_candidates, sync_settings, HostsFileMetadata, Round, SyncAction, SyncCycle,
    SyncSettings, SyncStatus, SETTINGS_CHECK_INTERVAL_SECS, STARTUP_DELAY_SECS,
};

fn file(id: &str, kind: &str, url: Option<&str>, active: bool, combo: bool) -> HostsFileMetadata {
    HostsFileMetadata {
        id: id.to_string(),
        name: format!("name of {}", id),
        file_type: kind.to_string(),
        remote_url: url.map(|u| u.to_string()),
        is_active: active,
        is_combo: combo,
    }
}

fn report(status: SyncStatus, message: &str) -> SyncAction {
    SyncAction::Report { status, message: message.to_string() }
}

#[test]
fn candidates_are_remote_with_url_or_active_combo() {
    let files = vec![
        file("a", "remote", Some("https://a.example/"), false, false),
        file("b", "local", None, true, false),
        file("c", "remote", None, false, false),
        file("d", "remote", Some(""), true, false),
        file("e", "local", None, true, true),
        file("f", "local", None, false, true),
        file("g", "local", Some("https://g.example/"), false, false),
    ];
    let chosen = select_candidates(&files);
    let ids: Vec<&str> = chosen.iter().map(|f| f.id.as_str()).collect();
    assert_eq!(ids, vec!["a", "e"]);
    assert_eq!(chosen[0], files[0]);
    assert_eq!(chosen[1], files[4]);
}

#[test]
fn cycle_without_candidates_is_idle() {
    let (cycle, actions) = SyncCycle::start(&vec![file("b", "local", None, true, false)]);
    assert!(cycle.is_finished());
    assert_eq!(actions, vec![report(SyncStatus::Idle, "No remote hosts files to sync")]);
    let (empty, actions) = SyncCycle::start(&vec![]);
    assert!(empty.is_finished());
    assert_eq!(actions, vec![report(SyncStatus::Idle, "No remote hosts files to sync")]);
}

#[test]
fn broken_candidate_does_not_stop_the_cycle() {
    let files = vec![
        file("broken", "remote", Some("https://broken.example/"), false, false),
        file("combo", "local", None, true, true),
    ];
    let (mut cycle, actions) = SyncCycle::start(&files);
    assert!(!cycle.is_finished());
    assert_eq!(
        actions,
        vec![
            report(SyncStatus::InProgress, "Syncing remote hosts..."),
            SyncAction::Fetch { url: "https://broken.example/".to_string(), file_name: "broken.hosts".to_string() },
        ]
    );
    let actions = cycle.fetched(Err("dns failure".to_string()));
    assert!(cycle.is_finished());
    assert_eq!(
        actions,
        vec![
            report(SyncStatus::Error("Sync failed: dns failure".to_string()), "Sync failed: dns failure"),
            SyncAction::Install { file_name: "combo.hosts".to_string() },
            report(SyncStatus::Success, "Sync completed successfully"),
        ]
    );
    assert_eq!(cycle.fetched(Ok(())), vec![]);
}

#[test]
fn fetched_document_is_announced_and_installed_when_active() {
    let files = vec![
        file("one", "remote", Some("https://one.example/"), true, false),
        file("two", "remote", Some("https://two.example/"), false, false),
    ];
    let (mut cycle, actions) = SyncCycle::start(&files);
    assert_eq!(actions.len(), 2);
    let actions = cycle.fetched(Ok(()));
    assert_eq!(
        actions,
        vec![
            SyncAction::Announce { id: "one".to_string() },
            SyncAction::Install { file_name: "one.hosts".to_string() },
            SyncAction::Fetch { url: "https://two.example/".to_string(), file_name: "two.hosts".to_string() },
        ]
    );
    assert!(!cycle.is_finished());
    let actions = cycle.fetched(Ok(()));
    assert_eq!(
        actions,
        vec![
            SyncAction::Announce { id: "two".to_string() },
            report(SyncStatus::Success, "Sync completed successfully"),
        ]
    );
    assert!(cycle.is_finished());
}

#[test]
fn combo_candidate_first_is_installed_without_a_fetch() {
    let files = vec![
        file("combo", "combo", None, true, true),
        file("r", "remote", Some("https://r.example/"), false, false),
    ];
    let (cycle, actions) = SyncCycle::start(&files);
    assert!(!cycle.is_finished());
    assert_eq!(
        actions,
        vec![
            report(SyncStatus::InProgress, "Syncing remote hosts..."),
            SyncAction::Install { file_name: "combo.hosts".to_string() },
            SyncAction::Fetch { url: "https://r.example/".to_string(), file_name: "r.hosts".to_string() },
        ]
    );
}

#[test]
fn status_labels() {
    assert_eq!(SyncStatus::Idle.label(), "idle");
    assert_eq!(SyncStatus::InProgress.label(), "in_progress");
    assert_eq!(SyncStatus::Success.label(), "success");
    assert_eq!(SyncStatus::Error("x".to_string()).label(), "error");
}

#[test]
fn settings_defaults() {
    assert_eq!(sync_settings(None, None), SyncSettings { enabled: false, interval_hours: 24 });
    assert_eq!(sync_settings(Some(true), Some(6)), SyncSettings { enabled: true, interval_hours: 6 });
    assert_eq!(sync_settings(Some(false), None), SyncSettings { enabled: false, interval_hours: 24 });
}

#[test]
fn rounds_of_the_periodic_sync() {
    assert_eq!(STARTUP_DELAY_SECS, 10);
    assert_eq!(SETTINGS_CHECK_INTERVAL_SECS, 3600);
    assert_eq!(plan_round(None, false), Round::Wait { seconds: 3600 });
    assert_eq!(
        plan_round(Some(SyncSettings { enabled: false, interval_hours: 1 }), false),
        Round::Wait { seconds: 3600 }
    );
    assert_eq!(
        plan_round(Some(SyncSettings { enabled: true, interval_hours: 24 }), false),
        Round::SyncThenWait { seconds: 86400 }
    );
    assert_eq!(
        plan_round(Some(SyncSettings { enabled: true, interval_hours: 0 }), false),
        Round::SyncThenWait { seconds: 0 }
    );
    assert_eq!(
        plan_round(Some(SyncSettings { enabled: true, interval_hours: u64::MAX }), false),
        Round::SyncThenWait { seconds: u64::MAX }
    );
    assert_eq!(
        plan_round(Some(SyncSettings { enabled: true, interval_hours: u64::MAX / 3600 }), false),
        Round::SyncThenWait { seconds: (u64::MAX / 3600) * 3600 }
    );
}

#[test]
fn cancelled_sync_stops() {
    assert_eq!(plan_round(None, true), Round::Stop);
    assert_eq!(plan_round(Some(SyncSettings { enabled: true, interval_hours: 24 }), true), Round::Stop);
    assert_eq!(plan_round(Some(SyncSettings { enabled: false, interval_hours: 24 }), true), Round::Stop);
}
