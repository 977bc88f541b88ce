use zellij_load::monitor::lock_patterns;
use zellij_load::plugin::{
    lock_path, on_event, push_decimal, reads_pipe_message, report_removal_failure, PluginAction,
    PluginEvent,
};

#[test]
fn lock_path_names_the_load_time() {
    assert_eq!(lock_path(Some(1_700_000_000_123_456_789)), "/tmp/system-monitor-lock-1700000000123456789");
    assert_eq!(lock_path(Some(0)), "/tmp/system-monitor-lock-0");
    assert_eq!(lock_path(None), "/tmp/system-monitor-lock-0");
    assert_eq!(
        lock_path(Some(u128::MAX)),
        format!("/tmp/system-monitor-lock-{}", u128::MAX)
    );
}

#[test]
fn push_decimal_writes_digits() {
    let mut s = "n=".to_string();
    push_decimal(&mut s, 10);
    assert_eq!(s, "n=10");
    let mut s = String::new();
    push_decimal(&mut s, 9);
    assert_eq!(s, "9");
}

#[test]
fn events_map_to_actions_without_redraw() {
    assert_eq!(on_event(PluginEvent::PermissionGranted), (PluginAction::StartMonitor, false));
    assert_eq!(on_event(PluginEvent::PermissionDenied), (PluginAction::ReportDenied, false));
    assert_eq!(on_event(PluginEvent::CommandFinished), (PluginAction::ReportCommandOutput, false));
    assert_eq!(on_event(PluginEvent::BeforeClose), (PluginAction::RemoveLock, false));
    assert_eq!(on_event(PluginEvent::Other), (PluginAction::Nothing, false));
}

#[test]
fn missing_lock_file_is_not_reported() {
    assert!(!report_removal_failure(true));
    assert!(report_removal_failure(false));
}

#[test]
fn only_cli_messages_with_payload_are_read() {
    assert!(reads_pipe_message(true, true));
    assert!(!reads_pipe_message(true, false));
    assert!(!reads_pipe_message(false, true));
    assert!(!reads_pipe_message(false, false));
}

#[test]
fn lock_patterns_default_to_tmp() {
    assert_eq!(
        lock_patterns(None, None),
        vec![
            "/tmp/zellij-*/system-monitor-lock".to_string(),
            "/tmp/system-monitor-lock".to_string(),
        ]
    );
    assert_eq!(lock_patterns(Some("/tmp".to_string()), Some(String::new())).len(), 2);
}

#[test]
fn lock_patterns_cover_runtime_and_tmp_fallback() {
    assert_eq!(
        lock_patterns(Some("/var/tmp".to_string()), Some("/run/user/1000".to_string())),
        vec![
            "/var/tmp/zellij-*/system-monitor-lock".to_string(),
            "/var/tmp/system-monitor-lock".to_string(),
            "/run/user/1000/zellij*/system-monitor-lock".to_string(),
            "/run/user/1000/system-monitor-lock".to_string(),
            "/tmp/zellij-*/system-monitor-lock".to_string(),
            "/tmp/system-monitor-lock".to_string(),
        ]
    );
    assert_eq!(
        lock_patterns(None, Some("/run/user/1000".to_string())),
        vec![
            "/tmp/zellij-*/system-monitor-lock".to_string(),
            "/tmp/system-monitor-lock".to_string(),
            "/run/user/1000/zellij*/system-monitor-lock".to_string(),
            "/run/user/1000/system-monitor-lock".to_string(),
        ]
    );
}

#[test]
fn lock_exists_from_grant_until_close() {
    let held_after = |events: &[PluginEvent]| {
        events.iter().fold(false, |held, e| match on_event(*e).0 {
            PluginAction::StartMonitor => true,
            PluginAction::RemoveLock => false,
            _ => held,
        })
    };
    assert!(!held_after(&[]));
    assert!(held_after(&[PluginEvent::PermissionGranted, PluginEvent::CommandFinished]));
    assert!(!held_after(&[PluginEvent::PermissionGranted, PluginEvent::BeforeClose]));
    assert!(held_after(&[
        PluginEvent::PermissionGranted,
        PluginEvent::BeforeClose,
        PluginEvent::PermissionGranted,
        PluginEvent::Other,
    ]));
    assert!(!held_after(&[PluginEvent::PermissionDenied, PluginEvent::Other]));
}
