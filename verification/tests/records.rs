use zj_agent_state::paths::{
    relative_state_path, sanitize_session, scratch_dir, session_name,
};
use zj_agent_state::protocol::{apply_payload, is_chime, report_text, snapshot_text};
use zj_agent_state::{
    state_path, watcher_wasm_host_path, JoinState, Snapshot, Status, StatusPayload,
    PING_PIPE_NAME, SESSION_NAME_KEY, SIDEBAR_PIPE_NAME, STATUS_PIPE_NAME, SYNC_PIPE_NAME,
};

#[test]
fn state_path_scopes_by_session() {
    assert_eq!(state_path("delighted-panda"), "/tmp/zj-agent-state/delighted-panda/state.json");
    assert_ne!(state_path("session-a"), state_path("session-b"));
}

#[test]
fn state_path_sanitizes_unsafe_characters() {
    assert_eq!(state_path("../../etc"), "/tmp/zj-agent-state/______etc/state.json");
}

#[test]
fn status_parse_matches_watcher_hook_vocabulary() {
    assert_eq!(Status::parse("working"), Status::Working);
    assert_eq!(Status::parse("blocked"), Status::Blocked);
    assert_eq!(Status::parse("idle"), Status::Idle);
    assert_eq!(Status::parse("done"), Status::Done);
    assert_eq!(Status::parse("anything-else"), Status::Unknown);
}

#[test]
fn status_words_are_exact() {
    assert_eq!(Status::parse("error"), Status::Error);
    assert_eq!(Status::parse(""), Status::Unknown);
    assert_eq!(Status::parse("Working"), Status::Unknown);
    assert_eq!(Status::parse(" working"), Status::Unknown);
}

#[test]
fn every_status_has_its_looks() {
    let looks: Vec<(Status, &str, &str, &str, u8, bool)> = vec![
        (Status::Working, "◐", "working", "\x1b[33m", 1, false),
        (Status::Blocked, "◆", "needs you", "\x1b[91m", 0, true),
        (Status::Idle, "○", "idle", "\x1b[90m", 3, false),
        (Status::Done, "●", "done", "\x1b[32m", 2, false),
        (Status::Error, "✗", "error", "\x1b[31m", 0, true),
        (Status::Unknown, "·", "unknown", "\x1b[90m", 4, false),
    ];
    for (status, glyph, label, ansi, severity, needs_you) in looks {
        assert_eq!(status.glyph(), glyph);
        assert_eq!(status.label(), label);
        assert_eq!(status.ansi(), ansi);
        assert_eq!(status.severity(), severity);
        assert_eq!(status.needs_you(), needs_you);
    }
}

#[test]
fn names_of_pipes_and_keys_are_fixed() {
    assert_eq!(SESSION_NAME_KEY, "zj_agent_state_session");
    assert_eq!(PING_PIPE_NAME, "zj_agent_state.ping.v1");
    assert_eq!(STATUS_PIPE_NAME, "zj_agent_state.status.v1");
    assert_eq!(SIDEBAR_PIPE_NAME, "zj_agent_state.sidebar.v1");
    assert_eq!(SYNC_PIPE_NAME, "zj_agent_state.sync.v1");
}

#[test]
fn sanitizing_keeps_safe_names_only() {
    assert_eq!(sanitize_session("Delighted-panda_7"), "Delighted-panda_7");
    assert_eq!(sanitize_session("a b/c.d"), "a_b_c_d");
    assert_eq!(sanitize_session("é"), "_");
    assert_eq!(sanitize_session(""), "");
    assert_eq!(state_path("a/b"), state_path("a_b"));
}

#[test]
fn both_sides_of_the_mount_name_one_file() {
    for session in ["delighted-panda", "../../etc", ""] {
        assert_eq!(format!("/tmp/{}", relative_state_path(session)), state_path(session));
    }
}

#[test]
fn scratch_directory_is_named_after_the_user() {
    assert_eq!(scratch_dir(Some("501\n".to_string())), "zellij-501");
    assert_eq!(scratch_dir(Some("  7 \u{3000}".to_string())), "zellij-7");
    assert_eq!(scratch_dir(None), "zellij-0");
}

#[test]
fn watcher_is_installed_below_home() {
    assert_eq!(
        watcher_wasm_host_path(Some("/home/me".to_string())),
        "/home/me/.config/zellij/plugins/zj-agent-state-watcher.wasm"
    );
    assert_eq!(
        watcher_wasm_host_path(None),
        "/root/.config/zellij/plugins/zj-agent-state-watcher.wasm"
    );
}

#[test]
fn session_is_default_outside_of_any() {
    assert_eq!(session_name(Some("s".to_string())), "s");
    assert_eq!(session_name(Some(String::new())), "");
    assert_eq!(session_name(None), "default");
}

#[test]
fn empty_snapshot_is_of_generation_zero() {
    let snapshot = Snapshot::default();
    assert_eq!(snapshot.generation, 0);
    assert!(snapshot.rows.is_empty());
    assert!(snapshot.clone().rows.is_empty());
}

#[test]
fn reports_come_on_the_status_pipe_alone() {
    let payload = Some(" {\"pane_id\":1}\n".to_string());
    assert_eq!(report_text(STATUS_PIPE_NAME, &payload), Some("{\"pane_id\":1}".to_string()));
    assert_eq!(report_text(PING_PIPE_NAME, &payload), None);
    assert_eq!(report_text(STATUS_PIPE_NAME, &None), None);
    assert_eq!(snapshot_text(SYNC_PIPE_NAME, &payload), payload);
    assert_eq!(snapshot_text(SYNC_PIPE_NAME, &None), None);
    assert_eq!(snapshot_text(STATUS_PIPE_NAME, &payload), None);
}

#[test]
fn report_without_a_name_or_message_gets_defaults() {
    let mut state = JoinState::default();
    let change = apply_payload(
        &mut state,
        StatusPayload {
            pane_id: 3,
            status: "done".to_string(),
            agent: None,
            message: Some(" \t\u{a0}".to_string()),
        },
    );
    assert_eq!(change, (None, Status::Done));
    let again = apply_payload(
        &mut state,
        StatusPayload { pane_id: 3, status: String::new(), agent: None, message: None },
    );
    assert_eq!(again, (Some(Status::Done), Status::Unknown));
    assert_eq!(state.reported_len(), 1);
}

#[test]
fn chime_sounds_on_the_edge_alone() {
    for status in [Status::Blocked, Status::Done, Status::Error] {
        assert!(is_chime(None, status));
        assert!(is_chime(Some(Status::Working), status));
        assert!(!is_chime(Some(status), status));
    }
    for status in [Status::Working, Status::Idle, Status::Unknown] {
        assert!(!is_chime(None, status));
        assert!(!is_chime(Some(Status::Blocked), status));
    }
    assert!(is_chime(Some(Status::Blocked), Status::Error));
}
