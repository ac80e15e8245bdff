use zj_agent_state::protocol::{BACKGROUND_MARKER_KEY, SELF_URL_KEY};
use zj_agent_state::watcher::{Watcher, WatcherEvent, WriteOutcome, WriteRequest};
use zj_agent_state::{
    PaneInfo, Status, StatusPayload, TabInfo, PING_PIPE_NAME, SESSION_NAME_KEY,
    SIDEBAR_PIPE_NAME, STATUS_PIPE_NAME,
};

fn some(text: &str) -> Option<String> {
    Some(text.to_string())
}

fn loaded(session: Option<&str>) -> Watcher {
    let mut watcher = Watcher::default();
    watcher.load(some("1"), None, session.map(|s| s.to_string()));
    watcher
}

fn report(pane_id: u32, status: &str) -> Option<StatusPayload> {
    Some(StatusPayload {
        pane_id,
        status: status.to_string(),
        agent: some("a"),
        message: some("m"),
    })
}

fn panes() -> WatcherEvent {
    WatcherEvent::Panes(vec![PaneInfo {
        id: 4,
        title: "four".to_string(),
        tab_position: 1,
        is_focused: true,
        is_plugin: false,
    }])
}

fn tabs() -> WatcherEvent {
    WatcherEvent::Tabs(vec![TabInfo { position: 1, name: "Code".to_string(), active: true }])
}

fn generation(write: &Option<WriteRequest>) -> u64 {
    write.as_ref().expect("a request").snapshot.generation
}

#[test]
fn bootstrap_promotes_itself_when_permitted() {
    let mut watcher = Watcher::default();
    watcher.load(None, some("file:w.wasm"), some("s"));
    let reply = watcher.update(WatcherEvent::PermissionGranted);
    assert!(reply.redraw);
    assert!(reply.write.is_none());
    let load = reply.promote.expect("a promotion");
    assert_eq!(load.url, "file:w.wasm");
    assert_eq!(
        load.config,
        vec![
            (BACKGROUND_MARKER_KEY.to_string(), "1".to_string()),
            (SESSION_NAME_KEY.to_string(), "s".to_string()),
        ]
    );

    let value = |key: &str| load.config.iter().find(|e| e.0 == key).map(|e| e.1.clone());
    let mut promoted = Watcher::default();
    promoted.load(value(BACKGROUND_MARKER_KEY), value(SELF_URL_KEY), value(SESSION_NAME_KEY));
    assert!(promoted.update(WatcherEvent::PermissionGranted).promote.is_none());
    assert_eq!(
        promoted.write_snapshot().expect("a request").path,
        "/tmp/zj-agent-state/s/state.json"
    );
}

#[test]
fn promotion_without_a_session_carries_the_marker_alone() {
    let mut watcher = Watcher::default();
    watcher.load(some("0"), some("u"), None);
    let load = watcher.update(WatcherEvent::PermissionGranted).promote.expect("a promotion");
    assert_eq!(load.config, vec![("zj_agent_state_bg".to_string(), "1".to_string())]);
}

#[test]
fn no_promotion_without_url_or_permission() {
    let mut watcher = Watcher::default();
    watcher.load(None, None, some("s"));
    assert!(watcher.update(WatcherEvent::PermissionGranted).promote.is_none());
    watcher.load(None, some("u"), some("s"));
    let denied = watcher.update(WatcherEvent::PermissionDenied);
    assert!(denied.redraw);
    assert!(denied.promote.is_none());
    let other = watcher.update(WatcherEvent::Other);
    assert!(!other.redraw);
    assert!(other.promote.is_none());
    assert!(other.write.is_none());
}

#[test]
fn events_write_snapshots_of_rising_generation() {
    let mut watcher = loaded(Some("s"));
    let first = watcher.update(tabs());
    assert_eq!(generation(&first.write), 1);
    let second = watcher.update(panes());
    assert_eq!(generation(&second.write), 2);
    let third = watcher.pipe(STATUS_PIPE_NAME, report(4, "working"));
    let request = third.write.expect("a request");
    assert_eq!(request.path, "/tmp/zj-agent-state/s/state.json");
    assert_eq!(request.tmp_path, "/tmp/zj-agent-state/s/state.json.tmp");
    assert_eq!(request.snapshot.generation, 3);
    assert_eq!(request.snapshot.rows.len(), 1);
    assert_eq!(request.snapshot.rows[0].pane_id, 4);
    assert_eq!(request.snapshot.rows[0].tab_name, "Code");
    assert_eq!(request.snapshot.rows[0].status, Status::Working);
    assert!(request.snapshot.rows[0].active);
}

#[test]
fn ping_raises_the_generation_and_nothing_else() {
    let mut watcher = loaded(Some("s"));
    watcher.update(tabs());
    watcher.update(panes());
    watcher.pipe(STATUS_PIPE_NAME, report(4, "idle"));
    let before = format!("{:?}", watcher.rows());
    let reply = watcher.pipe(PING_PIPE_NAME, None);
    assert!(reply.redraw);
    assert!(!reply.chime);
    let request = reply.write.expect("a request");
    assert_eq!(request.snapshot.generation, 4);
    assert_eq!(format!("{:?}", request.snapshot.rows), before);
    assert_eq!(format!("{:?}", watcher.rows()), before);
}

#[test]
fn nothing_is_written_without_a_session() {
    let mut watcher = loaded(None);
    let reply = watcher.pipe(PING_PIPE_NAME, None);
    assert!(reply.redraw);
    assert!(reply.write.is_none());
    assert_eq!(
        watcher.render(),
        "watcher: 0 pane(s) joined, gen 0, last write FAILED: no session name yet"
    );
    assert!(watcher.update(panes()).write.is_none());
}

#[test]
fn chime_follows_the_reports() {
    let mut watcher = loaded(Some("s"));
    assert!(!watcher.pipe(STATUS_PIPE_NAME, report(4, "working")).chime);
    assert!(watcher.pipe(STATUS_PIPE_NAME, report(4, "done")).chime);
    assert!(!watcher.pipe(STATUS_PIPE_NAME, report(4, "done")).chime);
    assert!(watcher.pipe(STATUS_PIPE_NAME, report(5, "done")).chime);
    assert!(watcher.pipe(STATUS_PIPE_NAME, report(4, "blocked")).chime);
    assert!(!watcher.pipe(STATUS_PIPE_NAME, report(4, "idle")).chime);
}

#[test]
fn other_messages_are_left_alone() {
    let mut watcher = loaded(Some("s"));
    for (name, message) in [
        (SIDEBAR_PIPE_NAME, report(4, "done")),
        ("", report(4, "done")),
        (STATUS_PIPE_NAME, None),
    ] {
        let reply = watcher.pipe(name, message);
        assert!(!reply.redraw);
        assert!(!reply.chime);
        assert!(reply.write.is_none());
    }
    assert_eq!(
        watcher.render(),
        "watcher: 0 pane(s) joined, gen 0, last write FAILED: "
    );
}

#[test]
fn line_tells_how_the_last_write_ended() {
    let mut watcher = loaded(Some("s"));
    watcher.pipe(STATUS_PIPE_NAME, report(4, "done"));
    watcher.settle(WriteOutcome::Written);
    assert_eq!(watcher.render(), "watcher: 1 pane(s) joined, gen 1, last write ok");
    watcher.settle(WriteOutcome::NotStored("disk full".to_string()));
    assert_eq!(
        watcher.render(),
        "watcher: 1 pane(s) joined, gen 1, last write FAILED: disk full"
    );
    watcher.settle(WriteOutcome::NotSerialized("no".to_string()));
    assert_eq!(
        watcher.render(),
        "watcher: 1 pane(s) joined, gen 1, last write FAILED: serialize: no"
    );
    assert!(watcher.can_advance());
}
