use zj_agent_state::keys::Key;
use zj_agent_state::protocol::{BACKGROUND_MARKER_KEY, SELF_URL_KEY};
use zj_agent_state::sidebar::{Action, Sidebar, SidebarEvent, Tick};
use zj_agent_state::watcher::{Watcher, WatcherEvent};
use zj_agent_state::{
    PaneInfo, Row, Snapshot, Status, StatusPayload, TabInfo, PING_PIPE_NAME, SESSION_NAME_KEY,
    SIDEBAR_PIPE_NAME, STATUS_PIPE_NAME, SYNC_PIPE_NAME,
};

fn some(text: &str) -> Option<String> {
    Some(text.to_string())
}

fn row(pane_id: u32, status: Status, message: Option<&str>, tab_position: usize) -> Row {
    Row {
        pane_id,
        status,
        agent: "a".to_string(),
        message: message.map(|m| m.to_string()),
        pane_title: format!("pane{pane_id}"),
        tab_name: ["Code", "pinky", "infra"][tab_position].to_string(),
        tab_position,
        active: false,
    }
}

fn snapshot() -> Snapshot {
    Snapshot {
        generation: 1,
        rows: vec![
            row(0, Status::Working, Some("refactor the render loop"), 0),
            row(5, Status::Blocked, Some("needs approval"), 1),
            row(6, Status::Done, None, 1),
        ],
    }
}

fn filled() -> Sidebar {
    let mut sidebar = Sidebar::default();
    let reply = sidebar.pipe(SYNC_PIPE_NAME, &some("{}"), Some(snapshot()), None);
    assert!(reply.redraw);
    assert!(reply.action.is_none());
    sidebar
}

fn tick(readable: bool, snapshot: Option<Snapshot>) -> SidebarEvent {
    SidebarEvent::Timer(Tick { readable, snapshot, plugin_id: 7 })
}

fn press(sidebar: &mut Sidebar, key: Key) -> Option<Action> {
    let reply = sidebar.update(SidebarEvent::Key { key, modified: false });
    assert!(reply.redraw);
    reply.action
}

fn word(sidebar: &mut Sidebar, word: &str) -> Option<Action> {
    let reply = sidebar.pipe(SIDEBAR_PIPE_NAME, &some(word), None, None);
    assert!(reply.redraw);
    reply.action
}

fn plugin_pane(id: u32, tab_position: usize) -> PaneInfo {
    PaneInfo { id, title: String::new(), tab_position, is_focused: false, is_plugin: true }
}

fn tab(position: usize, active: bool) -> TabInfo {
    TabInfo { position, name: format!("t{position}"), active }
}

#[test]
fn empty_sidebar_says_so() {
    let sidebar = Sidebar::default();
    assert_eq!(
        sidebar.render(80),
        "\x1b[1m AGENTS\x1b[0m\n \x1b[90mno agents\x1b[0m\n"
    );
}

#[test]
fn sidebar_draws_tabs_agents_and_counts() {
    let mut sidebar = filled();
    let title = "\x1b[1m AGENTS\x1b[0m\n";
    let pinky = " \x1b[91m◆\x1b[1m pinky\x1b[0m\n";
    let count = " \x1b[90m1 working\x1b[0m \x1b[1m\x1b[91m1 need you\x1b[0m\n";
    assert_eq!(
        sidebar.render(80),
        format!(
            "{title}{pinky}{}{}{}{}{count}",
            " \x1b[90m  ├\x1b[39m \x1b[91m◆\x1b[39m \x1b[1mneeds approval\x1b[0m\n",
            " \x1b[90m  └\x1b[39m \x1b[32m●\x1b[39m pane6\x1b[0m\n",
            " \x1b[33m◐\x1b[1m Code\x1b[0m\n",
            " \x1b[90m  └\x1b[39m \x1b[33m◐\x1b[39m refactor the render loop\x1b[0m\n",
        )
    );
    press(&mut sidebar, Key::Down);
    press(&mut sidebar, Key::Down);
    let narrow = format!(
        "{title}{pinky}{}{}{}{}{count}",
        " \x1b[90m  ├\x1b[39m \x1b[91m◆\x1b[39m n…\x1b[0m\n",
        " \x1b[90m  └\x1b[39m \x1b[32m●\x1b[39m p…\x1b[0m\n",
        " \x1b[33m◐\x1b[1m Code\x1b[0m\n",
        " \x1b[90m  └\x1b[39m \x1b[33m◐\x1b[39m \x1b[1mr…\x1b[0m\n",
    );
    assert_eq!(sidebar.render(10), narrow);
    assert_eq!(sidebar.render(0), narrow);
}

#[test]
fn sidebar_counts_without_alarm_when_nobody_waits() {
    let mut sidebar = Sidebar::default();
    let rows = vec![row(1, Status::Idle, None, 0)];
    sidebar.pipe(SYNC_PIPE_NAME, &some("{}"), Some(Snapshot { generation: 1, rows }), None);
    assert!(sidebar.render(40).ends_with(" \x1b[90m0 working\x1b[0m\n"));
}

#[test]
fn keys_move_the_selection_and_jump() {
    let mut sidebar = filled();
    assert!(matches!(
        press(&mut sidebar, Key::Enter),
        Some(Action::Jump { tab: 2, pane: 5 })
    ));
    assert!(press(&mut sidebar, Key::Char('j')).is_none());
    assert!(matches!(
        press(&mut sidebar, Key::Right),
        Some(Action::Jump { tab: 2, pane: 6 })
    ));
    for _ in 0..5 {
        press(&mut sidebar, Key::Down);
    }
    assert!(matches!(
        press(&mut sidebar, Key::Char('l')),
        Some(Action::Jump { tab: 1, pane: 0 })
    ));
    press(&mut sidebar, Key::Up);
    press(&mut sidebar, Key::Char('k'));
    press(&mut sidebar, Key::Up);
    assert!(matches!(
        press(&mut sidebar, Key::Enter),
        Some(Action::Jump { tab: 2, pane: 5 })
    ));
    assert!(press(&mut sidebar, Key::Other).is_none());
    assert!(press(&mut sidebar, Key::Char('q')).is_none());
}

#[test]
fn modified_keys_do_nothing() {
    let mut sidebar = filled();
    for key in [Key::Down, Key::Enter] {
        let reply = sidebar.update(SidebarEvent::Key { key, modified: true });
        assert!(reply.redraw);
        assert!(reply.action.is_none());
    }
    assert!(matches!(
        press(&mut sidebar, Key::Enter),
        Some(Action::Jump { tab: 2, pane: 5 })
    ));
}

#[test]
fn nothing_to_jump_to_without_rows() {
    let mut sidebar = Sidebar::default();
    assert!(press(&mut sidebar, Key::Down).is_none());
    assert!(press(&mut sidebar, Key::Enter).is_none());
    assert!(sidebar.flat().is_empty());
}

#[test]
fn selection_past_the_end_jumps_to_the_last_row() {
    let mut sidebar = filled();
    press(&mut sidebar, Key::Down);
    press(&mut sidebar, Key::Down);
    let reply = sidebar.update(SidebarEvent::Panes(vec![PaneInfo {
        id: 5,
        title: "t".to_string(),
        tab_position: 1,
        is_focused: false,
        is_plugin: false,
    }]));
    assert!(reply.redraw);
    assert_eq!(sidebar.flat().len(), 1);
    assert!(matches!(
        press(&mut sidebar, Key::Enter),
        Some(Action::Jump { tab: 2, pane: 5 })
    ));
}

#[test]
fn toggle_goes_back_and_forth() {
    let mut sidebar = Sidebar::default();
    assert!(matches!(word(&mut sidebar, "toggle"), Some(Action::HideSelf)));
    assert!(matches!(word(&mut sidebar, "toggle"), Some(Action::ShowSelf)));
    assert!(matches!(word(&mut sidebar, "hide"), Some(Action::HideSelf)));
    assert!(matches!(word(&mut sidebar, "hide"), Some(Action::HideSelf)));
    assert!(matches!(word(&mut sidebar, "toggle"), Some(Action::ShowSelf)));
    assert!(matches!(word(&mut sidebar, "show"), Some(Action::ShowSelf)));
    sidebar.update(SidebarEvent::Visible(false));
    assert!(matches!(word(&mut sidebar, "toggle"), Some(Action::ShowSelf)));
    sidebar.update(SidebarEvent::Visible(true));
    assert!(matches!(word(&mut sidebar, "toggle"), Some(Action::HideSelf)));
    assert!(word(&mut sidebar, "dance").is_none());
    let reply = sidebar.pipe(SIDEBAR_PIPE_NAME, &None, None, None);
    assert!(reply.redraw);
    assert!(reply.action.is_none());
}

#[test]
fn only_the_sidebar_in_the_active_tab_takes_focus() {
    let layout = || vec![plugin_pane(7, 0), plugin_pane(8, 1)];
    let mut here = Sidebar::default();
    let mut there = Sidebar::default();
    assert!(word(&mut here, "jump").is_none());
    here.update(tick(false, None));
    there.update(SidebarEvent::Timer(Tick { readable: false, snapshot: None, plugin_id: 8 }));
    assert!(word(&mut here, "jump").is_none());
    for sidebar in [&mut here, &mut there] {
        sidebar.update(SidebarEvent::Panes(layout()));
        sidebar.update(SidebarEvent::Tabs(vec![tab(0, true), tab(1, false)]));
    }
    assert!(matches!(word(&mut here, "jump"), Some(Action::FocusPlugin(7))));
    assert!(word(&mut there, "jump").is_none());
    for sidebar in [&mut here, &mut there] {
        sidebar.update(SidebarEvent::Tabs(vec![tab(0, false), tab(1, true)]));
    }
    assert!(word(&mut here, "jump").is_none());
    assert!(matches!(word(&mut there, "jump"), Some(Action::FocusPlugin(8))));
    there.update(SidebarEvent::Tabs(vec![tab(0, false), tab(1, false)]));
    assert!(matches!(word(&mut there, "jump"), Some(Action::FocusPlugin(8))));
}

#[test]
fn first_name_of_the_session_stands() {
    let mut sidebar = Sidebar::default();
    assert!(sidebar.state_file().is_none());
    assert!(!sidebar.ensure_session(None));
    assert!(sidebar.ensure_session(some("one")));
    assert!(sidebar.ensure_session(some("two")));
    assert!(sidebar.ensure_session(None));
    assert_eq!(sidebar.state_file(), some("/tmp/zj-agent-state/one/state.json"));
}

#[test]
fn watcher_is_loaded_once_where_there_is_no_file() {
    let mut sidebar = Sidebar::default();
    sidebar.load(some("file:w.wasm"));
    assert!(sidebar.update(tick(false, None)).action.is_none());
    sidebar.ensure_session(some("s"));
    let config = match sidebar.update(tick(false, None)).action {
        Some(Action::LoadWatcher(load)) => {
            assert_eq!(load.url, "file:w.wasm");
            load.config
        }
        _ => panic!("no watcher was loaded"),
    };
    assert_eq!(config, vec![(SESSION_NAME_KEY.to_string(), "s".to_string())]);
    assert!(sidebar.update(tick(false, None)).action.is_none());

    let value = |key: &str| config.iter().find(|e| e.0 == key).map(|e| e.1.clone());
    let mut watcher = Watcher::default();
    watcher.load(value(BACKGROUND_MARKER_KEY), value(SELF_URL_KEY), value(SESSION_NAME_KEY));
    assert!(watcher.update(WatcherEvent::PermissionGranted).promote.is_none());
    assert_eq!(watcher.write_snapshot().map(|r| r.path), sidebar.state_file());
}

#[test]
fn no_watcher_is_loaded_beside_a_file_or_without_url() {
    let mut found = Sidebar::default();
    found.load(some("file:w.wasm"));
    found.ensure_session(some("s"));
    assert!(found.update(tick(true, None)).action.is_none());
    assert!(found.update(tick(false, None)).action.is_none());

    let mut untold = Sidebar::default();
    untold.load(None);
    untold.ensure_session(some("s"));
    assert!(untold.update(tick(false, None)).action.is_none());
}

#[test]
fn new_sidebar_shows_what_the_file_holds() {
    let mut sidebar = Sidebar::default();
    sidebar.update(tick(true, Some(snapshot())));
    assert!(sidebar.flat().is_empty());
    sidebar.ensure_session(some("s"));
    let reply = sidebar.update(tick(true, Some(snapshot())));
    assert!(reply.redraw);
    let ids: Vec<u32> = sidebar.flat().iter().map(|r| r.pane_id).collect();
    assert_eq!(ids, vec![5, 6, 0]);
}

#[test]
fn messages_on_other_pipes_change_nothing() {
    let mut sidebar = filled();
    let before = sidebar.render(40);
    let report = || {
        Some(StatusPayload { pane_id: 5, status: "idle".to_string(), agent: None, message: None })
    };
    let ping = sidebar.pipe(PING_PIPE_NAME, &some("ping"), None, None);
    assert!(ping.redraw);
    let unread = sidebar.pipe(SYNC_PIPE_NAME, &some("?"), None, None);
    assert!(unread.redraw);
    let unknown = sidebar.pipe("unknown", &some("toggle"), Some(snapshot()), report());
    assert!(!unknown.redraw);
    let garbled = sidebar.pipe(STATUS_PIPE_NAME, &some("?"), None, None);
    assert!(!garbled.redraw);
    assert!(!sidebar.update(SidebarEvent::Other).redraw);
    assert_eq!(sidebar.render(40), before);
    let status = sidebar.pipe(STATUS_PIPE_NAME, &some("{}"), None, report());
    assert!(status.redraw);
    assert!(status.action.is_none());
    assert_ne!(sidebar.render(40), before);
}
