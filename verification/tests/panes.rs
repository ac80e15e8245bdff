use zj_agent_state::commands::{
    carry_out, current_tab_info, jump_to, jump_to_pane, list_panes, open_pane, ping,
    present_as_overlay, rename_pane, spawn_watcher, start_of, Start,
};
use zj_agent_state::launch::{
    current_generation, Launch, LaunchAction, LaunchEvent, Lock, FALLBACK_LOCK_PATH, LOCK_NAME,
    POLL_INTERVAL_MS, PROBE_WINDOW_MS,
};
use zj_agent_state::panes::{
    agent_panes, current_tab_position, own_pane_id, pane_hit, run_jump, run_toggle, Decision,
    PaneHit, PaneRecord, PANE_TITLE,
};
use zj_agent_state::{Row, Snapshot, Status};

fn hit(id: u32, tab_position: usize, focused: bool) -> PaneHit {
    PaneHit { id, tab_position, focused }
}

fn found(listing: &str) -> Vec<PaneHit> {
    agent_panes(&Some(listing.as_bytes().to_vec()))
}

fn position(info: &str) -> Option<usize> {
    current_tab_position(&Some(info.as_bytes().to_vec()))
}

fn record() -> PaneRecord {
    PaneRecord {
        title: Some(PANE_TITLE.to_string()),
        exited: Some(false),
        id: Some(3),
        tab_position: Some(2),
        is_focused: Some(true),
    }
}

fn words(command: &[String]) -> String {
    command.join(" ")
}

fn lines(commands: &[Vec<String>]) -> Vec<String> {
    commands.iter().map(|c| words(c)).collect()
}

fn strings(args: &[&str]) -> Vec<String> {
    args.iter().map(|a| a.to_string()).collect()
}

#[test]
fn panes_are_found_by_title() {
    let listing = r#"[
        {"title":"zj-agents","exited":false,"id":3,"tab_position":2,"is_focused":true},
        {"title":"shell","exited":false,"id":4,"tab_position":2,"is_focused":true},
        {"title":"zj-agents","exited":true,"id":5,"tab_position":0,"is_focused":false},
        {"title":"zj-agents","id":6,"tab_position":0},
        {"title":"zj-agents","exited":false,"id":7,"tab_position":0},
        {"title":"zj-agents","exited":"no","id":8,"tab_position":0},
        {"title":"zj-agents","exited":false,"id":-9,"tab_position":0},
        {"title":"zj-agents","exited":false,"id":9},
        {"title":7,"exited":false,"id":9,"tab_position":0},
        {"exited":false,"id":9,"tab_position":0},
        "zj-agents",
        null,
        {"title":"zj-agents","exited":false,"id":4294967298,"tab_position":1,"is_focused":"yes"}
    ]"#;
    assert_eq!(found(listing), vec![hit(3, 2, true), hit(7, 0, false), hit(2, 1, false)]);
}

#[test]
fn unreadable_listing_has_no_panes() {
    assert!(agent_panes(&None).is_empty());
    assert!(found("").is_empty());
    assert!(found("[").is_empty());
    assert!(found("{}").is_empty());
    assert!(found("[] x").is_empty());
    assert!(found("[]").is_empty());
    assert!(agent_panes(&Some(vec![0xff, 0xfe])).is_empty());
}

#[test]
fn record_must_describe_the_whole_pane() {
    assert_eq!(pane_hit(&record()), Some(hit(3, 2, true)));
    assert_eq!(pane_hit(&PaneRecord { is_focused: None, ..record() }), Some(hit(3, 2, false)));
    assert_eq!(pane_hit(&PaneRecord { title: None, ..record() }), None);
    assert_eq!(pane_hit(&PaneRecord { title: Some("zj-agent".to_string()), ..record() }), None);
    assert_eq!(pane_hit(&PaneRecord { exited: None, ..record() }), None);
    assert_eq!(pane_hit(&PaneRecord { exited: Some(true), ..record() }), None);
    assert_eq!(pane_hit(&PaneRecord { id: None, ..record() }), None);
    assert_eq!(pane_hit(&PaneRecord { tab_position: None, ..record() }), None);
    assert_eq!(
        pane_hit(&PaneRecord { id: Some(u64::MAX), ..record() }),
        Some(hit(u32::MAX, 2, true))
    );
}

#[test]
fn current_tab_is_read_from_its_description() {
    assert_eq!(position(r#"{"position":4,"name":"x"}"#), Some(4));
    assert_eq!(position(r#"{"name":"x"}"#), None);
    assert_eq!(position(r#"{"position":"4"}"#), None);
    assert_eq!(position(r#"{"position":1.5}"#), None);
    assert_eq!(position("[4]"), None);
    assert_eq!(position("4 4"), None);
    assert_eq!(current_tab_position(&None), None);
}

#[test]
fn own_pane_is_a_number() {
    assert_eq!(own_pane_id(&Some("12".to_string())), Some(12));
    assert_eq!(own_pane_id(&Some("terminal_12".to_string())), None);
    assert_eq!(own_pane_id(&None), None);
}

#[test]
fn toggle_closes_its_own_focused_pane() {
    let panes = vec![hit(1, 0, false), hit(2, 3, true)];
    assert_eq!(run_toggle(&panes, Some(2), Some(3)), Decision::Close(2));
    assert_eq!(run_toggle(&panes, Some(2), Some(9)), Decision::Close(2));
    assert_eq!(run_toggle(&panes, Some(2), None), Decision::Close(2));
}

#[test]
fn toggle_goes_to_a_pane_that_it_does_not_close() {
    let panes = vec![hit(1, 0, true), hit(2, 3, true), hit(4, 3, false)];
    assert_eq!(run_toggle(&panes, Some(8), Some(3)), Decision::Jump(hit(2, 3, true)));
    assert_eq!(run_toggle(&panes, Some(4), Some(5)), Decision::Jump(hit(4, 3, false)));
    assert_eq!(run_toggle(&panes, Some(4), Some(0)), Decision::Jump(hit(1, 0, true)));
    assert_eq!(run_toggle(&panes, Some(8), Some(7)), Decision::Jump(hit(1, 0, true)));
    assert_eq!(run_toggle(&panes, None, None), Decision::Jump(hit(1, 0, true)));
    assert_eq!(run_toggle(&Vec::new(), Some(8), Some(7)), Decision::Open);
}

#[test]
fn jump_goes_to_the_first_pane_or_opens_one() {
    assert_eq!(run_jump(&vec![hit(1, 0, true), hit(2, 3, true)]), Decision::Jump(hit(1, 0, true)));
    assert_eq!(run_jump(&Vec::new()), Decision::Open);
}

#[test]
fn going_to_a_pane_goes_to_its_tab_first() {
    let expected = vec!["action go-to-tab 4".to_string(), "action focus-pane-id 12".to_string()];
    assert_eq!(lines(&jump_to_pane(&hit(12, 3, true))), expected);
    let row = Row {
        pane_id: 12,
        status: Status::Idle,
        agent: String::new(),
        message: None,
        pane_title: String::new(),
        tab_name: String::new(),
        tab_position: 3,
        active: true,
    };
    assert_eq!(lines(&jump_to(&row)), expected);
    assert_eq!(lines(&carry_out(&Decision::Jump(hit(12, 3, false)))), expected);
    assert_eq!(
        lines(&carry_out(&Decision::Close(7))),
        vec!["action close-pane -p 7".to_string()]
    );
    assert!(carry_out(&Decision::Open).is_empty());
}

#[test]
fn last_tab_has_a_number_too() {
    let commands = jump_to_pane(&hit(0, usize::MAX, false));
    assert_eq!(commands[0][2], (usize::MAX as u128 + 1).to_string());
}

#[test]
fn overlay_is_pinned_to_the_right() {
    let place = "action change-floating-pane-coordinates -p 7 --width 40% --height 100% --x 60% --y 0 --pinned true";
    assert_eq!(lines(&present_as_overlay(Some(7), true)), vec![place.to_string()]);
    assert_eq!(
        lines(&present_as_overlay(Some(7), false)),
        vec!["action toggle-pane-embed-or-floating -p 7".to_string(), place.to_string()]
    );
    assert!(present_as_overlay(None, false).is_empty());
}

#[test]
fn commands_have_their_words() {
    assert_eq!(words(&rename_pane()), "action rename-pane zj-agents");
    assert_eq!(words(&list_panes()), "action list-panes --all --json");
    assert_eq!(words(&current_tab_info()), "action current-tab-info --json");
    assert_eq!(words(&ping()), "pipe --name zj_agent_state.ping.v1 -- ping");
    assert_eq!(
        words(&open_pane()),
        "action new-pane --floating --close-on-exit --name zj-agents --"
    );
    assert_eq!(
        spawn_watcher("/h/w.wasm", "s t"),
        strings(&[
            "plugin",
            "--skip-plugin-cache",
            "-c",
            "zj_agent_state_self_url=file:/h/w.wasm,zj_agent_state_session=s t",
            "--",
            "file:/h/w.wasm",
        ])
    );
}

#[test]
fn arguments_say_what_to_start() {
    assert_eq!(start_of(&strings(&[])), Start::Toggle);
    assert_eq!(start_of(&strings(&["-x"])), Start::Toggle);
    assert_eq!(start_of(&strings(&["--floating"])), Start::Show);
    assert_eq!(start_of(&strings(&["x", "--jump"])), Start::Jump);
    assert_eq!(start_of(&strings(&["--floating", "--jump"])), Start::Jump);
}

#[test]
fn answered_ping_ends_the_launch() {
    let mut launch = Launch::new(4);
    let poll = |elapsed_ms: u64, generation: u64| LaunchEvent::Polled { elapsed_ms, generation };
    assert_eq!(launch.step(poll(0, 4)), LaunchAction::Sleep);
    assert_eq!(launch.step(poll(700, 4)), LaunchAction::Sleep);
    assert_eq!(launch.step(poll(799, 5)), LaunchAction::Leave);
    assert_eq!(launch.step(poll(900, 4)), LaunchAction::Leave);
    assert_eq!(launch.step(LaunchEvent::Tried(Lock::Acquired)), LaunchAction::Leave);
}

#[test]
fn silence_and_the_lock_lead_to_a_spawn() {
    for (lock, action) in [
        (Lock::Acquired, LaunchAction::Spawn),
        (Lock::Held, LaunchAction::Leave),
        (Lock::NotOpened, LaunchAction::Leave),
    ] {
        let mut launch = Launch::new(4);
        let late = LaunchEvent::Polled { elapsed_ms: PROBE_WINDOW_MS, generation: 5 };
        assert_eq!(launch.step(late), LaunchAction::TryLock);
        assert_eq!(launch.step(LaunchEvent::Tried(lock)), action);
        assert_eq!(launch.step(LaunchEvent::Tried(lock)), LaunchAction::Leave);
    }
}

#[test]
fn lock_is_not_tried_before_the_window_is_over() {
    let mut launch = Launch::new(0);
    assert_eq!(launch.step(LaunchEvent::Tried(Lock::Acquired)), LaunchAction::Leave);
    assert_eq!((PROBE_WINDOW_MS, POLL_INTERVAL_MS), (800, 100));
    assert_eq!(LOCK_NAME, "spawn.lock");
    assert_eq!(FALLBACK_LOCK_PATH, "/tmp/zj-agent-state-spawn.lock");
}

#[test]
fn generation_of_no_snapshot_is_zero() {
    assert_eq!(current_generation(&None), 0);
    assert_eq!(current_generation(&Some(Snapshot { generation: 9, rows: Vec::new() })), 9);
}
