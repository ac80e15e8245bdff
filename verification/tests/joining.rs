use zj_agent_state::{
    flat_rows, grouped_rows, JoinState, PaneInfo, Row, Status, TabInfo,
};

fn pane(id: u32, title: &str, tab_position: usize, is_focused: bool, is_plugin: bool) -> PaneInfo {
    PaneInfo { id, title: title.to_string(), tab_position, is_focused, is_plugin }
}

fn tab(position: usize, name: &str, active: bool) -> TabInfo {
    TabInfo { position, name: name.to_string(), active }
}

fn row(pane_id: u32, status: Status, tab_position: usize) -> Row {
    Row {
        pane_id,
        status,
        agent: "a".to_string(),
        message: None,
        pane_title: format!("pane {pane_id}"),
        tab_name: format!("name {tab_position}"),
        tab_position,
        active: false,
    }
}

fn ids(rows: &[Row]) -> Vec<u32> {
    rows.iter().map(|r| r.pane_id).collect()
}

fn joined() -> JoinState {
    let mut state = JoinState::default();
    state.apply_tabs(vec![tab(0, "Code", true), tab(1, "infra", false)]);
    state.apply_panes(vec![
        pane(9, "nine", 1, true, false),
        pane(2, "two", 0, true, false),
        pane(4, "four", 0, false, false),
        pane(5, "plugin", 0, true, true),
    ]);
    state.apply_status(9, Status::Idle, "x".to_string(), None);
    state.apply_status(2, Status::Working, "y".to_string(), Some("busy".to_string()));
    state
}

#[test]
fn rows_join_statuses_with_panes_by_id() {
    let rows = joined().rows();
    assert_eq!(ids(&rows), vec![2, 9]);
    assert_eq!(rows[0].status, Status::Working);
    assert_eq!(rows[0].agent, "y");
    assert_eq!(rows[0].message, Some("busy".to_string()));
    assert_eq!(rows[0].pane_title, "two");
    assert_eq!(rows[0].tab_name, "Code");
    assert_eq!(rows[0].tab_position, 0);
    assert!(rows[0].active);
    assert_eq!(rows[1].pane_title, "nine");
    assert_eq!(rows[1].tab_name, "infra");
    assert!(!rows[1].active);
}

#[test]
fn status_without_a_pane_shows_no_row_until_the_pane_comes() {
    let mut state = JoinState::default();
    state.apply_status(1, Status::Done, "a".to_string(), None);
    assert!(state.rows().is_empty());
    assert_eq!(state.reported_len(), 1);
    state.apply_panes(vec![pane(1, "one", 6, false, false)]);
    let rows = state.rows();
    assert_eq!(ids(&rows), vec![1]);
    assert_eq!(rows[0].tab_name, "tab 7");
}

#[test]
fn status_of_a_dead_pane_is_dropped() {
    let mut state = joined();
    state.apply_panes(vec![pane(2, "two", 0, true, false)]);
    assert_eq!(state.reported_len(), 1);
    assert_eq!(ids(&state.rows()), vec![2]);
    state.apply_panes(vec![pane(9, "nine", 1, true, false)]);
    assert_eq!(state.reported_len(), 0);
    assert!(state.rows().is_empty());
}

#[test]
fn plugin_panes_are_not_joined() {
    let mut state = joined();
    state.apply_status(5, Status::Error, "a".to_string(), None);
    assert_eq!(ids(&state.rows()), vec![2, 9]);
}

#[test]
fn last_status_stands_and_the_one_before_is_returned() {
    let mut state = joined();
    let previous = state.apply_status(2, Status::Done, "z".to_string(), None);
    assert_eq!(previous, Some(Status::Working));
    assert_eq!(state.apply_status(4, Status::Idle, "z".to_string(), None), None);
    let rows = state.rows();
    assert_eq!(ids(&rows), vec![2, 4, 9]);
    assert_eq!(rows[0].status, Status::Done);
    assert_eq!(rows[0].message, None);
    assert_eq!(rows[2].status, Status::Idle);
}

#[test]
fn panes_are_active_in_the_active_tab_alone() {
    let mut state = joined();
    state.apply_tabs(vec![tab(0, "Code", false), tab(1, "infra", false)]);
    assert!(state.rows()[0].active);
    state.apply_panes(vec![pane(2, "two", 0, true, false), pane(9, "nine", 1, true, false)]);
    assert!(state.rows().iter().all(|r| !r.active));
}

#[test]
fn tab_that_lost_its_name_is_called_by_its_number() {
    let mut state = joined();
    state.apply_tabs(vec![tab(1, "other", true)]);
    let rows = state.rows();
    assert_eq!(rows[0].tab_name, "tab 1");
    assert_eq!(rows[1].tab_name, "other");
}

#[test]
fn fresh_instance_takes_over_every_row() {
    let source = joined().rows();
    let mut state = JoinState::default();
    state.seed_from_rows(source.clone());
    let rows = state.rows();
    assert_eq!(format!("{rows:?}"), format!("{source:?}"));
}

#[test]
fn instances_converge_on_the_rows_that_were_written() {
    let source = joined().rows();
    let mut state = JoinState::default();
    state.apply_tabs(vec![tab(1, "stale", true)]);
    state.apply_panes(vec![pane(9, "stale", 1, true, false), pane(4, "four", 0, false, false)]);
    state.apply_status(9, Status::Error, "stale".to_string(), None);
    state.seed_from_rows(source.clone());
    assert_eq!(format!("{:?}", state.rows()), format!("{source:?}"));
    state.apply_status(4, Status::Done, "late".to_string(), None);
    state.seed_from_rows(source.clone());
    assert_eq!(ids(&state.rows()), vec![2, 4, 9]);
}

#[test]
fn seeding_replaces_what_was_known_of_a_pane() {
    let mut state = joined();
    state.seed_from_rows(vec![row(2, Status::Error, 3)]);
    let rows = state.rows();
    assert_eq!(ids(&rows), vec![2, 9]);
    assert_eq!(rows[0].status, Status::Error);
    assert_eq!(rows[0].tab_name, "name 3");
    assert_eq!(rows[0].pane_title, "pane 2");
    assert_eq!(rows[1].tab_name, "infra");
}

#[test]
fn rows_are_grouped_most_urgent_first() {
    let groups = grouped_rows(vec![
        row(8, Status::Idle, 0),
        row(7, Status::Working, 2),
        row(6, Status::Blocked, 1),
        row(5, Status::Done, 1),
        row(4, Status::Error, 1),
        row(3, Status::Unknown, 2),
        row(2, Status::Working, 3),
    ]);
    let names: Vec<&str> = groups.iter().map(|g| g.tab_name.as_str()).collect();
    assert_eq!(names, vec!["name 1", "name 2", "name 3", "name 0"]);
    assert_eq!(ids(&groups[0].rows), vec![4, 6, 5]);
    assert_eq!(ids(&groups[1].rows), vec![7, 3]);
    let flat: Vec<u32> = flat_rows(&groups).iter().map(|r| r.pane_id).collect();
    assert_eq!(flat, vec![4, 6, 5, 7, 3, 2, 8]);
}

#[test]
fn grouping_nothing_gives_nothing() {
    assert!(grouped_rows(Vec::new()).is_empty());
    assert!(flat_rows(&[]).is_empty());
}

#[test]
fn group_bears_the_name_that_its_first_row_gives() {
    let mut first = row(9, Status::Idle, 1);
    first.tab_name = "first".to_string();
    let mut second = row(1, Status::Error, 1);
    second.tab_name = "second".to_string();
    let groups = grouped_rows(vec![first, second]);
    assert_eq!(groups.len(), 1);
    assert_eq!(groups[0].tab_name, "first");
    assert_eq!(ids(&groups[0].rows), vec![1, 9]);
}

#[test]
fn rows_of_one_pane_keep_their_order() {
    let mut early = row(1, Status::Idle, 0);
    early.agent = "early".to_string();
    let mut late = row(1, Status::Idle, 0);
    late.agent = "late".to_string();
    let groups = grouped_rows(vec![early, late]);
    let agents: Vec<&str> = groups[0].rows.iter().map(|r| r.agent.as_str()).collect();
    assert_eq!(agents, vec!["early", "late"]);
}
