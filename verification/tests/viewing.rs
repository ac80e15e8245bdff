use zj_agent_state::keys::{clamp_row, next_row, previous_row, Key};
use zj_agent_state::panes::PaneHit;
use zj_agent_state::screen::{head_status, tally};
use zj_agent_state::theme::{extreme, is_dark, theme_of, Narrow, Theme, Wide};
use zj_agent_state::viewer::{Press, Viewer};
use zj_agent_state::viewer_screen::{render, spin_glyph, status_glyph};
use zj_agent_state::{grouped_rows, Row, Snapshot, Status};

fn sample_rows() -> Vec<Row> {
    vec![
        Row { pane_id: 0, status: Status::Working, agent: "agent".into(), message: Some("refactor the render loop".into()), pane_title: "pane0".into(), tab_name: "Code".into(), tab_position: 0, active: true },
        Row { pane_id: 5, status: Status::Blocked, agent: "agent".into(), message: Some("needs approval to run migration".into()), pane_title: "pane5".into(), tab_name: "pinky".into(), tab_position: 1, active: false },
        Row { pane_id: 6, status: Status::Done, agent: "agent".into(), message: Some("tests passing".into()), pane_title: "pane6".into(), tab_name: "pinky".into(), tab_position: 1, active: false },
        Row { pane_id: 9, status: Status::Idle, agent: "agent".into(), message: None, pane_title: "pane9".into(), tab_name: "infra".into(), tab_position: 2, active: false },
    ]
}

fn strip_ansi(s: &str) -> String {
    let mut out = String::new();
    let mut chars = s.chars();
    while let Some(c) = chars.next() {
        if c == '\x1b' {
            for c in chars.by_ref() {
                if c.is_ascii_alphabetic() {
                    break;
                }
            }
        } else {
            out.push(c);
        }
    }
    out
}

#[test]
fn render_prints_radar_style() {
    let groups = grouped_rows(sample_rows());
    let raw = render(&groups, 0, true, 0, &None, None);
    let stripped: String = strip_ansi(&raw);
    println!("{stripped}");
    assert!(stripped.contains("pinky"));
    assert!(stripped.contains("\u{2514}"));
    assert!(stripped.contains("1 working"));
    assert!(stripped.contains("1 need you"));
}

#[test]
fn viewer_draws_every_line() {
    let groups = grouped_rows(sample_rows());
    let raw = render(&groups, 1, true, 0, &None, Some(20));
    let expected = [
        "\x1b[1mAGENTS\x1b[0m\x1b[90m            ·1\x1b[0m\r\n",
        " \x1b[91m◆\x1b[1m pinky\x1b[0m\r\n",
        " \x1b[90m├\x1b[39m \x1b[91m◆\x1b[39m \x1b[39mneeds approval…\x1b[0m\r\n",
        " \x1b[90m└\x1b[39m \x1b[32m●\x1b[39m \x1b[1mtests passing\x1b[0m\r\n",
        "\r\n",
        "\x1b[35m▌\x1b[0m\x1b[33m⠋\x1b[1m Code\x1b[0m\r\n",
        "\x1b[35m▌\x1b[0m\x1b[1m\x1b[90m└\x1b[39m \x1b[33m⠋\x1b[39m \x1b[1mrefactor the r…\x1b[0m\r\n",
        "\r\n",
        " \x1b[90m○ infra\x1b[0m\r\n",
        " \x1b[90m└\x1b[39m \x1b[90m○\x1b[39m \x1b[39mpane9\x1b[0m\r\n",
        "\r\n",
        "\x1b[90m1 working ·\x1b[0m \x1b[1m\x1b[91m1 need you\x1b[0m\r\n",
    ]
    .concat();
    assert_eq!(raw, expected);
}

#[test]
fn theme_colours_the_row_with_the_focus() {
    let theme = Some(Theme { active_bg: "<bg>".to_string(), bright_fg: "<fg>".to_string() });
    let mut rows = sample_rows();
    rows.truncate(1);
    rows[0].message = Some("hi".to_string());
    let raw = render(&grouped_rows(rows), 4, true, 11, &theme, Some(12));
    let expected = [
        "\x1b[1mAGENTS\x1b[0m\x1b[90m    ·1\x1b[0m\r\n",
        "\x1b[35m▌\x1b[0m\x1b[33m⠙\x1b[1m Code\x1b[0m\r\n",
        "\x1b[35m▌\x1b[0m<bg>\x1b[90m└\x1b[39m \x1b[33m⠙\x1b[39m \x1b[1m<fg>hi     \x1b[0m\r\n",
        "\r\n",
        "\x1b[90m1 working\x1b[0m\r\n",
    ]
    .concat();
    assert_eq!(raw, expected);
}

#[test]
fn narrow_terminal_leaves_ellipses() {
    let raw = render(&grouped_rows(sample_rows()), 0, true, 0, &None, Some(0));
    assert!(raw.starts_with("\x1b[1mAGENTS\x1b[0m\x1b[90m·1\x1b[0m\r\n \x1b[91m◆\x1b[1m …\x1b[0m\r\n"));
}

#[test]
fn viewer_waits_for_the_watcher() {
    let title = format!("\x1b[1mAGENTS\x1b[0m\x1b[90m{:>54}\x1b[0m\r\n", "·1");
    let count = "\r\n\x1b[90m0 working\x1b[0m\r\n";
    assert_eq!(
        render(&[], 0, false, 0, &None, None),
        format!("{title}\x1b[90mstarting watcher…\x1b[0m\r\n{count}")
    );
    assert_eq!(
        render(&[], 0, true, 0, &None, None),
        format!("{title}\x1b[90mno agents\x1b[0m\r\n{count}")
    );
}

#[test]
fn spinner_turns_in_ten_frames() {
    let frames: String = (0..10).map(spin_glyph).collect();
    assert_eq!(frames, "⠋⠙⠹⠸⠼⠴⠦⠧⠇⠏");
    assert_eq!(spin_glyph(13), '⠸');
    assert_eq!(status_glyph(Status::Working, 9), '⠏');
    for status in [Status::Blocked, Status::Idle, Status::Done, Status::Error, Status::Unknown] {
        assert_eq!(status_glyph(status, 3).to_string(), status.glyph());
    }
}

#[test]
fn head_is_the_first_of_the_most_urgent() {
    let mut rows = sample_rows();
    rows[3].status = Status::Error;
    assert_eq!(head_status(&rows), Status::Blocked);
    rows.remove(1);
    assert_eq!(head_status(&rows), Status::Error);
}

#[test]
fn tally_counts_work_and_waiting() {
    let mut rows = sample_rows();
    rows[3].status = Status::Error;
    assert_eq!(tally(&grouped_rows(rows)), (1, 2));
    assert_eq!(tally(&[]), (0, 0));
}

#[test]
fn selection_moves_within_the_rows() {
    assert_eq!(next_row(0, 3), 1);
    assert_eq!(next_row(2, 3), 2);
    assert_eq!(next_row(7, 3), 2);
    assert_eq!(next_row(7, 0), 7);
    assert_eq!(next_row(usize::MAX, 3), 2);
    assert_eq!(previous_row(2), 1);
    assert_eq!(previous_row(0), 0);
    assert_eq!(clamp_row(2, 3), 2);
    assert_eq!(clamp_row(3, 3), 2);
    assert_eq!(clamp_row(3, 0), 0);
}

#[test]
fn viewer_shows_and_follows_keys() {
    let mut viewer = Viewer::new();
    let snapshot = Some(Snapshot { generation: 1, rows: sample_rows() });
    let shown = viewer.show(snapshot.clone(), &None, Some(40));
    assert_eq!(shown.text, render(&grouped_rows(sample_rows()), 0, true, 0, &None, Some(40)));
    assert_eq!(viewer.frame, 1);

    let at = |id: u32, tab_position: usize| Press::Jump(PaneHit { id, tab_position, focused: false });
    assert_eq!(viewer.press(Key::Enter, &shown.groups), at(5, 1));
    assert_eq!(viewer.press(Key::Down, &shown.groups), Press::Stay);
    assert_eq!(viewer.press(Key::Char('l'), &shown.groups), at(6, 1));
    assert_eq!(viewer.press(Key::Right, &shown.groups), Press::Stay);
    for _ in 0..9 {
        viewer.press(Key::Char('j'), &shown.groups);
    }
    assert_eq!(viewer.press(Key::Enter, &shown.groups), at(9, 2));
    viewer.press(Key::Char('k'), &shown.groups);
    viewer.press(Key::Up, &shown.groups);
    assert_eq!(viewer.selected, 1);
    assert_eq!(viewer.press(Key::Esc, &shown.groups), Press::Quit);
    assert_eq!(viewer.press(Key::Char('q'), &shown.groups), Press::Quit);
    assert_eq!(viewer.press(Key::Other, &shown.groups), Press::Stay);
}

#[test]
fn cursor_comes_back_when_rows_go() {
    let mut viewer = Viewer { selected: 3, frame: usize::MAX };
    let mut rows = sample_rows();
    rows.truncate(2);
    let shown = viewer.show(Some(Snapshot { generation: 1, rows }), &None, None);
    assert_eq!(viewer.selected, 1);
    assert_eq!(viewer.frame, 0);
    assert_eq!(shown.groups.len(), 2);
    let gone = viewer.show(None, &None, None);
    assert_eq!(viewer.selected, 0);
    assert!(gone.text.contains("starting watcher…"));
    assert_eq!(viewer.press(Key::Enter, &gone.groups), Press::Stay);
}

#[test]
fn theme_is_written_as_escapes() {
    let theme = theme_of(Narrow { r: 1, g: 20, b: 255 }, Narrow { r: 0, g: 9, b: 10 });
    assert_eq!(theme.active_bg, "\x1b[48;2;1;20;255m");
    assert_eq!(theme.bright_fg, "\x1b[38;2;0;9;10m");
}

#[test]
fn terminal_is_dark_where_its_text_is_brighter() {
    let black = Wide { r: 0, g: 0, b: 0 };
    let white = Wide { r: 65535, g: 65535, b: 65535 };
    let blue = Wide { r: 0, g: 0, b: 65535 };
    assert!(is_dark(black, white));
    assert!(!is_dark(white, black));
    assert!(is_dark(blue, Wide { r: 65535, g: 0, b: 0 }));
    assert!(is_dark(blue, white));
    assert_eq!(extreme(true), 65535);
    assert_eq!(extreme(false), 0);
}
