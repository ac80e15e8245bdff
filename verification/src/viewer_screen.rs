//! How the viewer draws its rows: a title, the tabs with their agents, and a count.
//! Every line ends in a carriage return and a line feed, as a raw terminal wants it.
use vstd::prelude::*;

use crate::groups::{GroupView, TabGroup, flat, flat_rows, group_views};
use crate::model::{Row, RowView, row_views};
use crate::screen::{
    ALARM, BOLD, DIM, FG_RESET, RESET, detail, detail_of, head, head_status,
    law_counts_are_by_status, law_head_is_the_first_most_urgent, law_row_says_message_or_title,
    law_shortened_keeps_the_beginning, lemma_flat_prefix, lemma_pieces_in_a_row, needing,
    shortened, tally, truncate, working,
};
use crate::status::Status;
use crate::text::{
    align_right, all_digits, blanks, decimal, law_decimal_writes_the_number,
    law_right_aligned_fills_the_field, number, right_aligned, spaces, value_of,
};
use crate::theme::{Theme, ThemeView, theme_view};

verus! {

pub const ACCENT: &'static str = "\x1b[35m";

/// The columns of the terminal; sixty where they are not known.
pub open spec fn columns(cols: Option<u16>) -> nat {
    match cols {
        Some(cols) => cols as nat,
        None => 60,
    }
}

/// `a` less `b`, but not below zero.
pub open spec fn less(a: nat, b: nat) -> nat {
    if a < b {
        0
    } else {
        (a - b) as nat
    }
}

/// The frames of the spinner of an agent at work.
pub open spec fn spin_frames() -> Seq<char> {
    seq![
        '\u{280B}',
        '\u{2819}',
        '\u{2839}',
        '\u{2838}',
        '\u{283C}',
        '\u{2834}',
        '\u{2826}',
        '\u{2827}',
        '\u{2807}',
        '\u{280F}',
    ]
}

/// The mark of a status in a frame: the spinner turns for an agent at work, and the
/// others stand still.
pub open spec fn mark_in(status: Status, frame: nat) -> char {
    if status is Working {
        spin_frames()[(frame % 10) as int]
    } else {
        status.mark()
    }
}

/// The frame of the spinner.
pub fn spin_glyph(frame: usize) -> (glyph: char)
    ensures
        glyph == spin_frames()[(frame % 10) as int],
{
    match frame % 10 {
        0 => '\u{280B}',
        1 => '\u{2819}',
        2 => '\u{2839}',
        3 => '\u{2838}',
        4 => '\u{283C}',
        5 => '\u{2834}',
        6 => '\u{2826}',
        7 => '\u{2827}',
        8 => '\u{2807}',
        _ => '\u{280F}',
    }
}

/// The mark of a status in a frame.
pub fn status_glyph(status: Status, frame: usize) -> (glyph: char)
    ensures
        glyph == mark_in(status, frame as nat),
{
    match status {
        Status::Working => spin_glyph(frame),
        Status::Blocked => '\u{25C6}',
        Status::Idle => '\u{25CB}',
        Status::Done => '\u{25CF}',
        Status::Error => '\u{2717}',
        Status::Unknown => '\u{00B7}',
    }
}

/// One of `rows` has the focus.
pub open spec fn any_active(rows: Seq<RowView>) -> bool {
    exists|i: int| 0 <= i < rows.len() && (#[trigger] rows[i]).active
}

/// The first column of a tab: a bar, if the tab has the row with the focus.
pub open spec fn spine(rows: Seq<RowView>) -> Seq<char> {
    if any_active(rows) {
        ACCENT@ + "\u{258C}"@ + RESET@
    } else {
        " "@
    }
}

/// The line of a tab: its most urgent status, and its name. It is bold unless all
/// its agents are idle or unknown.
pub open spec fn tab_line(group: GroupView, frame: nat, width: nat) -> Seq<char> {
    let status = head(group.rows).status;
    spine(group.rows) + status.color() + seq![mark_in(status, frame)] + (if status.rank() < 3 {
        BOLD@
    } else {
        ""@
    }) + " "@ + shortened(group.tab_name, less(width, 4)) + RESET@ + "\r\n"@
}

/// The style of what an agent says: it stands out under the cursor and in the pane
/// that has the focus.
pub open spec fn text_style(stands_out: bool, theme: Option<ThemeView>) -> Seq<char> {
    if stands_out {
        match theme {
            Some(theme) => BOLD@ + theme.bright_fg,
            None => BOLD@,
        }
    } else {
        FG_RESET@
    }
}

/// What stands on the line of an agent behind its first column: the branch, its
/// status, and what it says.
pub open spec fn row_body(
    row: RowView,
    last: bool,
    cursor: bool,
    frame: nat,
    theme: Option<ThemeView>,
    width: nat,
) -> Seq<char> {
    DIM@ + (if last {
        "\u{2514}"@
    } else {
        "\u{251C}"@
    }) + FG_RESET@ + " "@ + row.status.color() + seq![mark_in(row.status, frame)] + FG_RESET@
        + " "@ + text_style(row.active || cursor, theme) + shortened(detail(row), less(width, 5))
}

/// The line of an agent. The one whose pane has the focus has a background of its
/// own, over the whole width.
pub open spec fn row_line(
    margin: Seq<char>,
    row: RowView,
    last: bool,
    cursor: bool,
    frame: nat,
    theme: Option<ThemeView>,
    width: nat,
) -> Seq<char> {
    let body = row_body(row, last, cursor, frame, theme, width);
    if row.active {
        let said = shortened(detail(row), less(width, 5));
        margin + (match theme {
            Some(theme) => theme.active_bg,
            None => BOLD@,
        }) + body + blanks(less(width, 5 + said.len())) + RESET@ + "\r\n"@
    } else {
        margin + body + RESET@ + "\r\n"@
    }
}

/// The lines of the first `n` rows of a tab whose first row is number `first`.
pub open spec fn row_lines(
    rows: Seq<RowView>,
    n: nat,
    first: nat,
    selected: nat,
    frame: nat,
    theme: Option<ThemeView>,
    width: nat,
) -> Seq<char>
    decreases n,
{
    if n == 0 {
        Seq::empty()
    } else {
        row_lines(rows, (n - 1) as nat, first, selected, frame, theme, width) + row_line(
            spine(rows),
            rows[n - 1],
            n == rows.len(),
            first + n - 1 == selected,
            frame,
            theme,
            width,
        )
    }
}

/// The lines of all tabs and agents, with a free line behind each tab.
pub open spec fn tab_lines(
    groups: Seq<GroupView>,
    selected: nat,
    frame: nat,
    theme: Option<ThemeView>,
    width: nat,
) -> Seq<char>
    decreases groups.len(),
{
    if groups.len() == 0 {
        Seq::empty()
    } else {
        let group = groups.last();
        tab_lines(groups.drop_last(), selected, frame, theme, width) + tab_line(group, frame, width)
            + row_lines(
            group.rows,
            group.rows.len(),
            flat(groups.drop_last()).len(),
            selected,
            frame,
            theme,
            width,
        ) + "\r\n"@
    }
}

/// The line that counts the agents at work and those that need a human.
pub open spec fn count_line(rows: Seq<RowView>) -> Seq<char> {
    if needing(rows) > 0 {
        DIM@ + decimal(working(rows)) + " working \u{B7}"@ + RESET@ + " "@ + BOLD@ + ALARM@ + decimal(
            needing(rows),
        ) + " need you"@ + RESET@ + "\r\n"@
    } else {
        DIM@ + decimal(working(rows)) + " working"@ + RESET@ + "\r\n"@
    }
}

/// The line on top.
pub open spec fn title_line(width: nat) -> Seq<char> {
    BOLD@ + "AGENTS"@ + RESET@ + DIM@ + right_aligned("\u{B7}1"@, less(width, 6)) + RESET@
        + "\r\n"@
}

/// What stands between the title and the count.
pub open spec fn middle(
    groups: Seq<GroupView>,
    selected: nat,
    found: bool,
    frame: nat,
    theme: Option<ThemeView>,
    width: nat,
) -> Seq<char> {
    if !found {
        DIM@ + "starting watcher\u{2026}"@ + RESET@ + "\r\n"@
    } else if groups.len() == 0 {
        DIM@ + "no agents"@ + RESET@ + "\r\n"@
    } else {
        tab_lines(groups, selected, frame, theme, width)
    }
}

/// All that the viewer draws.
pub open spec fn viewer_text(
    groups: Seq<GroupView>,
    selected: nat,
    found: bool,
    frame: nat,
    theme: Option<ThemeView>,
    cols: Option<u16>,
) -> Seq<char> {
    title_line(columns(cols)) + middle(groups, selected, found, frame, theme, columns(cols)) + (
    if groups.len() == 0 {
        "\r\n"@
    } else {
        ""@
    }) + count_line(flat(groups))
}

fn spine_text(rows: &Vec<Row>) -> (text: String)
    ensures
        text@ == spine(row_views(rows@)),
{
    let ghost views = row_views(rows@);
    let mut i: usize = 0;
    while i < rows.len()
        invariant
            i <= rows.len(),
            views == row_views(rows@),
            forall|k: int| 0 <= k < i ==> !(#[trigger] views[k]).active,
        decreases rows.len() - i,
    {
        if rows[i].active {
            assert(views[i as int].active);
            let mut text = ACCENT.to_owned();
            text.append("\u{258C}");
            text.append(RESET);
            return text;
        }
        i += 1;
    }
    " ".to_owned()
}

fn tab_text(group: &TabGroup, frame: usize, width: usize) -> (line: String)
    requires
        group.rows.len() > 0,
    ensures
        line@ == tab_line(group@, frame as nat, width as nat),
{
    let status = head_status(&group.rows);
    let mut line = spine_text(&group.rows);
    line.append(status.ansi());
    line.push(status_glyph(status, frame));
    line.append(
        if status.severity() < 3 {
            BOLD
        } else {
            ""
        },
    );
    line.append(" ");
    line.append(truncate(group.tab_name.as_str(), width.saturating_sub(4)).as_str());
    line.append(RESET);
    line.append("\r\n");
    assert(line@ =~= tab_line(group@, frame as nat, width as nat));
    line
}

fn style_text(stands_out: bool, theme: &Option<Theme>) -> (style: String)
    ensures
        style@ == text_style(stands_out, theme_view(*theme)),
{
    if !stands_out {
        return FG_RESET.to_owned();
    }
    let mut style = BOLD.to_owned();
    if let Some(theme) = theme {
        style.append(theme.bright_fg.as_str());
    }
    style
}

fn row_text(
    margin: &str,
    row: &Row,
    last: bool,
    cursor: bool,
    frame: usize,
    theme: &Option<Theme>,
    width: usize,
) -> (line: String)
    requires
        width <= u16::MAX,
    ensures
        line@ == row_line(
            margin@,
            row@,
            last,
            cursor,
            frame as nat,
            theme_view(*theme),
            width as nat,
        ),
{
    let said = truncate(detail_of(row), width.saturating_sub(5));
    let mut body = DIM.to_owned();
    body.append(
        if last {
            "\u{2514}"
        } else {
            "\u{251C}"
        },
    );
    body.append(FG_RESET);
    body.append(" ");
    body.append(row.status.ansi());
    body.push(status_glyph(row.status, frame));
    body.append(FG_RESET);
    body.append(" ");
    body.append(style_text(row.active || cursor, theme).as_str());
    body.append(said.as_str());
    assert(body@ =~= row_body(
        row@,
        last,
        cursor,
        frame as nat,
        theme_view(*theme),
        width as nat,
    ));
    let mut line = margin.to_owned();
    if row.active {
        match theme {
            Some(theme) => line.append(theme.active_bg.as_str()),
            None => line.append(BOLD),
        }
        line.append(body.as_str());
        line.append(spaces(width.saturating_sub(5 + said.as_str().unicode_len())).as_str());
    } else {
        line.append(body.as_str());
    }
    line.append(RESET);
    line.append("\r\n");
    line
}

fn rows_text(
    rows: &Vec<Row>,
    first: usize,
    selected: usize,
    frame: usize,
    theme: &Option<Theme>,
    width: usize,
) -> (text: String)
    requires
        width <= u16::MAX,
        first + rows.len() <= usize::MAX,
    ensures
        text@ == row_lines(
            row_views(rows@),
            rows@.len(),
            first as nat,
            selected as nat,
            frame as nat,
            theme_view(*theme),
            width as nat,
        ),
{
    let ghost views = row_views(rows@);
    let margin = spine_text(rows);
    let mut text = String::new();
    let mut i: usize = 0;
    assert(text@ =~= Seq::<char>::empty());
    while i < rows.len()
        invariant
            i <= rows.len(),
            width <= u16::MAX,
            first + rows.len() <= usize::MAX,
            views == row_views(rows@),
            margin@ == spine(views),
            text@ == row_lines(
                views,
                i as nat,
                first as nat,
                selected as nat,
                frame as nat,
                theme_view(*theme),
                width as nat,
            ),
        decreases rows.len() - i,
    {
        assert(views[i as int] == rows@[i as int]@);
        let line = row_text(
            margin.as_str(),
            &rows[i],
            i + 1 == rows.len(),
            first + i == selected,
            frame,
            theme,
            width,
        );
        text.append(line.as_str());
        i += 1;
    }
    text
}

fn count_text(groups: &[TabGroup]) -> (line: String)
    ensures
        line@ == count_line(flat(group_views(groups@))),
{
    let (at_work, waiting) = tally(groups);
    let mut line = DIM.to_owned();
    line.append(number(at_work as u128).as_str());
    if waiting > 0 {
        line.append(" working \u{B7}");
        line.append(RESET);
        line.append(" ");
        line.append(BOLD);
        line.append(ALARM);
        line.append(number(waiting as u128).as_str());
        line.append(" need you");
    } else {
        line.append(" working");
    }
    line.append(RESET);
    line.append("\r\n");
    line
}

fn title_text(width: usize) -> (line: String)
    ensures
        line@ == title_line(width as nat),
{
    let mut line = BOLD.to_owned();
    line.append("AGENTS");
    line.append(RESET);
    line.append(DIM);
    line.append(align_right("\u{B7}1", width.saturating_sub(6)).as_str());
    line.append(RESET);
    line.append("\r\n");
    line
}

fn tabs_text(
    groups: &[TabGroup],
    selected: usize,
    frame: usize,
    theme: &Option<Theme>,
    width: usize,
) -> (text: String)
    requires
        width <= u16::MAX,
        forall|i: int| 0 <= i < groups.len() ==> (#[trigger] groups@[i]).rows.len() > 0,
    ensures
        text@ == tab_lines(
            group_views(groups@),
            selected as nat,
            frame as nat,
            theme_view(*theme),
            width as nat,
        ),
{
    let ghost views = group_views(groups@);
    let ghost colors = theme_view(*theme);
    let total: usize = flat_rows(groups).len();
    let mut text = String::new();
    let mut first: usize = 0;
    let mut g: usize = 0;
    assert(views.take(0) =~= Seq::<GroupView>::empty());
    assert(text@ =~= Seq::<char>::empty());
    while g < groups.len()
        invariant
            g <= groups.len(),
            width <= u16::MAX,
            views == group_views(groups@),
            colors == theme_view(*theme),
            total == flat(views).len(),
            first == flat(views.take(g as int)).len(),
            forall|i: int| 0 <= i < groups.len() ==> (#[trigger] groups@[i]).rows.len() > 0,
            text@ == tab_lines(
                views.take(g as int),
                selected as nat,
                frame as nat,
                colors,
                width as nat,
            ),
        decreases groups.len() - g,
    {
        proof {
            lemma_flat_prefix(views, g as int);
            assert(views.take(g + 1).drop_last() =~= views.take(g as int));
        }
        text.append(tab_text(&groups[g], frame, width).as_str());
        text.append(rows_text(&groups[g].rows, first, selected, frame, theme, width).as_str());
        text.append("\r\n");
        first += groups[g].rows.len();
        g += 1;
    }
    assert(views.take(g as int) =~= views);
    text
}

/// Draws `groups` with the cursor on row number `selected`. `found` says whether
/// there is a state file, and `frame` turns the spinners.
pub fn render(
    groups: &[TabGroup],
    selected: usize,
    found: bool,
    frame: usize,
    theme: &Option<Theme>,
    cols: Option<u16>,
) -> (text: String)
    requires
        found ==> forall|i: int| 0 <= i < groups.len() ==> (#[trigger] groups@[i]).rows.len() > 0,
    ensures
        text@ == viewer_text(
            group_views(groups@),
            selected as nat,
            found,
            frame as nat,
            theme_view(*theme),
            cols,
        ),
{
    let width: usize = match cols {
        Some(cols) => cols as usize,
        None => 60,
    };
    let mut text = title_text(width);
    let middle = if !found {
        let mut line = DIM.to_owned();
        line.append("starting watcher\u{2026}");
        line.append(RESET);
        line.append("\r\n");
        line
    } else if groups.len() == 0 {
        let mut line = DIM.to_owned();
        line.append("no agents");
        line.append(RESET);
        line.append("\r\n");
        line
    } else {
        tabs_text(groups, selected, frame, theme, width)
    };
    text.append(middle.as_str());
    text.append(
        if groups.len() == 0 {
            "\r\n"
        } else {
            ""
        },
    );
    text.append(count_text(groups).as_str());
    text
}

/// The columns are those of the terminal, and sixty where they are not known.
pub proof fn law_columns_are_the_terminals(cols: u16)
    ensures
        columns(Some(cols)) == cols,
        columns(None) == 60,
{
}

/// The spinner has ten frames, no two of them alike, and turns through them for an agent at
/// work. The mark of any other status stands still.
pub proof fn law_spinner_turns(status: Status, frame: nat, other: nat)
    ensures
        spin_frames().len() == 10,
        spin_frames().no_duplicates(),
        status is Working ==> spin_frames().contains(mark_in(status, frame)),
        status is Working ==> mark_in(status, frame + 10) == mark_in(status, frame),
        status is Working ==> mark_in(status, frame + 1) != mark_in(status, frame),
        !(status is Working) ==> mark_in(status, frame) == mark_in(status, other),
        !(status is Working) ==> mark_in(status, frame) == status.mark(),
{
    let frames = spin_frames();
    assert(frames[(frame % 10) as int] == mark_in(Status::Working, frame));
    assert((frame + 10) % 10 == frame % 10);
    assert((frame + 1) % 10 != frame % 10);
}

/// The first column of a tab is a bar, in the colour of accents, if and only if one of the
/// tab's agents has the focus.
pub proof fn law_bar_marks_the_tab_with_the_focus(rows: Seq<RowView>, i: int)
    ensures
        0 <= i < rows.len() && rows[i].active ==> spine(rows) == ACCENT@ + seq!['\u{258C}'] + RESET@,
        (forall|j: int| 0 <= j < rows.len() ==> !(#[trigger] rows[j]).active) ==> spine(rows)
            == seq![' '],
{
    reveal_strlit("\u{258C}");
    reveal_strlit(" ");
    assert("\u{258C}"@ =~= seq!['\u{258C}']);
    assert(" "@ =~= seq![' ']);
    if 0 <= i < rows.len() && rows[i].active {
        assert(any_active(rows));
    }
}

/// What stands on the line of an agent behind the first column: the branch, which closes on
/// the last agent of a tab; the colour and the mark of the agent's own status; and what the
/// agent says, or else the title of its pane, as much of it as leaves five columns free. The
/// text stands out if and only if the agent is under the cursor or has the focus. One that
/// has the focus, and no other, has a background too, which blanks stretch over all columns.
pub proof fn law_row_line_shows_the_agent(
    margin: Seq<char>,
    row: RowView,
    last: bool,
    cursor: bool,
    frame: nat,
    theme: Option<ThemeView>,
    width: nat,
) -> (parts: (Seq<char>, Seq<char>, Seq<char>, Seq<char>, Seq<char>))
    ensures
        ({
            let (back, branch, style, said, pad) = parts;
            let whole = match row.message {
                Some(message) => message,
                None => row.pane_title,
            };
            &&& row_line(margin, row, last, cursor, frame, theme, width) == margin + back + (DIM@
                + branch + FG_RESET@ + " "@ + row.status.color() + seq![mark_in(row.status, frame)]
                + FG_RESET@ + " "@ + style + said) + pad + RESET@ + "\r\n"@
            &&& branch.len() == 1
            &&& last ==> branch[0] as int == 0x2514
            &&& !last ==> branch[0] as int == 0x251C
            &&& !row.active && !cursor ==> style == FG_RESET@
            &&& row.active || cursor ==> {
                &&& theme is None ==> style == BOLD@
                &&& theme matches Some(theme) ==> style == BOLD@ + theme.bright_fg
            }
            &&& !row.active ==> back.len() == 0 && pad.len() == 0
            &&& row.active ==> {
                &&& theme is None ==> back == BOLD@
                &&& theme matches Some(theme) ==> back == theme.active_bg
                &&& said.len() + 5 <= width ==> said.len() + 5 + pad.len() == width
                &&& said.len() + 5 > width ==> pad.len() == 0
            }
            &&& forall|i: int| 0 <= i < pad.len() ==> #[trigger] pad[i] == ' '
            &&& whole.len() + 5 <= width ==> said == whole
            &&& whole.len() + 5 > width && width > 5 ==> {
                &&& said.len() + 5 == width
                &&& said.take(width - 6) == whole.take(width - 6)
                &&& said.last() as int == 0x2026
            }
            &&& whole.len() > 0 && width <= 5 ==> said == seq!['\u{2026}']
        }),
{
    reveal_strlit("\u{2514}");
    reveal_strlit("\u{251C}");
    law_row_says_message_or_title(row);
    let said = shortened(detail(row), less(width, 5));
    if detail(row).len() > less(width, 5) {
        law_shortened_keeps_the_beginning(detail(row), less(width, 5));
    }
    let body = row_body(row, last, cursor, frame, theme, width);
    let branch = if last {
        "\u{2514}"@
    } else {
        "\u{251C}"@
    };
    let none = Seq::<char>::empty();
    let back = if row.active {
        match theme {
            Some(theme) => theme.active_bg,
            None => BOLD@,
        }
    } else {
        none
    };
    let pad = if row.active {
        blanks(less(width, 5 + said.len()))
    } else {
        none
    };
    if !row.active {
        assert(margin + none =~= margin);
        assert(margin + body + none =~= margin + body);
    }
    (back, branch, text_style(row.active || cursor, theme), said, pad)
}

/// The cursor shows: a line without the focus differs under the cursor and away from it by
/// the style of its text alone, and a line with the focus does not differ.
pub proof fn law_cursor_shows_in_the_style(
    margin: Seq<char>,
    row: RowView,
    last: bool,
    frame: nat,
    theme: Option<ThemeView>,
    width: nat,
) -> (parts: (Seq<char>, Seq<char>, Seq<char>))
    ensures
        ({
            let (before, style, after) = parts;
            let under = row_line(margin, row, last, true, frame, theme, width);
            let away = row_line(margin, row, last, false, frame, theme, width);
            &&& row.active ==> under == away
            &&& !row.active ==> {
                &&& under == before + style + after
                &&& away == before + FG_RESET@ + after
                &&& theme is None ==> style == BOLD@
                &&& theme matches Some(theme) ==> style == BOLD@ + theme.bright_fg
                &&& theme is None ==> under != away
            }
        }),
{
    let said = shortened(detail(row), less(width, 5));
    let opening = DIM@ + (if last {
        "\u{2514}"@
    } else {
        "\u{251C}"@
    }) + FG_RESET@ + " "@ + row.status.color() + seq![mark_in(row.status, frame)] + FG_RESET@ + " "@;
    let before = margin + opening;
    let after = said + RESET@ + "\r\n"@;
    let style = text_style(true, theme);
    if !row.active {
        lemma_styled(margin, opening, style, said, RESET@, "\r\n"@);
        lemma_styled(margin, opening, FG_RESET@, said, RESET@, "\r\n"@);
        reveal_strlit("\x1b[1m");
        reveal_strlit("\x1b[39m");
        if theme is None {
            assert((before + style + after).len() != (before + FG_RESET@ + after).len());
        }
    }
    (before, style, after)
}

proof fn lemma_styled(
    margin: Seq<char>,
    opening: Seq<char>,
    style: Seq<char>,
    said: Seq<char>,
    reset: Seq<char>,
    end: Seq<char>,
)
    ensures
        margin + (opening + style + said) + reset + end == margin + opening + style + (said + reset
            + end),
{
    assert(margin + (opening + style + said) + reset + end =~= margin + opening + style + (said
        + reset + end));
}

/// What stands on the line of a tab behind its first column: the colour and the mark of the
/// first of its most urgent agents, and the name of the tab, as much of it as leaves four
/// columns free. It is bold if and only if that agent is at work, done, blocked or has failed.
pub proof fn law_tab_line_shows_the_most_urgent(
    group: GroupView,
    i: int,
    frame: nat,
    width: nat,
) -> (parts: (Seq<char>, Seq<char>))
    requires
        0 <= i < group.rows.len(),
        forall|j: int|
            0 <= j < i ==> (#[trigger] group.rows[j]).status.rank() > group.rows[i].status.rank(),
        forall|j: int|
            0 <= j < group.rows.len() ==> (#[trigger] group.rows[j]).status.rank()
                >= group.rows[i].status.rank(),
    ensures
        ({
            let (weight, name) = parts;
            let status = group.rows[i].status;
            &&& tab_line(group, frame, width) == spine(group.rows) + status.color() + seq![
                mark_in(status, frame),
            ] + weight + " "@ + name + RESET@ + "\r\n"@
            &&& status is Idle || status is Unknown ==> weight.len() == 0
            &&& !(status is Idle || status is Unknown) ==> weight == BOLD@
            &&& group.tab_name.len() + 4 <= width ==> name == group.tab_name
            &&& group.tab_name.len() + 4 > width && width > 4 ==> {
                &&& name.len() + 4 == width
                &&& name.take(width - 5) == group.tab_name.take(width - 5)
                &&& name.last() as int == 0x2026
            }
        }),
{
    reveal_strlit("");
    law_head_is_the_first_most_urgent(group.rows, i);
    if group.tab_name.len() > less(width, 4) {
        law_shortened_keeps_the_beginning(group.tab_name, less(width, 4));
    }
    let weight = if group.rows[i].status.rank() < 3 {
        BOLD@
    } else {
        ""@
    };
    (weight, shortened(group.tab_name, less(width, 4)))
}

proof fn lemma_row_lines_split(
    rows: Seq<RowView>,
    n: nat,
    r: nat,
    first: nat,
    selected: nat,
    frame: nat,
    theme: Option<ThemeView>,
    width: nat,
) -> (rest: Seq<char>)
    requires
        r < n <= rows.len(),
    ensures
        row_lines(rows, n, first, selected, frame, theme, width) == row_lines(
            rows,
            r,
            first,
            selected,
            frame,
            theme,
            width,
        ) + row_line(
            spine(rows),
            rows[r as int],
            r + 1 == rows.len(),
            first + r == selected,
            frame,
            theme,
            width,
        ) + rest,
    decreases n - r,
{
    let above = row_lines(rows, r, first, selected, frame, theme, width);
    let line = row_line(
        spine(rows),
        rows[r as int],
        r + 1 == rows.len(),
        first + r == selected,
        frame,
        theme,
        width,
    );
    if n == r + 1 {
        assert(above + line =~= above + line + Seq::<char>::empty());
        Seq::empty()
    } else {
        let rest = lemma_row_lines_split(
            rows,
            (n - 1) as nat,
            r,
            first,
            selected,
            frame,
            theme,
            width,
        );
        let last = row_line(
            spine(rows),
            rows[n - 1],
            n == rows.len(),
            first + (n - 1) == selected,
            frame,
            theme,
            width,
        );
        assert(above + line + rest + last =~= above + line + (rest + last));
        rest + last
    }
}

proof fn lemma_tab_lines_split(
    groups: Seq<GroupView>,
    g: int,
    selected: nat,
    frame: nat,
    theme: Option<ThemeView>,
    width: nat,
) -> (rest: Seq<char>)
    requires
        0 <= g < groups.len(),
    ensures
        tab_lines(groups, selected, frame, theme, width) == tab_lines(
            groups.take(g),
            selected,
            frame,
            theme,
            width,
        ) + tab_line(groups[g], frame, width) + row_lines(
            groups[g].rows,
            groups[g].rows.len(),
            flat(groups.take(g)).len(),
            selected,
            frame,
            theme,
            width,
        ) + rest,
    decreases groups.len() - g,
{
    let before = tab_lines(groups.take(g), selected, frame, theme, width);
    let head = tab_line(groups[g], frame, width);
    let own = row_lines(
        groups[g].rows,
        groups[g].rows.len(),
        flat(groups.take(g)).len(),
        selected,
        frame,
        theme,
        width,
    );
    if g == groups.len() - 1 {
        assert(groups.drop_last() =~= groups.take(g));
        "\r\n"@
    } else {
        let others = groups.drop_last();
        let rest = lemma_tab_lines_split(others, g, selected, frame, theme, width);
        assert(others.take(g) =~= groups.take(g));
        let last_head = tab_line(groups.last(), frame, width);
        let last_own = row_lines(
            groups.last().rows,
            groups.last().rows.len(),
            flat(others).len(),
            selected,
            frame,
            theme,
            width,
        );
        lemma_two_tabs(before, head, own, rest, last_head, last_own, "\r\n"@);
        rest + last_head + last_own + "\r\n"@
    }
}

proof fn lemma_two_tabs(
    before: Seq<char>,
    head: Seq<char>,
    own: Seq<char>,
    rest: Seq<char>,
    last_head: Seq<char>,
    last_own: Seq<char>,
    end: Seq<char>,
)
    ensures
        before + head + own + rest + last_head + last_own + end == before + head + own + (rest
            + last_head + last_own + end),
{
    assert(before + head + own + rest + last_head + last_own + end =~= before + head + own + (rest
        + last_head + last_own + end));
}

/// Where an agent's line stands on the screen: below the title, the tabs before its own, the
/// line of its tab, and the agents of the tab that come before it. It is drawn under the cursor
/// if and only if the selection is the number of agents in the tabs before, plus its own place
/// in the tab; and it closes the branch if and only if it is the last of its tab.
pub proof fn law_viewer_draws_each_agent_in_its_place(
    groups: Seq<GroupView>,
    selected: nat,
    frame: nat,
    theme: Option<ThemeView>,
    cols: Option<u16>,
    g: int,
    r: nat,
) -> (rest: Seq<char>)
    requires
        0 <= g < groups.len(),
        r < groups[g].rows.len(),
    ensures
        ({
            let width = columns(cols);
            let number = flat(groups.take(g)).len() + r;
            viewer_text(groups, selected, true, frame, theme, cols) == title_line(width)
                + tab_lines(groups.take(g), selected, frame, theme, width) + tab_line(
                groups[g],
                frame,
                width,
            ) + row_lines(
                groups[g].rows,
                r,
                flat(groups.take(g)).len(),
                selected,
                frame,
                theme,
                width,
            ) + row_line(
                spine(groups[g].rows),
                groups[g].rows[r as int],
                r + 1 == groups[g].rows.len(),
                number == selected,
                frame,
                theme,
                width,
            ) + rest
        }),
{
    reveal_strlit("");
    let width = columns(cols);
    let first = flat(groups.take(g)).len();
    let rows = groups[g].rows;
    let below = lemma_tab_lines_split(groups, g, selected, frame, theme, width);
    let behind = lemma_row_lines_split(rows, rows.len(), r, first, selected, frame, theme, width);
    let bottom = count_line(flat(groups));
    let upper = title_line(width) + tab_lines(groups, selected, frame, theme, width);
    assert(upper + ""@ =~= upper);
    lemma_pieces_in_a_row(
        title_line(width),
        tab_lines(groups.take(g), selected, frame, theme, width),
        tab_line(groups[g], frame, width),
        row_lines(rows, r, first, selected, frame, theme, width),
        row_line(
            spine(rows),
            rows[r as int],
            r + 1 == rows.len(),
            first + r == selected,
            frame,
            theme,
            width,
        ),
        behind,
        below,
        bottom,
    );
    behind + below + bottom
}

/// Tabs are drawn one below the other, each with its line, the lines of its agents and a free
/// line, and nothing else stands between them.
pub proof fn law_tabs_follow_one_another(
    groups: Seq<GroupView>,
    group: GroupView,
    selected: nat,
    frame: nat,
    theme: Option<ThemeView>,
    width: nat,
)
    ensures
        tab_lines(Seq::<GroupView>::empty(), selected, frame, theme, width).len() == 0,
        tab_lines(groups.push(group), selected, frame, theme, width) == tab_lines(
            groups,
            selected,
            frame,
            theme,
            width,
        ) + tab_line(group, frame, width) + row_lines(
            group.rows,
            group.rows.len(),
            flat(groups).len(),
            selected,
            frame,
            theme,
            width,
        ) + "\r\n"@,
{
    assert(groups.push(group).drop_last() =~= groups);
}

/// The line on top spans all columns, with the `1` in the last of them: blanks alone stand
/// between the title on the left and the count on the right, and none where there is no room.
pub proof fn law_title_spans_the_columns(width: nat) -> (free: Seq<char>)
    ensures
        title_line(width) == BOLD@ + "AGENTS"@ + RESET@ + DIM@ + (free + seq!['\u{B7}', '1'])
            + RESET@ + "\r\n"@,
        width >= 8 ==> 6 + free.len() + 2 == width,
        width < 8 ==> free.len() == 0,
        forall|i: int| 0 <= i < free.len() ==> #[trigger] free[i] == ' ',
{
    reveal_strlit("\u{B7}1");
    let text = "\u{B7}1"@;
    assert(text =~= seq!['\u{B7}', '1']);
    let field = right_aligned(text, less(width, 6));
    law_right_aligned_fills_the_field(text, less(width, 6));
    let free = field.take(field.len() - 2);
    assert(field =~= free + text);
    free
}

/// What stands around the agents: the title on top, and at the bottom the count of those that
/// are at work and, if there are any, of those that are blocked or have failed. Where no state
/// file was found the screen says that the watcher is starting, whatever else there is, and
/// where there are no agents it says so; a free line stands before the count if and only if
/// there are none.
pub proof fn law_viewer_counts_its_agents(
    groups: Seq<GroupView>,
    selected: nat,
    found: bool,
    frame: nat,
    theme: Option<ThemeView>,
    cols: Option<u16>,
) -> (parts: (Seq<char>, Seq<char>, Seq<char>, Seq<char>, Seq<char>))
    ensures
        ({
            let (middle, gap, count, at_work, waiting) = parts;
            let rows = flat(groups);
            let calls = rows.filter(
                |row: RowView| row.status == Status::Blocked || row.status == Status::Error,
            ).len();
            &&& viewer_text(groups, selected, found, frame, theme, cols) == title_line(
                columns(cols),
            ) + middle + gap + count
            &&& !found ==> middle == DIM@ + "starting watcher\u{2026}"@ + RESET@ + "\r\n"@
            &&& found && groups.len() == 0 ==> middle == DIM@ + "no agents"@ + RESET@ + "\r\n"@
            &&& found && groups.len() > 0 ==> middle == tab_lines(
                groups,
                selected,
                frame,
                theme,
                columns(cols),
            )
            &&& groups.len() == 0 ==> gap == seq!['\r', '\n']
            &&& groups.len() > 0 ==> gap.len() == 0
            &&& value_of(at_work) == rows.filter(
                |row: RowView| row.status == Status::Working,
            ).len()
            &&& value_of(waiting) == calls
            &&& all_digits(at_work) && all_digits(waiting)
            &&& calls == 0 ==> count == DIM@ + at_work + " working"@ + RESET@ + "\r\n"@
            &&& calls > 0 ==> count == DIM@ + at_work + " working \u{B7}"@ + RESET@ + " "@ + BOLD@
                + ALARM@ + waiting + " need you"@ + RESET@ + "\r\n"@
        }),
{
    reveal_strlit("");
    reveal_strlit("\r\n");
    assert("\r\n"@ =~= seq!['\r', '\n']);
    let rows = flat(groups);
    law_counts_are_by_status(rows);
    law_decimal_writes_the_number(working(rows));
    law_decimal_writes_the_number(needing(rows));
    (
        middle(groups, selected, found, frame, theme, columns(cols)),
        if groups.len() == 0 {
            "\r\n"@
        } else {
            ""@
        },
        count_line(rows),
        decimal(working(rows)),
        decimal(needing(rows)),
    )
}

} // verus!
