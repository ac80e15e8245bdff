//! How the sidebar draws its rows: the tabs, the agents below each, and a count.
use vstd::prelude::*;

use crate::groups::{GroupView, TabGroup, flat, flat_rows, group_views};
use crate::model::{Row, RowView, row_views};
use crate::screen::{
    ALARM, BOLD, DIM, FG_RESET, RESET, detail, detail_of, head, head_status,
    law_counts_are_by_status, law_head_is_the_first_most_urgent, law_row_says_message_or_title,
    law_shortened_keeps_the_beginning, lemma_flat_prefix, lemma_pieces_in_a_row, needing,
    shortened, tally, working,
};
use crate::status::Status;
use crate::text::{all_digits, decimal, law_decimal_writes_the_number, number, value_of};

verus! {

/// The margin that keeps text off the border of the pane.
pub const PAD: &'static str = " ";

/// `s` in at most `max` characters, the ellipsis of a longer text included.
pub open spec fn truncated(s: Seq<char>, max: nat) -> Seq<char> {
    if max == 0 {
        Seq::empty()
    } else {
        shortened(s, max)
    }
}

/// Cuts `s` to `max` characters.
pub fn truncate(s: &str, max: usize) -> (cut: String)
    ensures
        cut@ == truncated(s@, max as nat),
{
    if max == 0 {
        return String::new();
    }
    crate::screen::truncate(s, max)
}

/// The columns that are drawn to: no fewer than ten.
pub open spec fn width_of(cols: nat) -> nat {
    if cols < 10 {
        10
    } else {
        cols
    }
}

/// The line of a tab: its most urgent status, and its name.
pub open spec fn tab_line(group: GroupView, width: nat) -> Seq<char> {
    let status = head(group.rows).status;
    PAD@ + status.color() + seq![status.mark()] + BOLD@ + " "@ + truncated(
        group.tab_name,
        (width - 4) as nat,
    ) + RESET@ + "\n"@
}

/// The line of an agent: its status, and what it says. The selected one is bold,
/// and the last of a tab closes the branch.
pub open spec fn row_line(row: RowView, last: bool, selected: bool, width: nat) -> Seq<char> {
    PAD@ + DIM@ + "  "@ + (if last {
        "\u{2514}"@
    } else {
        "\u{251C}"@
    }) + FG_RESET@ + " "@ + row.status.color() + seq![row.status.mark()] + FG_RESET@ + " "@ + (
    if selected {
        BOLD@
    } else {
        ""@
    }) + truncated(detail(row), (width - 8) as nat) + RESET@ + "\n"@
}

/// The lines of the first `n` rows of a tab whose first row is number `first`.
pub open spec fn row_lines(
    rows: Seq<RowView>,
    n: nat,
    first: nat,
    selected: nat,
    width: nat,
) -> Seq<char>
    decreases n,
{
    if n == 0 {
        Seq::empty()
    } else {
        row_lines(rows, (n - 1) as nat, first, selected, width) + row_line(
            rows[n - 1],
            n == rows.len(),
            first + n - 1 == selected,
            width,
        )
    }
}

/// The lines of all tabs and agents.
pub open spec fn tab_lines(groups: Seq<GroupView>, selected: nat, width: nat) -> Seq<char>
    decreases groups.len(),
{
    if groups.len() == 0 {
        Seq::empty()
    } else {
        let group = groups.last();
        tab_lines(groups.drop_last(), selected, width) + tab_line(group, width) + row_lines(
            group.rows,
            group.rows.len(),
            flat(groups.drop_last()).len(),
            selected,
            width,
        )
    }
}

/// The line that counts the agents at work and those that need a human.
pub open spec fn count_line(rows: Seq<RowView>) -> Seq<char> {
    let counted = PAD@ + DIM@ + decimal(working(rows)) + " working"@ + RESET@;
    if needing(rows) > 0 {
        counted + " "@ + BOLD@ + ALARM@ + decimal(needing(rows)) + " need you"@ + RESET@ + "\n"@
    } else {
        counted + "\n"@
    }
}

/// All that the sidebar draws in `cols` columns.
pub open spec fn sidebar_text(groups: Seq<GroupView>, selected: nat, cols: nat) -> Seq<char> {
    let title = BOLD@ + PAD@ + "AGENTS"@ + RESET@ + "\n"@;
    if groups.len() == 0 {
        title + (PAD@ + DIM@ + "no agents"@ + RESET@ + "\n"@)
    } else {
        title + tab_lines(groups, selected, width_of(cols)) + count_line(flat(groups))
    }
}

fn tab_text(group: &TabGroup, width: usize) -> (line: String)
    requires
        group.rows.len() > 0,
        width >= 10,
    ensures
        line@ == tab_line(group@, width as nat),
{
    let status = head_status(&group.rows);
    let mut line = PAD.to_owned();
    line.append(status.ansi());
    line.append(status.glyph());
    line.append(BOLD);
    line.append(" ");
    line.append(truncate(group.tab_name.as_str(), width - 4).as_str());
    line.append(RESET);
    line.append("\n");
    line
}

fn row_text(row: &Row, last: bool, selected: bool, width: usize) -> (line: String)
    requires
        width >= 10,
    ensures
        line@ == row_line(row@, last, selected, width as nat),
{
    let mut line = PAD.to_owned();
    line.append(DIM);
    line.append("  ");
    line.append(
        if last {
            "\u{2514}"
        } else {
            "\u{251C}"
        },
    );
    line.append(FG_RESET);
    line.append(" ");
    line.append(row.status.ansi());
    line.append(row.status.glyph());
    line.append(FG_RESET);
    line.append(" ");
    line.append(
        if selected {
            BOLD
        } else {
            ""
        },
    );
    line.append(truncate(detail_of(row), width - 8).as_str());
    line.append(RESET);
    line.append("\n");
    line
}

fn rows_text(rows: &Vec<Row>, first: usize, selected: usize, width: usize) -> (text: String)
    requires
        width >= 10,
        first + rows.len() <= usize::MAX,
    ensures
        text@ == row_lines(
            row_views(rows@),
            rows@.len(),
            first as nat,
            selected as nat,
            width as nat,
        ),
{
    let ghost views = row_views(rows@);
    let mut text = String::new();
    let mut i: usize = 0;
    assert(text@ =~= Seq::<char>::empty());
    while i < rows.len()
        invariant
            i <= rows.len(),
            width >= 10,
            first + rows.len() <= usize::MAX,
            views == row_views(rows@),
            text@ == row_lines(views, i as nat, first as nat, selected as nat, width as nat),
        decreases rows.len() - i,
    {
        assert(views[i as int] == rows@[i as int]@);
        text.append(row_text(&rows[i], i + 1 == rows.len(), first + i == selected, width).as_str());
        i += 1;
    }
    text
}

fn count_text(groups: &[TabGroup]) -> (line: String)
    ensures
        line@ == count_line(flat(group_views(groups@))),
{
    let (at_work, waiting) = tally(groups);
    let mut line = PAD.to_owned();
    line.append(DIM);
    line.append(number(at_work as u128).as_str());
    line.append(" working");
    line.append(RESET);
    if waiting > 0 {
        line.append(" ");
        line.append(BOLD);
        line.append(ALARM);
        line.append(number(waiting as u128).as_str());
        line.append(" need you");
        line.append(RESET);
    }
    line.append("\n");
    line
}

/// Draws `groups` in `cols` columns, with row number `selected` marked.
pub fn sidebar_screen(groups: &[TabGroup], selected: usize, cols: usize) -> (text: String)
    requires
        forall|i: int| 0 <= i < groups.len() ==> (#[trigger] groups@[i]).rows.len() > 0,
    ensures
        text@ == sidebar_text(group_views(groups@), selected as nat, cols as nat),
{
    let width: usize = if cols < 10 {
        10
    } else {
        cols
    };
    let mut text = BOLD.to_owned();
    text.append(PAD);
    text.append("AGENTS");
    text.append(RESET);
    text.append("\n");
    if groups.len() == 0 {
        let mut line = PAD.to_owned();
        line.append(DIM);
        line.append("no agents");
        line.append(RESET);
        line.append("\n");
        text.append(line.as_str());
        return text;
    }
    let ghost title = text@;
    let ghost views = group_views(groups@);
    let total: usize = flat_rows(groups).len();
    let mut first: usize = 0;
    let mut g: usize = 0;
    assert(views.take(0) =~= Seq::<GroupView>::empty());
    assert(title + tab_lines(views.take(0), selected as nat, width as nat) =~= title);
    while g < groups.len()
        invariant
            g <= groups.len(),
            width >= 10,
            views == group_views(groups@),
            total == flat(views).len(),
            first == flat(views.take(g as int)).len(),
            forall|i: int| 0 <= i < groups.len() ==> (#[trigger] groups@[i]).rows.len() > 0,
            text@ == title + tab_lines(views.take(g as int), selected as nat, width as nat),
        decreases groups.len() - g,
    {
        proof {
            lemma_flat_prefix(views, g as int);
            assert(views.take(g + 1).drop_last() =~= views.take(g as int));
        }
        let ghost before = text@;
        text.append(tab_text(&groups[g], width).as_str());
        text.append(rows_text(&groups[g].rows, first, selected, width).as_str());
        assert(text@ =~= title + tab_lines(views.take(g + 1), selected as nat, width as nat));
        first += groups[g].rows.len();
        g += 1;
    }
    assert(views.take(g as int) =~= views);
    text.append(count_text(groups).as_str());
    text
}

/// The columns are those of the pane, and ten where it has fewer.
pub proof fn law_width_is_ten_at_least(cols: nat)
    ensures
        width_of(cols) >= 10,
        cols >= 10 ==> width_of(cols) == cols,
        cols < 10 ==> width_of(cols) == 10,
{
}

/// A text that is cut never takes more than the space that it is given, no space at all
/// included. One that fits is kept, and one that does not keeps its beginning and ends in an
/// ellipsis.
pub proof fn law_truncated_fits(s: Seq<char>, max: nat)
    ensures
        truncated(s, max).len() <= max,
        s.len() <= max ==> truncated(s, max) == s,
        s.len() > max && max > 0 ==> {
            &&& truncated(s, max).len() == max
            &&& truncated(s, max).take(max - 1) == s.take(max - 1)
            &&& truncated(s, max).last() as int == 0x2026
        },
{
    if s.len() > max {
        law_shortened_keeps_the_beginning(s, max);
    } else {
        assert(truncated(s, max) =~= s);
    }
}

/// What stands on the line of an agent: the branch, which closes on the last agent of a tab;
/// the colour and the mark of the agent's own status; and what the agent says, or else the
/// title of its pane, as much of it as leaves eight columns free, in bold if and only if it is
/// selected. The parts that differ from line to line are the branch, the style and the text.
pub proof fn law_row_line_shows_the_agent(
    row: RowView,
    last: bool,
    selected: bool,
    width: nat,
) -> (parts: (Seq<char>, Seq<char>, Seq<char>))
    requires
        width >= 10,
    ensures
        ({
            let (branch, style, said) = parts;
            let whole = match row.message {
                Some(message) => message,
                None => row.pane_title,
            };
            &&& row_line(row, last, selected, width) == PAD@ + DIM@ + "  "@ + branch + FG_RESET@
                + " "@ + row.status.color() + seq![row.status.mark()] + FG_RESET@ + " "@ + style
                + said + RESET@ + "\n"@
            &&& branch.len() == 1
            &&& last ==> branch[0] as int == 0x2514
            &&& !last ==> branch[0] as int == 0x251C
            &&& selected ==> style == BOLD@
            &&& !selected ==> style.len() == 0
            &&& whole.len() + 8 <= width ==> said == whole
            &&& whole.len() + 8 > width ==> {
                &&& said.len() + 8 == width
                &&& said.take(width - 9) == whole.take(width - 9)
                &&& said.last() as int == 0x2026
            }
        }),
{
    reveal_strlit("");
    reveal_strlit("\u{2514}");
    reveal_strlit("\u{251C}");
    law_row_says_message_or_title(row);
    law_truncated_fits(detail(row), (width - 8) as nat);
    let branch = if last {
        "\u{2514}"@
    } else {
        "\u{251C}"@
    };
    let style = if selected {
        BOLD@
    } else {
        ""@
    };
    (branch, style, truncated(detail(row), (width - 8) as nat))
}

/// What stands on the line of a tab: the colour and the mark of the first of its most urgent
/// agents, and the name of the tab in bold, as much of it as leaves four columns free.
pub proof fn law_tab_line_shows_the_most_urgent(group: GroupView, i: int, width: nat) -> (name: Seq<
    char,
>)
    requires
        width >= 10,
        0 <= i < group.rows.len(),
        forall|j: int|
            0 <= j < i ==> (#[trigger] group.rows[j]).status.rank() > group.rows[i].status.rank(),
        forall|j: int|
            0 <= j < group.rows.len() ==> (#[trigger] group.rows[j]).status.rank()
                >= group.rows[i].status.rank(),
    ensures
        tab_line(group, width) == PAD@ + group.rows[i].status.color() + seq![
            group.rows[i].status.mark(),
        ] + BOLD@ + " "@ + name + RESET@ + "\n"@,
        group.tab_name.len() + 4 <= width ==> name == group.tab_name,
        group.tab_name.len() + 4 > width ==> {
            &&& name.len() + 4 == width
            &&& name.take(width - 5) == group.tab_name.take(width - 5)
            &&& name.last() as int == 0x2026
        },
{
    law_head_is_the_first_most_urgent(group.rows, i);
    law_truncated_fits(group.tab_name, (width - 4) as nat);
    truncated(group.tab_name, (width - 4) as nat)
}

proof fn lemma_row_lines_split(
    rows: Seq<RowView>,
    n: nat,
    r: nat,
    first: nat,
    selected: nat,
    width: nat,
) -> (rest: Seq<char>)
    requires
        r < n <= rows.len(),
    ensures
        row_lines(rows, n, first, selected, width) == row_lines(rows, r, first, selected, width)
            + row_line(rows[r as int], r + 1 == rows.len(), first + r == selected, width) + rest,
    decreases n - r,
{
    if n == r + 1 {
        let whole = row_lines(rows, n, first, selected, width);
        assert(whole =~= row_lines(rows, r, first, selected, width) + row_line(
            rows[r as int],
            r + 1 == rows.len(),
            first + r == selected,
            width,
        ) + Seq::<char>::empty());
        Seq::empty()
    } else {
        let rest = lemma_row_lines_split(rows, (n - 1) as nat, r, first, selected, width);
        let last = row_line(rows[n - 1], n == rows.len(), first + n - 1 == selected, width);
        assert(row_lines(rows, n, first, selected, width) =~= row_lines(
            rows,
            r,
            first,
            selected,
            width,
        ) + row_line(rows[r as int], r + 1 == rows.len(), first + r == selected, width) + (rest
            + last));
        rest + last
    }
}

proof fn lemma_tab_lines_split(groups: Seq<GroupView>, g: int, selected: nat, width: nat) -> (rest:
    Seq<char>)
    requires
        0 <= g < groups.len(),
    ensures
        tab_lines(groups, selected, width) == tab_lines(groups.take(g), selected, width) + tab_line(
            groups[g],
            width,
        ) + row_lines(
            groups[g].rows,
            groups[g].rows.len(),
            flat(groups.take(g)).len(),
            selected,
            width,
        ) + rest,
    decreases groups.len() - g,
{
    if g == groups.len() - 1 {
        assert(groups.drop_last() =~= groups.take(g));
        let whole = tab_lines(groups, selected, width);
        assert(whole =~= whole + Seq::<char>::empty());
        Seq::empty()
    } else {
        let before = groups.drop_last();
        let rest = lemma_tab_lines_split(before, g, selected, width);
        assert(before.take(g) =~= groups.take(g));
        let last = tab_line(groups.last(), width) + row_lines(
            groups.last().rows,
            groups.last().rows.len(),
            flat(before).len(),
            selected,
            width,
        );
        assert(tab_lines(groups, selected, width) =~= tab_lines(
            groups.take(g),
            selected,
            width,
        ) + tab_line(groups[g], width) + row_lines(
            groups[g].rows,
            groups[g].rows.len(),
            flat(groups.take(g)).len(),
            selected,
            width,
        ) + (rest + last));
        rest + last
    }
}

/// Where an agent's line stands on the sidebar: below the title, the tabs before its own, the
/// line of its tab, and the agents of the tab that come before it. It is drawn as selected if
/// and only if the selection is the number of agents in the tabs before, plus its own place in
/// the tab; and it closes the branch if and only if it is the last of its tab.
pub proof fn law_sidebar_draws_each_agent_in_its_place(
    groups: Seq<GroupView>,
    selected: nat,
    cols: nat,
    g: int,
    r: nat,
) -> (rest: Seq<char>)
    requires
        0 <= g < groups.len(),
        r < groups[g].rows.len(),
    ensures
        ({
            let width = width_of(cols);
            let number = flat(groups.take(g)).len() + r;
            sidebar_text(groups, selected, cols) == BOLD@ + PAD@ + "AGENTS"@ + RESET@ + "\n"@
                + tab_lines(groups.take(g), selected, width) + tab_line(groups[g], width)
                + row_lines(groups[g].rows, r, flat(groups.take(g)).len(), selected, width)
                + row_line(
                groups[g].rows[r as int],
                r + 1 == groups[g].rows.len(),
                number == selected,
                width,
            ) + rest
        }),
{
    let width = width_of(cols);
    let first = flat(groups.take(g)).len();
    let rows = groups[g].rows;
    let title = BOLD@ + PAD@ + "AGENTS"@ + RESET@ + "\n"@;
    let below = lemma_tab_lines_split(groups, g, selected, width);
    let behind = lemma_row_lines_split(rows, rows.len(), r, first, selected, width);
    lemma_pieces_in_a_row(
        title,
        tab_lines(groups.take(g), selected, width),
        tab_line(groups[g], width),
        row_lines(rows, r, first, selected, width),
        row_line(rows[r as int], r + 1 == rows.len(), first + r == selected, width),
        behind,
        below,
        count_line(flat(groups)),
    );
    behind + below + count_line(flat(groups))
}

/// What stands on top of the sidebar and what below: the title, and the count of the agents
/// that are at work and, if there are any, of those that are blocked or have failed. A sidebar
/// without agents says so instead, and the same whatever is selected and however wide it is.
pub proof fn law_sidebar_counts_its_agents(groups: Seq<GroupView>, selected: nat, cols: nat) -> (parts:
    (Seq<char>, Seq<char>, Seq<char>))
    ensures
        ({
            let (middle, at_work, waiting) = parts;
            let rows = flat(groups);
            let title = BOLD@ + PAD@ + "AGENTS"@ + RESET@ + "\n"@;
            let calls = rows.filter(
                |row: RowView| row.status == Status::Blocked || row.status == Status::Error,
            ).len();
            &&& middle == tab_lines(groups, selected, width_of(cols))
            &&& groups.len() == 0 ==> sidebar_text(groups, selected, cols) == title + (PAD@ + DIM@
                + "no agents"@ + RESET@ + "\n"@)
            &&& value_of(at_work) == rows.filter(
                |row: RowView| row.status == Status::Working,
            ).len()
            &&& value_of(waiting) == calls
            &&& all_digits(at_work) && all_digits(waiting)
            &&& groups.len() > 0 && calls == 0 ==> sidebar_text(groups, selected, cols) == title
                + middle + (PAD@ + DIM@ + at_work + " working"@ + RESET@ + "\n"@)
            &&& groups.len() > 0 && calls > 0 ==> sidebar_text(groups, selected, cols) == title
                + middle + (PAD@ + DIM@ + at_work + " working"@ + RESET@ + " "@ + BOLD@ + ALARM@
                + waiting + " need you"@ + RESET@ + "\n"@)
        }),
{
    let rows = flat(groups);
    law_counts_are_by_status(rows);
    law_decimal_writes_the_number(working(rows));
    law_decimal_writes_the_number(needing(rows));
    (
        tab_lines(groups, selected, width_of(cols)),
        decimal(working(rows)),
        decimal(needing(rows)),
    )
}

/// Tabs are drawn one below the other, each with its line and the lines of its agents, and
/// nothing stands between them.
pub proof fn law_tabs_follow_one_another(
    groups: Seq<GroupView>,
    group: GroupView,
    selected: nat,
    width: nat,
)
    ensures
        tab_lines(Seq::<GroupView>::empty(), selected, width).len() == 0,
        tab_lines(groups.push(group), selected, width) == tab_lines(groups, selected, width)
            + tab_line(group, width) + row_lines(
            group.rows,
            group.rows.len(),
            flat(groups).len(),
            selected,
            width,
        ),
{
    assert(groups.push(group).drop_last() =~= groups);
}

} // verus!
