//! What the two displays have in common: colours, cutting, counting, and which
//! row speaks for its tab.
use vstd::prelude::*;

use crate::groups::{GroupView, TabGroup, by_row_key, flat, flat_rows, group_views, row_key};
use crate::model::{Row, RowView, row_views};
use crate::order::ordered;
use crate::status::Status;
use crate::text::{chars_of, text_of};

verus! {

pub const DIM: &'static str = "\x1b[90m";

pub const BOLD: &'static str = "\x1b[1m";

pub const RESET: &'static str = "\x1b[0m";

pub const FG_RESET: &'static str = "\x1b[39m";

pub const ALARM: &'static str = "\x1b[91m";

/// `s` in at most `max` characters: a longer text loses its end to an ellipsis.
/// Where `max` is zero the ellipsis alone is left of it.
pub open spec fn shortened(s: Seq<char>, max: nat) -> Seq<char> {
    if s.len() <= max {
        s
    } else if max == 0 {
        seq!['\u{2026}']
    } else {
        s.take(max - 1).push('\u{2026}')
    }
}

/// Shortens `s` to `max` characters.
pub fn truncate(s: &str, max: usize) -> (short: String)
    ensures
        short@ == shortened(s@, max as nat),
{
    let chars = chars_of(s);
    if chars.len() <= max {
        return s.to_owned();
    }
    let mut short = text_of(&chars, 0, max.saturating_sub(1));
    short.push('\u{2026}');
    assert(short@ =~= shortened(s@, max as nat));
    short
}

/// A shortened text has at most `max` characters, where that is one at least.
/// Shortening it again changes nothing, and a text that fits is kept.
pub proof fn law_shortened_fits(s: Seq<char>, max: nat)
    requires
        max > 0,
    ensures
        shortened(s, max).len() <= max,
        shortened(shortened(s, max), max) == shortened(s, max),
        s.len() <= max ==> shortened(s, max) == s,
{
}

/// The first of the most urgent of `rows`.
pub open spec fn head(rows: Seq<RowView>) -> RowView
    decreases rows.len(),
{
    if rows.len() <= 1 {
        rows[0]
    } else {
        let before = head(rows.drop_last());
        if rows.last().status.rank() < before.status.rank() {
            rows.last()
        } else {
            before
        }
    }
}

/// The status that stands for a whole tab.
pub fn head_status(rows: &Vec<Row>) -> (status: Status)
    requires
        rows.len() > 0,
    ensures
        status == head(row_views(rows@)).status,
{
    let ghost views = row_views(rows@);
    let mut status = rows[0].status;
    let mut i: usize = 1;
    assert(views.take(1).len() == 1);
    while i < rows.len()
        invariant
            1 <= i <= rows.len(),
            views == row_views(rows@),
            status == head(views.take(i as int)).status,
        decreases rows.len() - i,
    {
        assert(views.take(i + 1).drop_last() =~= views.take(i as int));
        if rows[i].status.severity() < status.severity() {
            status = rows[i].status;
        }
        i += 1;
    }
    assert(views.take(i as int) =~= views);
    status
}

/// The row that speaks for its tab is one of the tab's rows, and none of them is
/// more urgent.
pub proof fn law_head_is_most_urgent(rows: Seq<RowView>)
    requires
        rows.len() > 0,
    ensures
        rows.contains(head(rows)),
        forall|i: int| 0 <= i < rows.len() ==> head(rows).status.rank() <= (#[trigger] rows[i]).status.rank(),
    decreases rows.len(),
{
    if rows.len() > 1 {
        let before = rows.drop_last();
        law_head_is_most_urgent(before);
        let at = choose|i: int| 0 <= i < before.len() && before[i] == head(before);
        assert(rows[at] == head(before));
        assert(rows[rows.len() - 1] == rows.last());
        assert forall|i: int| 0 <= i < rows.len() implies head(rows).status.rank() <= (
        #[trigger] rows[i]).status.rank() by {
            if i < before.len() {
                assert(before[i] == rows[i]);
            }
        }
    } else {
        assert(rows[0] == head(rows));
    }
}

/// Where the rows of a tab stand in their order, the first speaks for the tab.
pub proof fn law_head_comes_first(rows: Seq<RowView>)
    requires
        rows.len() > 0,
        ordered(rows, by_row_key()),
    ensures
        head(rows) == rows[0],
    decreases rows.len(),
{
    if rows.len() > 1 {
        let before = rows.drop_last();
        assert forall|i: int, j: int| 0 <= i < j < before.len() implies by_row_key()(before[i]) <= by_row_key()(
            before[j],
        ) by {
            assert(before[i] == rows[i]);
            assert(before[j] == rows[j]);
        }
        law_head_comes_first(before);
        assert(by_row_key()(rows[0]) <= by_row_key()(rows[rows.len() - 1]));
        assert(row_key(rows[0]) <= row_key(rows.last()));
    }
}

/// What a row says: the agent's message, or the title of its pane.
pub open spec fn detail(row: RowView) -> Seq<char> {
    match row.message {
        Some(message) => message,
        None => row.pane_title,
    }
}

/// Picks what a row says.
pub fn detail_of(row: &Row) -> (text: &str)
    ensures
        text@ == detail(row@),
{
    match &row.message {
        Some(message) => message.as_str(),
        None => row.pane_title.as_str(),
    }
}

/// How many of `rows` are at work.
pub open spec fn working(rows: Seq<RowView>) -> nat
    decreases rows.len(),
{
    if rows.len() == 0 {
        0
    } else {
        working(rows.drop_last()) + if rows.last().status is Working {
            1nat
        } else {
            0nat
        }
    }
}

/// How many of `rows` need a human.
pub open spec fn needing(rows: Seq<RowView>) -> nat
    decreases rows.len(),
{
    if rows.len() == 0 {
        0
    } else {
        needing(rows.drop_last()) + if rows.last().status.calls_for_you() {
            1nat
        } else {
            0nat
        }
    }
}

/// Counts the agents that are at work, and those that need a human.
pub fn tally(groups: &[TabGroup]) -> (counts: (usize, usize))
    ensures
        counts.0 == working(flat(group_views(groups@))),
        counts.1 == needing(flat(group_views(groups@))),
{
    let rows = flat_rows(groups);
    let ghost views = flat(group_views(groups@));
    let mut at_work: usize = 0;
    let mut waiting: usize = 0;
    let mut i: usize = 0;
    while i < rows.len()
        invariant
            i <= rows.len(),
            views == Seq::new(rows@.len(), |i: int| rows@[i]@),
            at_work <= i,
            waiting <= i,
            at_work == working(views.take(i as int)),
            waiting == needing(views.take(i as int)),
        decreases rows.len() - i,
    {
        assert(views.take(i + 1).drop_last() =~= views.take(i as int));
        if matches!(rows[i].status, Status::Working) {
            at_work += 1;
        }
        if rows[i].status.needs_you() {
            waiting += 1;
        }
        i += 1;
    }
    assert(views.take(i as int) =~= views);
    (at_work, waiting)
}

/// A row is selected under the number under which it is drawn: row `r` of group `g`
/// is drawn behind the rows of the groups before `g`, and stands at that place among
/// all rows.
pub proof fn law_drawn_number_selects_the_row(groups: Seq<GroupView>, g: int, r: int)
    requires
        0 <= g < groups.len(),
        0 <= r < groups[g].rows.len(),
    ensures
        ({
            let number = flat(groups.take(g)).len() + r;
            &&& number < flat(groups).len()
            &&& flat(groups)[number] == groups[g].rows[r]
        }),
{
    lemma_flat_prefix(groups, g);
    lemma_flat_starts(groups, g + 1);
    let number = flat(groups.take(g)).len() + r;
    assert(flat(groups.take(g + 1))[number] == groups[g].rows[r]);
}

proof fn lemma_flat_starts(groups: Seq<GroupView>, n: int)
    requires
        0 <= n <= groups.len(),
    ensures
        flat(groups.take(n)).is_prefix_of(flat(groups)),
    decreases groups.len() - n,
{
    if n < groups.len() {
        lemma_flat_prefix(groups, n);
        lemma_flat_starts(groups, n + 1);
        assert(flat(groups.take(n)).is_prefix_of(flat(groups.take(n + 1))));
    } else {
        assert(groups.take(n) =~= groups);
    }
}

/// The rows before group `n`, and those of group `n`, are among all rows.
pub proof fn lemma_flat_prefix(groups: Seq<GroupView>, n: int)
    requires
        0 <= n < groups.len(),
    ensures
        flat(groups.take(n + 1)) == flat(groups.take(n)) + groups[n].rows,
        flat(groups.take(n)).len() + groups[n].rows.len() <= flat(groups).len(),
    decreases groups.len() - n,
{
    assert(groups.take(n + 1).drop_last() =~= groups.take(n));
    if n + 1 < groups.len() {
        lemma_flat_prefix(groups, n + 1);
    } else {
        assert(groups.take(n + 1) =~= groups);
    }
}

/// The row that speaks for its tab is the first of those that no other is more urgent than.
pub proof fn law_head_is_the_first_most_urgent(rows: Seq<RowView>, i: int)
    requires
        0 <= i < rows.len(),
        forall|j: int| 0 <= j < i ==> (#[trigger] rows[j]).status.rank() > rows[i].status.rank(),
        forall|j: int|
            0 <= j < rows.len() ==> (#[trigger] rows[j]).status.rank() >= rows[i].status.rank(),
    ensures
        head(rows) == rows[i],
    decreases rows.len(),
{
    if rows.len() > 1 {
        let rest = rows.drop_last();
        if i < rest.len() {
            assert forall|j: int| 0 <= j < i implies (#[trigger] rest[j]).status.rank()
                > rest[i].status.rank() by {
                assert(rest[j] == rows[j]);
            }
            assert forall|j: int| 0 <= j < rest.len() implies (#[trigger] rest[j]).status.rank()
                >= rest[i].status.rank() by {
                assert(rest[j] == rows[j]);
            }
            law_head_is_the_first_most_urgent(rest, i);
            assert(rows[rows.len() - 1].status.rank() >= rows[i].status.rank());
        } else {
            law_head_is_most_urgent(rest);
            let k = choose|k: int| 0 <= k < rest.len() && rest[k] == head(rest);
            assert(rows[k] == rest[k]);
            assert(rows[k].status.rank() > rows[i].status.rank());
        }
    }
}

/// A row says the agent's message where there is one, and the title of its pane where there
/// is none.
pub proof fn law_row_says_message_or_title(row: RowView)
    ensures
        row.message matches Some(message) ==> detail(row) == message,
        row.message is None ==> detail(row) == row.pane_title,
{
}

/// Agents are counted by their status: each at work once, and each that is blocked or has
/// failed once.
pub proof fn law_counts_are_by_status(rows: Seq<RowView>)
    ensures
        working(rows) == rows.filter(|row: RowView| row.status == Status::Working).len(),
        needing(rows) == rows.filter(
            |row: RowView| row.status == Status::Blocked || row.status == Status::Error,
        ).len(),
    decreases rows.len(),
{
    let at_work = |row: RowView| row.status == Status::Working;
    let waiting = |row: RowView| row.status == Status::Blocked || row.status == Status::Error;
    if rows.len() == 0 {
        reveal(Seq::filter);
    } else {
        let rest = rows.drop_last();
        law_counts_are_by_status(rest);
        rest.lemma_filter_push(rows.last(), at_work);
        rest.lemma_filter_push(rows.last(), waiting);
        assert(rest.push(rows.last()) =~= rows);
    }
}

/// A text that is too long keeps its beginning, as much of it as leaves room for the
/// ellipsis at its end, and fills the space that it is given.
pub proof fn law_shortened_keeps_the_beginning(s: Seq<char>, max: nat)
    requires
        s.len() > max,
    ensures
        max > 0 ==> shortened(s, max).len() == max,
        max > 0 ==> shortened(s, max).take(max - 1) == s.take(max - 1),
        max == 0 ==> shortened(s, max).len() == 1,
        shortened(s, max).last() as int == 0x2026,
{
    if max > 0 {
        assert(shortened(s, max).take(max - 1) =~= s.take(max - 1));
    }
}

/// Rows are numbered over all tabs: two rows never bear one number.
pub proof fn law_numbers_are_unique(groups: Seq<GroupView>, g: int, r: int, h: int, s: int)
    requires
        0 <= g < groups.len(),
        0 <= r < groups[g].rows.len(),
        0 <= h < groups.len(),
        0 <= s < groups[h].rows.len(),
        flat(groups.take(g)).len() + r == flat(groups.take(h)).len() + s,
    ensures
        g == h,
        r == s,
{
    if g < h {
        lemma_flat_grows(groups, g, h);
    } else if h < g {
        lemma_flat_grows(groups, h, g);
    }
}

proof fn lemma_flat_grows(groups: Seq<GroupView>, g: int, h: int)
    requires
        0 <= g < h <= groups.len(),
    ensures
        flat(groups.take(g)).len() + groups[g].rows.len() <= flat(groups.take(h)).len(),
    decreases h - g,
{
    lemma_flat_prefix(groups, g);
    if g + 1 < h {
        lemma_flat_grows(groups, g + 1, h);
    }
}

/// A text within a text within a text: how its pieces stand in one row.
pub proof fn lemma_pieces_in_a_row(
    top: Seq<char>,
    before: Seq<char>,
    head: Seq<char>,
    above: Seq<char>,
    line: Seq<char>,
    behind: Seq<char>,
    below: Seq<char>,
    bottom: Seq<char>,
)
    ensures
        top + (before + head + (above + line + behind) + below) + bottom == top + before + head + above
            + line + (behind + below + bottom),
{
    assert(top + (before + head + (above + line + behind) + below) + bottom =~= top + before + head
        + above + line + (behind + below + bottom));
}

} // verus!
