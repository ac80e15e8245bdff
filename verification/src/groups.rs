//! Rows by tab, with the most urgent first.
use vstd::multiset::Multiset;
use vstd::prelude::*;
use vstd::seq_lib::{lemma_multiset_commutative, to_multiset_build};

use crate::model::{Row, RowView, row_views};
use crate::order::{
    insert_by, law_sorting_is_stable, law_sorting_leaves_ties_in_place,
    law_sorting_orders_and_keeps, lemma_insert_at, ordered, sorted_by,
};

verus! {

/// The rows of one tab, the most urgent first.
#[derive(Debug)]
pub struct TabGroup {
    pub tab_name: String,
    pub rows: Vec<Row>,
}

/// What a `TabGroup` says.
pub struct GroupView {
    pub tab_name: Seq<char>,
    pub rows: Seq<RowView>,
}

impl View for TabGroup {
    type V = GroupView;

    open spec fn view(&self) -> GroupView {
        GroupView { tab_name: self.tab_name@, rows: row_views(self.rows@) }
    }
}

/// What a list of groups says.
pub open spec fn group_views(groups: Seq<TabGroup>) -> Seq<GroupView> {
    Seq::new(groups.len(), |i: int| groups[i]@)
}

/// The place of a row within its tab: by urgency, then by pane.
pub open spec fn row_key(row: RowView) -> int {
    row.status.rank() * 0x1_0000_0000 + row.pane_id
}

pub open spec fn by_row_key() -> spec_fn(RowView) -> int {
    |row: RowView| row_key(row)
}

pub open spec fn by_position() -> spec_fn(usize) -> int {
    |position: usize| position as int
}

/// The rows whose pane lies in the tab at `position`, in their own order.
pub open spec fn rows_in_tab(rows: Seq<RowView>, position: usize) -> Seq<RowView> {
    rows.filter(|row: RowView| row.tab_position == position)
}

/// The tabs that `rows` names, each once, from left to right.
pub open spec fn tab_order(rows: Seq<RowView>) -> Seq<usize>
    decreases rows.len(),
{
    if rows.len() == 0 {
        Seq::empty()
    } else {
        let before = tab_order(rows.drop_last());
        let position = rows.last().tab_position;
        if before.contains(position) {
            before
        } else {
            insert_by(before, by_position(), position)
        }
    }
}

/// The group of the tab at `position`: named as its first row names it, its
/// rows in the order of `row_key`.
pub open spec fn group_of(rows: Seq<RowView>, position: usize) -> GroupView {
    let own = rows_in_tab(rows, position);
    GroupView { tab_name: own[0].tab_name, rows: sorted_by(own, by_row_key()) }
}

/// One group for each tab, from left to right.
pub open spec fn groups_by_tab(rows: Seq<RowView>) -> Seq<GroupView> {
    Seq::new(tab_order(rows).len(), |i: int| group_of(rows, tab_order(rows)[i]))
}

/// The rank of the most urgent of `rows`; one past the last rank if there is
/// none.
pub open spec fn worst(rows: Seq<RowView>) -> nat
    decreases rows.len(),
{
    if rows.len() == 0 {
        5
    } else {
        let before = worst(rows.drop_last());
        let last = rows.last().status.rank();
        if last < before {
            last
        } else {
            before
        }
    }
}

pub open spec fn by_worst() -> spec_fn(GroupView) -> int {
    |group: GroupView| worst(group.rows) as int
}

/// `rows` by tab: the tab with the most urgent row first, tabs of the same
/// urgency from left to right.
pub open spec fn grouped(rows: Seq<RowView>) -> Seq<GroupView> {
    sorted_by(groups_by_tab(rows), by_worst())
}

/// The rows of all groups, in the order in which they stand.
pub open spec fn flat(groups: Seq<GroupView>) -> Seq<RowView>
    decreases groups.len(),
{
    if groups.len() == 0 {
        Seq::empty()
    } else {
        flat(groups.drop_last()) + groups.last().rows
    }
}

/// The place of `row` among rows in the order of `row_key`.
fn row_place(rows: &Vec<Row>, row: &Row) -> (at: usize)
    ensures
        at <= rows.len(),
        row_views(rows@).insert(at as int, row@) == insert_by(row_views(rows@), by_row_key(), row@),
{
    let mut at: usize = rows.len();
    while at > 0 && (rows[at - 1].status.severity() > row.status.severity() || (
    rows[at - 1].status.severity() == row.status.severity() && rows[at - 1].pane_id > row.pane_id))
        invariant
            at <= rows.len(),
            forall|i: int|
                at <= i < rows.len() ==> row_key(row@) < row_key(#[trigger] row_views(rows@)[i]),
        decreases at,
    {
        assert(row_key(row@) < row_key(row_views(rows@)[at - 1]));
        at -= 1;
    }
    proof {
        if at > 0 {
            assert(row_key(row_views(rows@)[at - 1]) <= row_key(row@));
        }
        lemma_insert_at(row_views(rows@), by_row_key(), row@, at as int);
    }
    at
}

/// The rank of the most urgent of `rows`.
fn worst_of(rows: &Vec<Row>) -> (rank: u8)
    ensures
        rank == worst(row_views(rows@)),
{
    let mut rank: u8 = 5;
    let mut i: usize = 0;
    let ghost views = row_views(rows@);
    assert(views.take(0) =~= Seq::<RowView>::empty());
    while i < rows.len()
        invariant
            i <= rows.len(),
            views == row_views(rows@),
            rank == worst(views.take(i as int)),
        decreases rows.len() - i,
    {
        assert(views.take(i + 1).drop_last() =~= views.take(i as int));
        let severity = rows[i].status.severity();
        if severity < rank {
            rank = severity;
        }
        i += 1;
    }
    assert(views.take(i as int) =~= views);
    rank
}

proof fn lemma_tab_order(rows: Seq<RowView>)
    ensures
        forall|position: usize| #[trigger]
            tab_order(rows).contains(position) <==> rows_in_tab(rows, position).len() > 0,
        forall|i: int, j: int|
            0 <= i < j < tab_order(rows).len() ==> #[trigger] tab_order(rows)[i] < #[trigger] tab_order(
                rows,
            )[j],
    decreases rows.len(),
{
    let all = tab_order(rows);
    if rows.len() == 0 {
        assert forall|position: usize| #[trigger] all.contains(position) <==> rows_in_tab(
            rows,
            position,
        ).len() > 0 by {
            reveal(Seq::filter);
        }
    } else {
        let rest = rows.drop_last();
        let before = tab_order(rest);
        let last = rows.last().tab_position;
        lemma_tab_order(rest);
        if !before.contains(last) {
            let at = crate::order::lemma_insert_place(before, by_position(), last);
            lemma_insert_at(before, by_position(), last, at);
            assert forall|i: int, j: int| 0 <= i < j < all.len() implies #[trigger] all[i]
                < #[trigger] all[j] by {
                if i == at {
                    assert(all[j] == before[j - 1]);
                } else if j == at {
                    assert(all[i] == before[i]);
                    assert(before[at - 1] <= last);
                    assert(before.contains(before[at - 1]));
                    assert(before[i] <= before[at - 1]);
                }
            }
            assert(all[at] == last);
        }
        assert forall|position: usize| #[trigger] all.contains(position) <==> rows_in_tab(
            rows,
            position,
        ).len() > 0 by {
            let p = |row: RowView| row.tab_position == position;
            rest.lemma_filter_push(rows.last(), p);
            assert(rest.push(rows.last()) =~= rows);
            if !before.contains(last) {
                let at = crate::order::lemma_insert_place(before, by_position(), last);
                lemma_insert_at(before, by_position(), last, at);
                if before.contains(position) {
                    let i = choose|i: int| 0 <= i < before.len() && before[i] == position;
                    assert(all[if i < at {
                        i
                    } else {
                        i + 1
                    }] == position);
                }
                if all.contains(position) && position != last {
                    let i = choose|i: int| 0 <= i < all.len() && all[i] == position;
                    assert(before[if i < at {
                        i
                    } else {
                        i - 1
                    }] == position);
                }
                assert(all[at] == last);
            }
        }
    }
}

/// How the groups change when one more row comes.
proof fn lemma_one_more_row(rows: Seq<RowView>, row: RowView, position: usize)
    ensures
        position != row.tab_position ==> rows_in_tab(rows.push(row), position) == rows_in_tab(
            rows,
            position,
        ),
        position == row.tab_position ==> rows_in_tab(rows.push(row), position) == rows_in_tab(
            rows,
            position,
        ).push(row),
        position != row.tab_position ==> group_of(rows.push(row), position) == group_of(
            rows,
            position,
        ),
        position == row.tab_position ==> group_of(rows.push(row), position).rows == insert_by(
            sorted_by(rows_in_tab(rows, position), by_row_key()),
            by_row_key(),
            row,
        ),
        position == row.tab_position ==> group_of(rows.push(row), position).tab_name == (if rows_in_tab(
            rows,
            position,
        ).len() > 0 {
            group_of(rows, position).tab_name
        } else {
            row.tab_name
        }),
{
    let p = |row: RowView| row.tab_position == position;
    rows.lemma_filter_push(row, p);
    let own = rows_in_tab(rows, position);
    assert(own.push(row).drop_last() =~= own);
}

/// Puts one row into the group of its tab, and opens that group if it is the
/// first row of its tab.
fn add_row(positions: &mut Vec<usize>, groups: &mut Vec<TabGroup>, row: Row, Ghost(rows): Ghost<
    Seq<RowView>,
>)
    requires
        old(positions)@ == tab_order(rows),
        group_views(old(groups)@) == groups_by_tab(rows),
    ensures
        final(positions)@ == tab_order(rows.push(row@)),
        group_views(final(groups)@) == groups_by_tab(rows.push(row@)),
{
    let ghost before = positions@;
    let ghost more = rows.push(row@);
    let position = row.tab_position;
    assert(more.drop_last() =~= rows);
    assert(group_views(groups@).len() == groups@.len());
    assert(groups_by_tab(rows).len() == tab_order(rows).len());
    assert(positions@.len() == tab_order(rows).len());
    assert(groups@.len() == positions@.len());
    proof {
        lemma_tab_order(rows);
        assert forall|q: usize| q != position implies #[trigger] group_of(more, q) == group_of(
            rows,
            q,
        ) by {
            lemma_one_more_row(rows, row@, q);
        }
        lemma_one_more_row(rows, row@, position);
    }
    let mut at: usize = positions.len();
    while at > 0 && positions[at - 1] > position
        invariant
            at <= positions.len(),
            forall|i: int| at <= i < positions.len() ==> position < #[trigger] positions[i],
        decreases at,
    {
        at -= 1;
    }
    if at > 0 && positions[at - 1] == position {
        let k = at - 1;
        let ghost old_group = groups@[k as int]@;
        assert(positions@[k as int] == position);
        assert(positions@.contains(position));
        assert(old_group == groups_by_tab(rows)[k as int]) by {
            assert(group_views(groups@)[k as int] == groups@[k as int]@);
        }
        let place = row_place(&groups[k].rows, &row);
        let ghost row_view = row@;
        let ghost old_groups = groups@;
        groups[k].rows.insert(place, row);
        proof {
            assert(row_views(groups@[k as int].rows@) =~= old_group.rows.insert(
                place as int,
                row_view,
            ));
            assert(group_views(groups@) =~= groups_by_tab(more)) by {
                assert forall|i: int| 0 <= i < groups@.len() implies #[trigger] group_views(
                    groups@,
                )[i] == groups_by_tab(more)[i] by {
                    assert(groups_by_tab(more)[i] == group_of(more, positions@[i]));
                    if i != k {
                        assert(positions@[i] != position);
                        assert(groups@[i] == old_groups[i]);
                        assert(group_views(old_groups)[i] == groups_by_tab(rows)[i]);
                    }
                }
            }
        }
    } else {
        proof {
            if positions@.contains(position) {
                let i = choose|i: int| 0 <= i < positions@.len() && positions@[i] == position;
                assert(i < at);
                assert(positions@[i] <= positions@[at - 1]);
                assert(false);
            }
            lemma_insert_at(before, by_position(), position, at as int);
        }
        let ghost row_view = row@;
        let ghost old_groups = groups@;
        let mut rows_of_tab: Vec<Row> = Vec::new();
        let tab_name = row.tab_name.clone();
        rows_of_tab.push(row);
        proof {
            let own = rows_in_tab(rows, position);
            assert(own =~= Seq::<RowView>::empty());
            assert(row_views(rows_of_tab@) =~= insert_by(
                sorted_by(own, by_row_key()),
                by_row_key(),
                row_view,
            ));
        }
        positions.insert(at, position);
        groups.insert(at, TabGroup { tab_name, rows: rows_of_tab });
        proof {
            assert(groups@[at as int]@ == group_of(more, position));
            assert(group_views(groups@) =~= groups_by_tab(more)) by {
                assert forall|i: int| 0 <= i < groups@.len() implies #[trigger] group_views(
                    groups@,
                )[i] == groups_by_tab(more)[i] by {
                    assert(groups_by_tab(more)[i] == group_of(more, positions@[i]));
                    if i < at {
                        assert(positions@[i] == before[i]);
                        assert(before.contains(before[i]));
                        assert(groups@[i] == old_groups[i]);
                        assert(group_views(old_groups)[i] == groups_by_tab(rows)[i]);
                    } else if i > at {
                        assert(positions@[i] == before[i - 1]);
                        assert(before.contains(before[i - 1]));
                        assert(groups@[i] == old_groups[i - 1]);
                        assert(group_views(old_groups)[i - 1] == groups_by_tab(rows)[i - 1]);
                    }
                }
            }
        }
    }
}

/// Puts one group behind every group that is at least as urgent.
fn add_group(groups: &mut Vec<TabGroup>, group: TabGroup)
    ensures
        group_views(final(groups)@) == insert_by(group_views(old(groups)@), by_worst(), group@),
{
    let rank = worst_of(&group.rows);
    let mut at: usize = groups.len();
    let ghost views = group_views(groups@);
    while at > 0 && worst_of(&groups[at - 1].rows) > rank
        invariant
            at <= groups.len(),
            views == group_views(groups@),
            rank == worst(group@.rows),
            forall|i: int| at <= i < views.len() ==> rank < worst(#[trigger] views[i].rows),
        decreases at,
    {
        assert(views[at - 1] == groups@[at - 1]@);
        at -= 1;
    }
    proof {
        if at > 0 {
            assert(views[at - 1] == groups@[at - 1]@);
        }
        lemma_insert_at(views, by_worst(), group@, at as int);
        assert(group_views(groups@.insert(at as int, group)) =~= views.insert(at as int, group@));
    }
    groups.insert(at, group);
}

/// Groups `rows` by tab, the most urgent first within each tab and over the
/// tabs.
pub fn grouped_rows(rows: Vec<Row>) -> (groups: Vec<TabGroup>)
    ensures
        group_views(groups@) == grouped(row_views(rows@)),
{
    let ghost views = row_views(rows@);
    let mut positions: Vec<usize> = Vec::new();
    let mut by_tab: Vec<TabGroup> = Vec::new();
    assert(views.take(0) =~= Seq::<RowView>::empty());
    assert(positions@ =~= tab_order(views.take(0)));
    assert(group_views(by_tab@) =~= groups_by_tab(views.take(0)));
    for row in it: rows
        invariant
            views == row_views(it.seq()),
            positions@ == tab_order(views.take(it.index() as int)),
            group_views(by_tab@) == groups_by_tab(views.take(it.index() as int)),
    {
        assert(views.take(it.index() as int).push(row@) =~= views.take(it.index() + 1));
        add_row(&mut positions, &mut by_tab, row, Ghost(views.take(it.index() as int)));
    }
    assert(views.take(views.len() as int) =~= views);
    let ghost tabs = group_views(by_tab@);
    let mut groups: Vec<TabGroup> = Vec::new();
    assert(tabs.take(0) =~= Seq::<GroupView>::empty());
    assert(group_views(groups@) =~= sorted_by(tabs.take(0), by_worst()));
    for group in it: by_tab
        invariant
            tabs == group_views(it.seq()),
            group_views(groups@) == sorted_by(tabs.take(it.index() as int), by_worst()),
    {
        assert(tabs.take(it.index() + 1).drop_last() =~= tabs.take(it.index() as int));
        add_group(&mut groups, group);
    }
    assert(tabs.take(tabs.len() as int) =~= tabs);
    groups
}

/// The rows of all groups, in the order in which they stand on screen.
pub fn flat_rows(groups: &[TabGroup]) -> (rows: Vec<&Row>)
    ensures
        Seq::new(rows@.len(), |i: int| rows@[i]@) == flat(group_views(groups@)),
{
    let mut rows: Vec<&Row> = Vec::new();
    let ghost views = group_views(groups@);
    let mut g: usize = 0;
    assert(views.take(0) =~= Seq::<GroupView>::empty());
    assert(Seq::new(rows@.len(), |i: int| rows@[i]@) =~= flat(views.take(0)));
    while g < groups.len()
        invariant
            g <= groups.len(),
            views == group_views(groups@),
            Seq::new(rows@.len(), |i: int| rows@[i]@) == flat(views.take(g as int)),
        decreases groups.len() - g,
    {
        let ghost before = flat(views.take(g as int));
        let ghost own = views[g as int].rows;
        let mut r: usize = 0;
        assert(before + own.take(0) =~= before);
        while r < groups[g].rows.len()
            invariant
                g < groups.len(),
                r <= groups[g as int].rows.len(),
                views == group_views(groups@),
                own == views[g as int].rows,
                Seq::new(rows@.len(), |i: int| rows@[i]@) == before + own.take(r as int),
            decreases groups[g as int].rows.len() - r,
        {
            let ghost old_rows = rows@;
            rows.push(&groups[g].rows[r]);
            assert(Seq::new(rows@.len(), |i: int| rows@[i]@) =~= Seq::new(
                old_rows.len(),
                |i: int| old_rows[i]@,
            ).push(own[r as int]));
            assert(before + own.take(r + 1) =~= (before + own.take(r as int)).push(own[r as int]));
            r += 1;
        }
        assert(own.take(r as int) =~= own);
        assert(views.take(g + 1).drop_last() =~= views.take(g as int));
        g += 1;
    }
    assert(views.take(g as int) =~= views);
    rows
}

proof fn lemma_same_members<T>(a: Seq<T>, b: Seq<T>, x: T)
    requires
        a.to_multiset() == b.to_multiset(),
    ensures
        a.contains(x) <==> b.contains(x),
{
    a.to_multiset_ensures();
    b.to_multiset_ensures();
    assert(a.contains(x) <==> a.to_multiset().count(x) > 0);
    assert(b.contains(x) <==> b.to_multiset().count(x) > 0);
}

/// What one group of `grouped(rows)` is: the group of a tab that `rows` names.
proof fn lemma_group_is_of_tab(rows: Seq<RowView>, g: int) -> (position: usize)
    requires
        0 <= g < grouped(rows).len(),
    ensures
        grouped(rows)[g] == group_of(rows, position),
        rows_in_tab(rows, position).len() > 0,
        grouped(rows)[g].rows.len() > 0,
        forall|i: int|
            0 <= i < grouped(rows)[g].rows.len() ==> (#[trigger] grouped(rows)[g].rows[i]).tab_position
                == position,
{
    let groups = grouped(rows);
    let tabs = groups_by_tab(rows);
    law_sorting_orders_and_keeps(tabs, by_worst());
    lemma_same_members(groups, tabs, groups[g]);
    assert(groups.contains(groups[g]));
    let t = choose|t: int| 0 <= t < tabs.len() && tabs[t] == groups[g];
    let position = tab_order(rows)[t];
    lemma_tab_order(rows);
    assert(tab_order(rows).contains(position));
    let own = rows_in_tab(rows, position);
    law_sorting_orders_and_keeps(own, by_row_key());
    assert forall|i: int| 0 <= i < groups[g].rows.len() implies (
    #[trigger] groups[g].rows[i]).tab_position == position by {
        lemma_same_members(groups[g].rows, own, groups[g].rows[i]);
        assert(groups[g].rows.contains(groups[g].rows[i]));
        let j = choose|j: int| 0 <= j < own.len() && own[j] == groups[g].rows[i];
        rows.lemma_filter_pred(|row: RowView| row.tab_position == position, j);
    }
    position
}

/// Each group is one whole tab: it is not empty, its rows share a tab that no
/// other group has, it holds every row of that tab, and it bears the name that
/// the first of those rows gives the tab.
pub proof fn law_each_group_is_one_tab(rows: Seq<RowView>)
    ensures
        forall|g: int|
            0 <= g < grouped(rows).len() ==> {
                let group = #[trigger] grouped(rows)[g];
                let own = rows_in_tab(rows, group.rows[0].tab_position);
                &&& group.rows.len() > 0
                &&& own.len() > 0
                &&& group.rows.to_multiset() == own.to_multiset()
                &&& group.tab_name == own[0].tab_name
            },
        forall|g: int, i: int|
            0 <= g < grouped(rows).len() && 0 <= i < grouped(rows)[g].rows.len() ==> (
            #[trigger] grouped(rows)[g].rows[i]).tab_position == grouped(rows)[g].rows[0].tab_position,
        forall|g: int, h: int|
            0 <= g < h < grouped(rows).len() ==> #[trigger] grouped(rows)[g].rows[0].tab_position
                != #[trigger] grouped(rows)[h].rows[0].tab_position,
{
    let groups = grouped(rows);
    let tabs = groups_by_tab(rows);
    assert forall|g: int| 0 <= g < groups.len() implies {
        let group = #[trigger] groups[g];
        let own = rows_in_tab(rows, group.rows[0].tab_position);
        &&& group.rows.len() > 0
        &&& own.len() > 0
        &&& group.rows.to_multiset() == own.to_multiset()
        &&& group.tab_name == own[0].tab_name
    } by {
        let position = lemma_group_is_of_tab(rows, g);
        assert(groups[g].rows[0].tab_position == position);
        law_sorting_orders_and_keeps(rows_in_tab(rows, position), by_row_key());
    }
    assert forall|g: int, i: int| 0 <= g < groups.len() && 0 <= i < groups[g].rows.len() implies (
    #[trigger] groups[g].rows[i]).tab_position == groups[g].rows[0].tab_position by {
        let position = lemma_group_is_of_tab(rows, g);
        assert(groups[g].rows[0].tab_position == position);
    }
    law_sorting_orders_and_keeps(tabs, by_worst());
    assert(tabs.no_duplicates()) by {
        lemma_tab_order(rows);
        assert forall|s: int, t: int| 0 <= s < tabs.len() && 0 <= t < tabs.len() && s
            != t implies tabs[s] != tabs[t] by {
            lemma_tab_rows_position(rows, s);
            lemma_tab_rows_position(rows, t);
            assert(tab_order(rows)[s] != tab_order(rows)[t]);
        }
    }
    tabs.lemma_multiset_has_no_duplicates();
    groups.lemma_multiset_has_no_duplicates_conv();
    assert forall|g: int, h: int| 0 <= g < h < groups.len() implies #[trigger] groups[g].rows[0].tab_position
        != #[trigger] groups[h].rows[0].tab_position by {
        let p = lemma_group_is_of_tab(rows, g);
        let q = lemma_group_is_of_tab(rows, h);
        assert(groups[g].rows[0].tab_position == p);
        assert(groups[h].rows[0].tab_position == q);
        if p == q {
            assert(groups[g] == groups[h]);
            assert(false);
        }
    }
}

proof fn lemma_tab_rows_position(rows: Seq<RowView>, t: int)
    requires
        0 <= t < tab_order(rows).len(),
    ensures
        groups_by_tab(rows)[t].rows.len() > 0,
        groups_by_tab(rows)[t].rows[0].tab_position == tab_order(rows)[t],
{
    let position = tab_order(rows)[t];
    let own = rows_in_tab(rows, position);
    lemma_tab_order(rows);
    assert(tab_order(rows).contains(position));
    law_sorting_orders_and_keeps(own, by_row_key());
    let sorted = sorted_by(own, by_row_key());
    lemma_same_members(sorted, own, sorted[0]);
    assert(sorted.contains(sorted[0]));
    let j = choose|j: int| 0 <= j < own.len() && own[j] == sorted[0];
    rows.lemma_filter_pred(|row: RowView| row.tab_position == position, j);
}

proof fn lemma_worst_is_least(rows: Seq<RowView>)
    ensures
        forall|i: int| 0 <= i < rows.len() ==> worst(rows) <= (#[trigger] rows[i]).status.rank(),
        rows.len() > 0 ==> exists|i: int|
            0 <= i < rows.len() && worst(rows) == (#[trigger] rows[i]).status.rank(),
    decreases rows.len(),
{
    if rows.len() > 0 {
        let rest = rows.drop_last();
        lemma_worst_is_least(rest);
        assert forall|i: int| 0 <= i < rows.len() implies worst(rows) <= (
        #[trigger] rows[i]).status.rank() by {
            if i < rest.len() {
                assert(rest[i] == rows[i]);
            }
        }
        if worst(rows) == rows.last().status.rank() {
            assert(rows[rows.len() - 1] == rows.last());
        } else {
            assert(rest.len() > 0);
            let i = choose|i: int|
                0 <= i < rest.len() && worst(rest) == (#[trigger] rest[i]).status.rank();
            assert(rows[i] == rest[i]);
        }
    }
}

/// The most urgent comes first: within each group rows stand by rank and then
/// by pane, groups stand by the rank of their first row, and the first row of
/// all is at least as urgent as any other.
pub proof fn law_most_urgent_first(rows: Seq<RowView>)
    ensures
        forall|g: int|
            0 <= g < grouped(rows).len() ==> {
                &&& ordered((#[trigger] grouped(rows)[g]).rows, by_row_key())
                &&& worst(grouped(rows)[g].rows) == grouped(rows)[g].rows[0].status.rank()
            },
        forall|g: int, h: int|
            0 <= g <= h < grouped(rows).len() ==> (#[trigger] grouped(rows)[g]).rows[0].status.rank() <= (
            #[trigger] grouped(rows)[h]).rows[0].status.rank(),
        forall|i: int|
            0 <= i < rows.len() ==> {
                &&& flat(grouped(rows)).len() > 0
                &&& flat(grouped(rows))[0].status.rank() <= (#[trigger] rows[i]).status.rank()
            },
{
    let groups = grouped(rows);
    law_sorting_orders_and_keeps(groups_by_tab(rows), by_worst());
    assert forall|g: int| 0 <= g < groups.len() implies {
        &&& ordered((#[trigger] groups[g]).rows, by_row_key())
        &&& worst(groups[g].rows) == groups[g].rows[0].status.rank()
    } by {
        let position = lemma_group_is_of_tab(rows, g);
        law_sorting_orders_and_keeps(rows_in_tab(rows, position), by_row_key());
        let own = groups[g].rows;
        lemma_worst_is_least(own);
        let w = choose|i: int| 0 <= i < own.len() && worst(own) == (#[trigger] own[i]).status.rank();
        assert(row_key(own[0]) <= row_key(own[w])) by {
            assert(by_row_key()(own[0]) <= by_row_key()(own[w]));
        }
        assert(worst(own) <= own[0].status.rank());
    }
    assert forall|g: int, h: int| 0 <= g <= h < groups.len() implies (
    #[trigger] groups[g]).rows[0].status.rank() <= (#[trigger] groups[h]).rows[0].status.rank() by {
        assert(by_worst()(groups[g]) <= by_worst()(groups[h]));
    }
    assert forall|i: int| 0 <= i < rows.len() implies {
        &&& flat(groups).len() > 0
        &&& flat(groups)[0].status.rank() <= (#[trigger] rows[i]).status.rank()
    } by {
        let row = rows[i];
        law_grouping_keeps_every_row(rows);
        lemma_same_members(flat(groups), rows, row);
        assert(rows.contains(row));
        let g = lemma_flat_member(groups, row);
        let k = choose|k: int| 0 <= k < groups[g].rows.len() && groups[g].rows[k] == row;
        lemma_worst_is_least(groups[g].rows);
        assert(groups[0].rows[0].status.rank() <= groups[g].rows[0].status.rank());
        let _ = lemma_group_is_of_tab(rows, 0);
        lemma_flat_first(groups);
    }
}

/// Every member of `flat(groups)` is a row of one of the groups.
proof fn lemma_flat_member(groups: Seq<GroupView>, row: RowView) -> (g: int)
    requires
        flat(groups).contains(row),
    ensures
        0 <= g < groups.len(),
        groups[g].rows.contains(row),
    decreases groups.len(),
{
    let before = flat(groups.drop_last());
    let i = choose|i: int| 0 <= i < flat(groups).len() && flat(groups)[i] == row;
    if i < before.len() {
        assert(before[i] == row);
        lemma_flat_member(groups.drop_last(), row)
    } else {
        assert(groups.last().rows[i - before.len()] == row);
        groups.len() - 1
    }
}

proof fn lemma_flat_first(groups: Seq<GroupView>)
    requires
        groups.len() > 0,
        groups[0].rows.len() > 0,
    ensures
        flat(groups).len() > 0,
        flat(groups)[0] == groups[0].rows[0],
    decreases groups.len(),
{
    if groups.len() > 1 {
        lemma_flat_first(groups.drop_last());
    } else {
        assert(flat(groups.drop_last()) =~= Seq::<RowView>::empty());
    }
}

/// The multiset of the rows that lie in one of `positions`.
spec fn rows_at(rows: Seq<RowView>, positions: Seq<usize>) -> Multiset<RowView>
    decreases positions.len(),
{
    if positions.len() == 0 {
        Multiset::empty()
    } else {
        rows_at(rows, positions.drop_last()).add(
            rows_in_tab(rows, positions.last()).to_multiset(),
        )
    }
}

proof fn lemma_rows_at_push(rows: Seq<RowView>, row: RowView, positions: Seq<usize>)
    requires
        positions.no_duplicates(),
    ensures
        rows_at(rows.push(row), positions) == (if positions.contains(row.tab_position) {
            rows_at(rows, positions).insert(row)
        } else {
            rows_at(rows, positions)
        }),
    decreases positions.len(),
{
    if positions.len() > 0 {
        let rest = positions.drop_last();
        let last = positions.last();
        lemma_rows_at_push(rows, row, rest);
        lemma_one_more_row(rows, row, last);
        to_multiset_build(rows_in_tab(rows, last), row);
        assert(positions[positions.len() - 1] == last);
        if row.tab_position == last {
            if rest.contains(last) {
                let i = choose|i: int| 0 <= i < rest.len() && rest[i] == last;
                assert(positions[i] == positions[positions.len() - 1]);
                assert(false);
            }
        } else {
            if positions.contains(row.tab_position) {
                let i = choose|i: int|
                    0 <= i < positions.len() && positions[i] == row.tab_position;
                assert(rest[i] == row.tab_position);
            }
            if rest.contains(row.tab_position) {
                let i = choose|i: int| 0 <= i < rest.len() && rest[i] == row.tab_position;
                assert(positions[i] == row.tab_position);
            }
        }
        assert(rows_at(rows.push(row), positions) =~= (if positions.contains(row.tab_position) {
            rows_at(rows, positions).insert(row)
        } else {
            rows_at(rows, positions)
        }));
    }
}

proof fn lemma_rows_at_all(rows: Seq<RowView>, positions: Seq<usize>)
    requires
        positions.no_duplicates(),
        forall|i: int| 0 <= i < rows.len() ==> positions.contains((#[trigger] rows[i]).tab_position),
    ensures
        rows_at(rows, positions) == rows.to_multiset(),
    decreases rows.len(),
{
    if rows.len() == 0 {
        lemma_rows_at_none(positions);
        assert(rows =~= Seq::<RowView>::empty());
        rows.to_multiset_ensures();
        assert(rows.to_multiset() =~= Multiset::empty());
    } else {
        let rest = rows.drop_last();
        assert forall|i: int| 0 <= i < rest.len() implies positions.contains(
            (#[trigger] rest[i]).tab_position,
        ) by {
            assert(rows[i] == rest[i]);
        }
        lemma_rows_at_all(rest, positions);
        lemma_rows_at_push(rest, rows.last(), positions);
        assert(rest.push(rows.last()) =~= rows);
        assert(positions.contains(rows[rows.len() - 1].tab_position));
        to_multiset_build(rest, rows.last());
    }
}

proof fn lemma_rows_at_none(positions: Seq<usize>)
    ensures
        rows_at(Seq::empty(), positions) == Multiset::<RowView>::empty(),
    decreases positions.len(),
{
    if positions.len() > 0 {
        lemma_rows_at_none(positions.drop_last());
        let own = rows_in_tab(Seq::empty(), positions.last());
        assert(own =~= Seq::<RowView>::empty()) by {
            reveal(Seq::filter);
        }
        own.to_multiset_ensures();
        assert(own.to_multiset() =~= Multiset::empty());
        assert(rows_at(Seq::empty(), positions) =~= Multiset::<RowView>::empty());
    }
}

proof fn lemma_flat_by_tab(rows: Seq<RowView>, positions: Seq<usize>)
    ensures
        flat(Seq::new(positions.len(), |i: int| group_of(rows, positions[i]))).to_multiset()
            == rows_at(rows, positions),
    decreases positions.len(),
{
    let groups = Seq::new(positions.len(), |i: int| group_of(rows, positions[i]));
    if positions.len() == 0 {
        assert(flat(groups) =~= Seq::<RowView>::empty());
        flat(groups).to_multiset_ensures();
        assert(flat(groups).to_multiset() =~= Multiset::empty());
    } else {
        let rest = positions.drop_last();
        lemma_flat_by_tab(rows, rest);
        assert(groups.drop_last() =~= Seq::new(rest.len(), |i: int| group_of(rows, rest[i])));
        law_sorting_orders_and_keeps(rows_in_tab(rows, positions.last()), by_row_key());
        lemma_multiset_commutative(flat(groups.drop_last()), groups.last().rows);
    }
}

proof fn lemma_flat_insert(groups: Seq<GroupView>, key: spec_fn(GroupView) -> int, group: GroupView)
    ensures
        flat(insert_by(groups, key, group)).to_multiset() == flat(groups).to_multiset().add(
            group.rows.to_multiset(),
        ),
    decreases groups.len(),
{
    let all = insert_by(groups, key, group);
    if groups.len() == 0 || key(groups.last()) <= key(group) {
        assert(all.drop_last() =~= groups);
        lemma_multiset_commutative(flat(groups), group.rows);
    } else {
        let rest = groups.drop_last();
        lemma_flat_insert(rest, key, group);
        assert(all.drop_last() =~= insert_by(rest, key, group));
        lemma_multiset_commutative(flat(all.drop_last()), groups.last().rows);
        lemma_multiset_commutative(flat(rest), groups.last().rows);
        assert(flat(all).to_multiset() =~= flat(groups).to_multiset().add(
            group.rows.to_multiset(),
        ));
    }
}

proof fn lemma_flat_sorted(groups: Seq<GroupView>, key: spec_fn(GroupView) -> int)
    ensures
        flat(sorted_by(groups, key)).to_multiset() == flat(groups).to_multiset(),
    decreases groups.len(),
{
    if groups.len() > 0 {
        let rest = groups.drop_last();
        lemma_flat_sorted(rest, key);
        lemma_flat_insert(sorted_by(rest, key), key, groups.last());
        lemma_multiset_commutative(flat(rest), groups.last().rows);
    }
}

/// Grouping neither loses nor invents a row.
pub proof fn law_grouping_keeps_every_row(rows: Seq<RowView>)
    ensures
        flat(grouped(rows)).to_multiset() == rows.to_multiset(),
        flat(grouped(rows)).len() == rows.len(),
{
    let positions = tab_order(rows);
    lemma_tab_order(rows);
    lemma_flat_sorted(groups_by_tab(rows), by_worst());
    lemma_flat_by_tab(rows, positions);
    assert forall|i: int| 0 <= i < rows.len() implies positions.contains(
        (#[trigger] rows[i]).tab_position,
    ) by {
        let p = |row: RowView| row.tab_position == rows[i].tab_position;
        rows.lemma_filter_contains(p, i);
        let own = rows_in_tab(rows, rows[i].tab_position);
        assert(own.contains(rows[i]));
    }
    lemma_rows_at_all(rows, positions);
    flat(grouped(rows)).to_multiset_ensures();
    rows.to_multiset_ensures();
}

/// How rows and tabs stand, told by their own fields: within a tab a row that is more
/// urgent comes first and, of two that are equally urgent, the one with the lower pane id.
/// Of two tabs the one with the more urgent first row comes first and, where these are
/// equally urgent, the one further left.
pub proof fn law_rows_and_tabs_stand_in_order(rows: Seq<RowView>)
    ensures
        forall|g: int, i: int, j: int|
            0 <= g < grouped(rows).len() && 0 <= i < j < grouped(rows)[g].rows.len() ==> {
                let a = #[trigger] grouped(rows)[g].rows[i];
                let b = #[trigger] grouped(rows)[g].rows[j];
                a.status.rank() < b.status.rank() || (a.status.rank() == b.status.rank()
                    && a.pane_id <= b.pane_id)
            },
        forall|g: int, h: int|
            0 <= g < h < grouped(rows).len() ==> {
                let a = (#[trigger] grouped(rows)[g]).rows[0];
                let b = (#[trigger] grouped(rows)[h]).rows[0];
                a.status.rank() < b.status.rank() || (a.status.rank() == b.status.rank()
                    && a.tab_position < b.tab_position)
            },
{
    let groups = grouped(rows);
    let tabs = groups_by_tab(rows);
    law_most_urgent_first(rows);
    assert forall|g: int, i: int, j: int|
        0 <= g < groups.len() && 0 <= i < j < groups[g].rows.len() implies {
        let a = #[trigger] groups[g].rows[i];
        let b = #[trigger] groups[g].rows[j];
        a.status.rank() < b.status.rank() || (a.status.rank() == b.status.rank() && a.pane_id
            <= b.pane_id)
    } by {
        assert(ordered(groups[g].rows, by_row_key()));
        assert(by_row_key()(groups[g].rows[i]) <= by_row_key()(groups[g].rows[j]));
        assert(row_key(groups[g].rows[i]) <= row_key(groups[g].rows[j]));
    }
    let place = |group: GroupView| group.rows[0].tab_position as int;
    lemma_tab_order(rows);
    assert forall|s: int, t: int| 0 <= s < t < tabs.len() implies place(#[trigger] tabs[s]) < place(
        #[trigger] tabs[t],
    ) by {
        lemma_tab_rows_position(rows, s);
        lemma_tab_rows_position(rows, t);
        assert(tab_order(rows)[s] < tab_order(rows)[t]);
    }
    law_sorting_leaves_ties_in_place(tabs, by_worst(), place);
    assert forall|g: int, h: int| 0 <= g < h < groups.len() implies {
        let a = (#[trigger] groups[g]).rows[0];
        let b = (#[trigger] groups[h]).rows[0];
        a.status.rank() < b.status.rank() || (a.status.rank() == b.status.rank() && a.tab_position
            < b.tab_position)
    } by {
        assert(worst(groups[g].rows) == groups[g].rows[0].status.rank());
        assert(worst(groups[h].rows) == groups[h].rows[0].status.rank());
        let a = sorted_by(tabs, by_worst())[g];
        let b = sorted_by(tabs, by_worst())[h];
        assert(by_worst()(a) < by_worst()(b) || (by_worst()(a) == by_worst()(b) && place(a) < place(
            b,
        )));
    }
}

/// Rows that are equally urgent and of one pane stand in the order in which they came.
pub proof fn law_equal_rows_keep_their_order(rows: Seq<RowView>, g: int, rank: nat, pane: u32)
    requires
        0 <= g < grouped(rows).len(),
    ensures
        ({
            let position = grouped(rows)[g].rows[0].tab_position;
            let same = |row: RowView| row.status.rank() == rank && row.pane_id == pane;
            grouped(rows)[g].rows.filter(same) == rows.filter(
                |row: RowView| row.tab_position == position,
            ).filter(same)
        }),
{
    let position = lemma_group_is_of_tab(rows, g);
    assert(grouped(rows)[g].rows[0].tab_position == position);
    let same = |row: RowView| row.status.rank() == rank && row.pane_id == pane;
    let own = rows_in_tab(rows, position);
    let k = rank * 0x1_0000_0000 + pane;
    law_sorting_is_stable(own, by_row_key(), k);
    let by_key = |row: RowView| by_row_key()(row) == k;
    assert forall|row: RowView| #[trigger] by_key(row) == same(row) by {}
    assert(by_key =~= same);
}

/// The first row of a tab, in the order in which the rows came, names the tab.
pub proof fn law_first_row_names_the_tab(rows: Seq<RowView>, g: int, i: int)
    requires
        0 <= g < grouped(rows).len(),
        0 <= i < rows.len(),
        rows[i].tab_position == grouped(rows)[g].rows[0].tab_position,
        forall|j: int| 0 <= j < i ==> (#[trigger] rows[j]).tab_position != rows[i].tab_position,
    ensures
        grouped(rows)[g].tab_name == rows[i].tab_name,
{
    law_each_group_is_one_tab(rows);
    let position = rows[i].tab_position;
    let p = |row: RowView| row.tab_position == position;
    lemma_first_of_filter(rows, p, i);
    assert(rows_in_tab(rows, position) == rows.filter(p));
}

proof fn lemma_first_of_filter(rows: Seq<RowView>, p: spec_fn(RowView) -> bool, i: int)
    requires
        0 <= i < rows.len(),
        p(rows[i]),
        forall|j: int| 0 <= j < i ==> !p(#[trigger] rows[j]),
    ensures
        rows.filter(p).len() > 0,
        rows.filter(p)[0] == rows[i],
    decreases rows.len(),
{
    let rest = rows.drop_last();
    rest.lemma_filter_push(rows.last(), p);
    assert(rest.push(rows.last()) =~= rows);
    if i < rest.len() {
        assert forall|j: int| 0 <= j < i implies !p(#[trigger] rest[j]) by {
            assert(rest[j] == rows[j]);
        }
        lemma_first_of_filter(rest, p, i);
    } else {
        assert forall|j: int| 0 <= j < rest.len() implies !p(#[trigger] rest[j]) by {
            assert(rest[j] == rows[j]);
        }
        lemma_none_of_filter(rest, p);
    }
}

proof fn lemma_none_of_filter(rows: Seq<RowView>, p: spec_fn(RowView) -> bool)
    requires
        forall|j: int| 0 <= j < rows.len() ==> !p(#[trigger] rows[j]),
    ensures
        rows.filter(p).len() == 0,
    decreases rows.len(),
{
    reveal(Seq::filter);
    if rows.len() > 0 {
        let rest = rows.drop_last();
        assert forall|j: int| 0 <= j < rest.len() implies !p(#[trigger] rest[j]) by {
            assert(rest[j] == rows[j]);
        }
        lemma_none_of_filter(rest, p);
        assert(!p(rows[rows.len() - 1]));
    }
}

/// A group says its name and all its rows, and a list of groups all of them, in their order.
pub proof fn law_groups_say_all_their_rows(groups: Seq<TabGroup>, g: int, r: int)
    requires
        0 <= g < groups.len(),
    ensures
        group_views(groups).len() == groups.len(),
        group_views(groups)[g].tab_name == groups[g].tab_name@,
        group_views(groups)[g].rows.len() == groups[g].rows@.len(),
        0 <= r < groups[g].rows@.len() ==> group_views(groups)[g].rows[r] == groups[g].rows@[r]@,
{
}

} // verus!
