//! The join of pushed statuses with the panes and tabs of the session. Events
//! are fed in, and the joined rows come back out; nothing is ever polled.
use std::collections::BTreeMap;

use vstd::prelude::*;
use vstd::std_specs::btree::increasing_seq;
use vstd::std_specs::cmp::OrdSpec;
use vstd::std_specs::iter::IteratorSpec;

use crate::model::{
    EntryView, PaneInfo, Row, RowView, StatusEntry, TabInfo, row_views, text_view,
};
use crate::order::{ascending, lemma_ascending, lemma_ascending_unique, strictly_ascending};
use crate::status::Status;
use crate::text::{all_digits, decimal, law_decimal_writes_the_number, number, value_of};

verus! {

/// What the join knows of a pane.
pub struct PaneView {
    pub title: Seq<char>,
    pub tab_position: usize,
    pub active: bool,
}

/// What a `JoinState` knows.
#[verifier::ext_equal]
pub struct JoinView {
    /// The last status of each agent, by its pane.
    pub reported: Map<u32, EntryView>,
    /// The panes that exist, but for those of plugins.
    pub panes: Map<u32, PaneView>,
    /// The names of the tabs, by position.
    pub tabs: Map<usize, Seq<char>>,
    /// The tab that the user looks at.
    pub active_tab: Option<usize>,
}

/// The panes that a list of panes leaves: those of plugins are left out, and of
/// two with one id the later stands.
pub open spec fn panes_of(panes: Seq<PaneInfo>, active_tab: Option<usize>) -> Map<u32, PaneView>
    decreases panes.len(),
{
    if panes.len() == 0 {
        Map::empty()
    } else {
        let before = panes_of(panes.drop_last(), active_tab);
        let pane = panes.last();
        if pane.is_plugin {
            before
        } else {
            before.insert(
                pane.id,
                PaneView {
                    title: pane.title@,
                    tab_position: pane.tab_position,
                    active: pane.is_focused && active_tab == Some(pane.tab_position),
                },
            )
        }
    }
}

/// The tab names that a list of tabs leaves; of two at one position the later
/// stands.
pub open spec fn tabs_of(tabs: Seq<TabInfo>) -> Map<usize, Seq<char>>
    decreases tabs.len(),
{
    if tabs.len() == 0 {
        Map::empty()
    } else {
        tabs_of(tabs.drop_last()).insert(tabs.last().position, tabs.last().name@)
    }
}

/// The position of the last active tab of a list.
pub open spec fn active_of(tabs: Seq<TabInfo>) -> Option<usize>
    decreases tabs.len(),
{
    if tabs.len() == 0 {
        None
    } else if tabs.last().active {
        Some(tabs.last().position)
    } else {
        active_of(tabs.drop_last())
    }
}

impl JoinView {
    /// Nothing is known yet.
    pub open spec fn empty() -> JoinView {
        JoinView {
            reported: Map::empty(),
            panes: Map::empty(),
            tabs: Map::empty(),
            active_tab: None,
        }
    }

    /// The state once the session's panes are `panes`: a status whose pane is
    /// gone is dropped.
    pub open spec fn with_panes(self, panes: Seq<PaneInfo>) -> JoinView {
        let live = panes_of(panes, self.active_tab);
        JoinView { reported: self.reported.restrict(live.dom()), panes: live, ..self }
    }

    /// The state once the session's tabs are `tabs`.
    pub open spec fn with_tabs(self, tabs: Seq<TabInfo>) -> JoinView {
        JoinView { tabs: tabs_of(tabs), active_tab: active_of(tabs), ..self }
    }

    /// The state once the agent in pane `pane_id` has reported `entry`.
    pub open spec fn with_status(self, pane_id: u32, entry: EntryView) -> JoinView {
        JoinView { reported: self.reported.insert(pane_id, entry), ..self }
    }

    /// The state once it has taken over what `row` says of a pane, its agent and
    /// its tab.
    pub open spec fn with_row(self, row: RowView) -> JoinView {
        JoinView {
            reported: self.reported.insert(
                row.pane_id,
                EntryView { status: row.status, agent: row.agent, message: row.message },
            ),
            panes: self.panes.insert(
                row.pane_id,
                PaneView {
                    title: row.pane_title,
                    tab_position: row.tab_position,
                    active: row.active,
                },
            ),
            tabs: self.tabs.insert(row.tab_position, row.tab_name),
            active_tab: self.active_tab,
        }
    }

    /// The state once it has taken over `rows`, one after another.
    pub open spec fn with_rows(self, rows: Seq<RowView>) -> JoinView
        decreases rows.len(),
    {
        if rows.len() == 0 {
            self
        } else {
            self.with_rows(rows.drop_last()).with_row(rows.last())
        }
    }

    /// The last status that pane `pane_id` reported.
    pub open spec fn status_of(self, pane_id: u32) -> Option<Status> {
        if self.reported.contains_key(pane_id) {
            Some(self.reported[pane_id].status)
        } else {
            None
        }
    }

    /// The name of the tab at `position`; a tab without one is called by its
    /// number, counted from one.
    pub open spec fn tab_name(self, position: usize) -> Seq<char> {
        if self.tabs.contains_key(position) {
            self.tabs[position]
        } else {
            "tab "@ + decimal((position + 1) as nat)
        }
    }

    /// The panes that exist and have reported a status.
    pub open spec fn joined_ids(self) -> Set<nat> {
        Set::new(
            |id: nat|
                id <= u32::MAX && self.reported.contains_key(id as u32) && self.panes.contains_key(
                    id as u32,
                ),
        )
    }

    /// The row of pane `id`.
    pub open spec fn row_of(self, id: u32) -> RowView {
        RowView {
            pane_id: id,
            status: self.reported[id].status,
            agent: self.reported[id].agent,
            message: self.reported[id].message,
            pane_title: self.panes[id].title,
            tab_name: self.tab_name(self.panes[id].tab_position),
            tab_position: self.panes[id].tab_position,
            active: self.panes[id].active,
        }
    }

    /// The joined rows: one for each pane that exists and has reported, in the
    /// order of the pane ids.
    pub open spec fn rows(self) -> Seq<RowView> {
        let ids = ascending(self.joined_ids(), 0x1_0000_0000);
        Seq::new(ids.len(), |i: int| self.row_of(ids[i] as u32))
    }
}

/// Panes, tabs and statuses, joined by pane id.
pub struct JoinState {
    reported: BTreeMap<u32, StatusEntry>,
    panes: BTreeMap<u32, (String, usize, bool)>,
    tabs: BTreeMap<usize, String>,
    active_tab: Option<usize>,
}

spec fn entry_views(m: Map<u32, StatusEntry>) -> Map<u32, EntryView> {
    m.map_values(|e: StatusEntry| e@)
}

spec fn pane_views(m: Map<u32, (String, usize, bool)>) -> Map<u32, PaneView> {
    m.map_values(
        |p: (String, usize, bool)| PaneView { title: p.0@, tab_position: p.1, active: p.2 },
    )
}

spec fn name_views(m: Map<usize, String>) -> Map<usize, Seq<char>> {
    m.map_values(|n: String| n@)
}

impl View for JoinState {
    type V = JoinView;

    closed spec fn view(&self) -> JoinView {
        JoinView {
            reported: entry_views(self.reported@),
            panes: pane_views(self.panes@),
            tabs: name_views(self.tabs@),
            active_tab: self.active_tab,
        }
    }
}

proof fn lemma_increasing(ids: Seq<u32>)
    requires
        increasing_seq(ids),
    ensures
        forall|i: int, j: int| 0 <= i < j < ids.len() ==> #[trigger] ids[i] < #[trigger] ids[j],
{
    assert forall|i: int, j: int| 0 <= i < j < ids.len() implies #[trigger] ids[i]
        < #[trigger] ids[j] by {
        assert(ids[i].cmp_spec(&ids[j]) is Less);
    }
}

/// The keys of `map`, from the least to the greatest.
fn ids_of(map: &BTreeMap<u32, StatusEntry>) -> (ids: Vec<u32>)
    ensures
        forall|i: int, j: int| 0 <= i < j < ids.len() ==> #[trigger] ids[i] < #[trigger] ids[j],
        forall|i: int| 0 <= i < ids.len() ==> map@.contains_key(#[trigger] ids[i]),
        forall|id: u32| #[trigger] map@.contains_key(id) ==> ids@.contains(id),
{
    let entries = map.iter();
    let ghost pairs = entries.remaining();
    let ghost keys = pairs.map_values(|kv: (&u32, &StatusEntry)| *kv.0);
    proof {
        lemma_increasing(keys);
    }
    let mut ids: Vec<u32> = Vec::new();
    for (id, _entry) in it: entries
        invariant
            it.seq() == pairs,
            keys == pairs.map_values(|kv: (&u32, &StatusEntry)| *kv.0),
            ids@ == keys.take(it.index() as int),
    {
        ids.push(*id);
        assert(ids@ =~= keys.take(it.index() + 1));
    }
    assert(ids@ =~= keys);
    assert forall|id: u32| #[trigger] map@.contains_key(id) implies ids@.contains(id) by {
        assert(pairs.contains((&id, &map@[id])));
        let i = choose|i: int| 0 <= i < pairs.len() && pairs[i] == (&id, &map@[id]);
        assert(keys[i] == id);
    }
    assert forall|i: int| 0 <= i < ids.len() implies map@.contains_key(#[trigger] ids[i]) by {
        assert(map@.contains_key(*pairs[i].0));
    }
    ids
}

impl Default for JoinState {
    fn default() -> (state: Self)
        ensures
            state@ == JoinView::empty(),
    {
        let state = JoinState {
            reported: BTreeMap::new(),
            panes: BTreeMap::new(),
            tabs: BTreeMap::new(),
            active_tab: None,
        };
        assert(state@ =~= JoinView::empty());
        state
    }
}

impl JoinState {
    /// Takes the session's panes. A status whose pane is no longer there is
    /// dropped here, once, for everyone downstream.
    pub fn apply_panes(&mut self, panes: Vec<PaneInfo>)
        ensures
            final(self)@ == old(self)@.with_panes(panes@),
    {
        let ghost before = self@;
        let ghost all = panes@;
        let active_tab = self.active_tab;
        let mut live: BTreeMap<u32, (String, usize, bool)> = BTreeMap::new();
        assert(pane_views(live@) =~= panes_of(all.take(0), active_tab));
        for pane in it: panes
            invariant
                it.seq() == all,
                pane_views(live@) == panes_of(all.take(it.index() as int), active_tab),
        {
            assert(all.take(it.index() + 1).drop_last() =~= all.take(it.index() as int));
            if !pane.is_plugin {
                let active = pane.is_focused && active_tab == Some(pane.tab_position);
                let ghost old_live = live@;
                let ghost view = PaneView {
                    title: pane.title@,
                    tab_position: pane.tab_position,
                    active,
                };
                live.insert(pane.id, (pane.title, pane.tab_position, active));
                assert(pane_views(live@) =~= pane_views(old_live).insert(pane.id, view));
            }
        }
        assert(all.take(all.len() as int) =~= all);
        self.panes = live;
        let ids = ids_of(&self.reported);
        let ghost reported = self.reported@;
        let mut i: usize = 0;
        while i < ids.len()
            invariant
                i <= ids.len(),
                self.panes@ == live@,
                self.tabs@ == old(self).tabs@,
                self.active_tab == active_tab,
                forall|j: int, k: int| 0 <= j < k < ids.len() ==> #[trigger] ids[j] < #[trigger] ids[k],
                forall|id: u32| #[trigger]
                    self.reported@.contains_key(id) <==> reported.contains_key(id) && (
                    live@.contains_key(id) || !ids@.take(i as int).contains(id)),
                forall|id: u32| #[trigger]
                    self.reported@.contains_key(id) ==> self.reported@[id] == reported[id],
            decreases ids.len() - i,
        {
            let id = ids[i];
            assert(ids@.take(i + 1) =~= ids@.take(i as int).push(id));
            assert forall|other: u32| ids@.take(i + 1).contains(other) <==> ids@.take(
                i as int,
            ).contains(other) || other == id by {
                if ids@.take(i as int).contains(other) {
                    let j = choose|j: int|
                        0 <= j < ids@.take(i as int).len() && ids@.take(i as int)[j] == other;
                    assert(ids@.take(i + 1)[j] == other);
                }
                assert(ids@.take(i + 1)[i as int] == id);
            }
            if !self.panes.contains_key(&id) {
                self.reported.remove(&id);
            }
            i += 1;
        }
        proof {
            assert(ids@.take(i as int) =~= ids@);
            let after = before.with_panes(all);
            assert(self@.panes =~= after.panes);
            assert(self@.reported =~= after.reported);
            assert(self@ =~= after);
        }
    }

    /// Takes the session's tabs.
    pub fn apply_tabs(&mut self, tabs: Vec<TabInfo>)
        ensures
            final(self)@ == old(self)@.with_tabs(tabs@),
    {
        let ghost before = self@;
        let ghost all = tabs@;
        let mut names: BTreeMap<usize, String> = BTreeMap::new();
        let mut active_tab: Option<usize> = None;
        assert(name_views(names@) =~= tabs_of(all.take(0)));
        for tab in it: tabs
            invariant
                it.seq() == all,
                name_views(names@) == tabs_of(all.take(it.index() as int)),
                active_tab == active_of(all.take(it.index() as int)),
        {
            assert(all.take(it.index() + 1).drop_last() =~= all.take(it.index() as int));
            if tab.active {
                active_tab = Some(tab.position);
            }
            let ghost old_names = names@;
            let ghost name = tab.name@;
            names.insert(tab.position, tab.name);
            assert(name_views(names@) =~= name_views(old_names).insert(tab.position, name));
        }
        assert(all.take(all.len() as int) =~= all);
        self.tabs = names;
        self.active_tab = active_tab;
        assert(self@ =~= before.with_tabs(all));
    }

    /// Takes the status of the agent in pane `pane_id`, and returns the one that
    /// it had before, so that callers can tell a change.
    pub fn apply_status(
        &mut self,
        pane_id: u32,
        status: Status,
        agent: String,
        message: Option<String>,
    ) -> (previous: Option<Status>)
        ensures
            final(self)@ == old(self)@.with_status(
                pane_id,
                EntryView { status, agent: agent@, message: text_view(message) },
            ),
            previous == old(self)@.status_of(pane_id),
    {
        let ghost before = self@;
        let ghost entry = EntryView { status, agent: agent@, message: text_view(message) };
        let previous = match self.reported.get(&pane_id) {
            Some(entry) => Some(entry.status),
            None => None,
        };
        self.reported.insert(pane_id, StatusEntry { status, agent, message });
        assert(self@ =~= before.with_status(pane_id, entry));
        previous
    }

    /// How many agents have reported.
    pub fn reported_len(&self) -> (len: usize)
        ensures
            len == self@.reported.len(),
    {
        assert(self@.reported.dom() =~= self.reported@.dom());
        self.reported.len()
    }

    /// Takes over the rows that another instance of the join has written, in
    /// place of what was known of the same panes and tabs.
    pub fn seed_from_rows(&mut self, rows: Vec<Row>)
        ensures
            final(self)@ == old(self)@.with_rows(row_views(rows@)),
    {
        let ghost before = self@;
        let ghost views = row_views(rows@);
        assert(views.take(0) =~= Seq::<RowView>::empty());
        for row in it: rows
            invariant
                views == row_views(it.seq()),
                self@ == before.with_rows(views.take(it.index() as int)),
        {
            let ghost view = row@;
            let ghost known = self@;
            assert(views.take(it.index() + 1).drop_last() =~= views.take(it.index() as int));
            self.reported.insert(
                row.pane_id,
                StatusEntry { status: row.status, agent: row.agent, message: row.message },
            );
            self.panes.insert(row.pane_id, (row.pane_title, row.tab_position, row.active));
            self.tabs.insert(row.tab_position, row.tab_name);
            assert(self@ =~= known.with_row(view));
        }
        assert(views.take(views.len() as int) =~= views);
    }

    /// The joined rows.
    pub fn rows(&self) -> (rows: Vec<Row>)
        ensures
            row_views(rows@) == self@.rows(),
    {
        let ids = ids_of(&self.reported);
        let mut rows: Vec<Row> = Vec::new();
        let ghost mut kept: Seq<nat> = Seq::empty();
        let mut i: usize = 0;
        while i < ids.len()
            invariant
                i <= ids.len(),
                forall|j: int, k: int| 0 <= j < k < ids.len() ==> #[trigger] ids[j] < #[trigger] ids[k],
                forall|j: int| 0 <= j < ids.len() ==> self.reported@.contains_key(#[trigger] ids[j]),
                rows.len() == kept.len(),
                strictly_ascending(kept),
                forall|j: int|
                    0 <= j < kept.len() ==> {
                        &&& #[trigger] kept[j] < 0x1_0000_0000
                        &&& self@.joined_ids().contains(kept[j])
                        &&& i < ids.len() ==> kept[j] < ids[i as int]
                        &&& rows[j]@ == self@.row_of(kept[j] as u32)
                    },
                forall|j: int|
                    0 <= j < i && self.panes@.contains_key(#[trigger] ids[j]) ==> kept.contains(
                        ids[j] as nat,
                    ),
            decreases ids.len() - i,
        {
            let id = ids[i];
            let ghost old_kept = kept;
            if let Some(entry) = self.reported.get(&id) {
                if let Some((title, tab_position, active)) = self.panes.get(&id) {
                    let tab_name = match self.tabs.get(tab_position) {
                        Some(name) => name.clone(),
                        None => {
                            let mut name = "tab ".to_owned();
                            name.append(number(*tab_position as u128 + 1).as_str());
                            name
                        },
                    };
                    let row = Row {
                        pane_id: id,
                        status: entry.status,
                        agent: entry.agent.clone(),
                        message: entry.message.clone(),
                        pane_title: title.clone(),
                        tab_name,
                        tab_position: *tab_position,
                        active: *active,
                    };
                    assert(row@ == self@.row_of(id));
                    rows.push(row);
                    proof {
                        kept = kept.push(id as nat);
                        assert(kept[kept.len() - 1] == id);
                    }
                }
            }
            i += 1;
            assert forall|j: int|
                0 <= j < i && self.panes@.contains_key(#[trigger] ids[j]) implies kept.contains(
                ids[j] as nat,
            ) by {
                if j < i - 1 {
                    assert(old_kept.contains(ids[j] as nat));
                    let k = choose|k: int| 0 <= k < old_kept.len() && old_kept[k] == ids[j];
                    assert(kept[k] == ids[j]);
                }
            }
        }
        proof {
            assert forall|m: nat| m < 0x1_0000_0000 && #[trigger] self@.joined_ids().contains(
                m,
            ) implies kept.contains(m) by {
                assert(ids@.contains(m as u32));
                let j = choose|j: int| 0 <= j < ids.len() && ids[j] == m as u32;
                assert(kept.contains(ids[j] as nat));
            }
            lemma_ascending_unique(self@.joined_ids(), 0x1_0000_0000, kept);
            assert(row_views(rows@) =~= self@.rows());
        }
        rows
    }
}

/// The rows are the join: each stands for a pane that exists and has reported,
/// says what is known of it, and every such pane has its row. They stand in the
/// order of the pane ids, so no pane has two.
pub proof fn law_rows_are_the_join(state: JoinView)
    ensures
        forall|i: int|
            0 <= i < state.rows().len() ==> {
                let row = #[trigger] state.rows()[i];
                &&& state.reported.contains_key(row.pane_id)
                &&& state.panes.contains_key(row.pane_id)
                &&& row == state.row_of(row.pane_id)
            },
        forall|i: int, j: int|
            0 <= i < j < state.rows().len() ==> (#[trigger] state.rows()[i]).pane_id < (
            #[trigger] state.rows()[j]).pane_id,
        forall|id: u32|
            state.reported.contains_key(id) && state.panes.contains_key(id)
                ==> state.rows().contains(#[trigger] state.row_of(id)),
{
    let ids = ascending(state.joined_ids(), 0x1_0000_0000);
    lemma_ascending(state.joined_ids(), 0x1_0000_0000);
    assert forall|i: int| 0 <= i < state.rows().len() implies {
        let row = #[trigger] state.rows()[i];
        &&& state.reported.contains_key(row.pane_id)
        &&& state.panes.contains_key(row.pane_id)
        &&& row == state.row_of(row.pane_id)
    } by {
        assert(state.joined_ids().contains(ids[i]));
    }
    assert forall|i: int, j: int| 0 <= i < j < state.rows().len() implies (
    #[trigger] state.rows()[i]).pane_id < (#[trigger] state.rows()[j]).pane_id by {
        assert(ids[i] < ids[j]);
        assert(ids[j] < 0x1_0000_0000);
    }
    assert forall|id: u32|
        state.reported.contains_key(id) && state.panes.contains_key(
            id,
        ) implies state.rows().contains(#[trigger] state.row_of(id)) by {
        assert(state.joined_ids().contains(id as nat));
        let i = choose|i: int| 0 <= i < ids.len() && ids[i] == id;
        assert(state.rows()[i] == state.row_of(id));
    }
}

proof fn lemma_panes_of(panes: Seq<PaneInfo>, active_tab: Option<usize>, id: u32)
    ensures
        panes_of(panes, active_tab).contains_key(id) <==> exists|i: int|
            0 <= i < panes.len() && (#[trigger] panes[i]).id == id && !panes[i].is_plugin,
        panes_of(panes, active_tab).contains_key(id) && panes_of(panes, active_tab)[id].active
            ==> active_tab == Some(panes_of(panes, active_tab)[id].tab_position),
    decreases panes.len(),
{
    if panes.len() > 0 {
        let rest = panes.drop_last();
        lemma_panes_of(rest, active_tab, id);
        if exists|i: int| 0 <= i < rest.len() && (#[trigger] rest[i]).id == id && !rest[i].is_plugin {
            let i = choose|i: int|
                0 <= i < rest.len() && (#[trigger] rest[i]).id == id && !rest[i].is_plugin;
            assert(panes[i] == rest[i]);
        }
        if exists|i: int|
            0 <= i < panes.len() && (#[trigger] panes[i]).id == id && !panes[i].is_plugin {
            let i = choose|i: int|
                0 <= i < panes.len() && (#[trigger] panes[i]).id == id && !panes[i].is_plugin;
            if i < rest.len() {
                assert(rest[i] == panes[i]);
            }
        }
        assert(panes[panes.len() - 1] == panes.last());
    }
}

/// After the panes have come, exactly the panes that came and are no plugin's
/// exist, no status of another is left, and a status of one of them is kept as
/// it was. A pane can be active only in the active tab.
pub proof fn law_dead_panes_are_dropped(state: JoinView, panes: Seq<PaneInfo>, id: u32)
    ensures
        state.with_panes(panes).panes.contains_key(id) <==> exists|i: int|
            0 <= i < panes.len() && (#[trigger] panes[i]).id == id && !panes[i].is_plugin,
        state.with_panes(panes).reported.contains_key(id) <==> state.reported.contains_key(id)
            && state.with_panes(panes).panes.contains_key(id),
        state.with_panes(panes).reported.contains_key(id) ==> state.with_panes(panes).reported[id]
            == state.reported[id],
        state.with_panes(panes).panes.contains_key(id) && state.with_panes(panes).panes[id].active
            ==> state.active_tab == Some(state.with_panes(panes).panes[id].tab_position),
{
    lemma_panes_of(panes, state.active_tab, id);
}

/// A status replaces the one before it and touches nothing else: the pane then
/// shows it, and panes, tabs and the other agents stay as they were.
pub proof fn law_last_status_stands(state: JoinView, id: u32, entry: EntryView, other: u32)
    ensures
        state.with_status(id, entry).status_of(id) == Some(entry.status),
        state.with_status(id, entry).panes == state.panes,
        state.with_status(id, entry).tabs == state.tabs,
        state.with_status(id, entry).active_tab == state.active_tab,
        other != id ==> state.with_status(id, entry).status_of(other) == state.status_of(other),
        state.panes.contains_key(id) ==> exists|i: int|
            0 <= i < state.with_status(id, entry).rows().len() && {
                let row = #[trigger] state.with_status(id, entry).rows()[i];
                &&& row.pane_id == id
                &&& row.status == entry.status
                &&& row.agent == entry.agent
                &&& row.message == entry.message
            },
{
    let after = state.with_status(id, entry);
    law_rows_are_the_join(after);
    if state.panes.contains_key(id) {
        assert(after.rows().contains(after.row_of(id)));
    }
}

proof fn lemma_seeded_row(state: JoinView, rows: Seq<RowView>, i: int)
    requires
        0 <= i < rows.len(),
        forall|j: int, k: int|
            0 <= j < k < rows.len() ==> (#[trigger] rows[j]).pane_id != (#[trigger] rows[k]).pane_id,
        forall|j: int, k: int|
            0 <= j < k < rows.len() && (#[trigger] rows[j]).tab_position == (
            #[trigger] rows[k]).tab_position ==> rows[j].tab_name == rows[k].tab_name,
    ensures
        state.with_rows(rows).reported.contains_key(rows[i].pane_id),
        state.with_rows(rows).panes.contains_key(rows[i].pane_id),
        state.with_rows(rows).tabs.contains_key(rows[i].tab_position),
        state.with_rows(rows).row_of(rows[i].pane_id) == rows[i],
    decreases rows.len(),
{
    let rest = rows.drop_last();
    if i < rest.len() {
        assert forall|j: int, k: int| 0 <= j < k < rest.len() implies (#[trigger] rest[j]).pane_id
            != (#[trigger] rest[k]).pane_id by {
            assert(rows[j].pane_id != rows[k].pane_id);
        }
        assert forall|j: int, k: int|
            0 <= j < k < rest.len() && (#[trigger] rest[j]).tab_position == (
            #[trigger] rest[k]).tab_position implies rest[j].tab_name == rest[k].tab_name by {
            assert(rows[j].tab_position == rows[k].tab_position);
        }
        lemma_seeded_row(state, rest, i);
        assert(rows[i].pane_id != rows[rows.len() - 1].pane_id);
        assert(rows[i].tab_position == rows[rows.len() - 1].tab_position ==> rows[i].tab_name
            == rows[rows.len() - 1].tab_name);
    }
}

proof fn lemma_seeded_panes(state: JoinView, rows: Seq<RowView>, id: u32)
    ensures
        state.with_rows(rows).reported.contains_key(id) ==> state.reported.contains_key(id)
            || exists|i: int| 0 <= i < rows.len() && (#[trigger] rows[i]).pane_id == id,
        state.with_rows(rows).panes.contains_key(id) ==> state.panes.contains_key(id)
            || exists|i: int| 0 <= i < rows.len() && (#[trigger] rows[i]).pane_id == id,
    decreases rows.len(),
{
    if rows.len() > 0 {
        let rest = rows.drop_last();
        lemma_seeded_panes(state, rest, id);
        if exists|i: int| 0 <= i < rest.len() && (#[trigger] rest[i]).pane_id == id {
            let i = choose|i: int| 0 <= i < rest.len() && (#[trigger] rest[i]).pane_id == id;
            assert(rows[i] == rest[i]);
        }
        assert(rows[rows.len() - 1] == rows.last());
    }
}

/// Whoever takes over the rows of another instance shows each of them as that
/// instance does, whatever it knew before.
pub proof fn law_seeding_takes_over_every_row(state: JoinView, source: JoinView)
    ensures
        forall|i: int|
            0 <= i < source.rows().len() ==> state.with_rows(source.rows()).rows().contains(
                #[trigger] source.rows()[i],
            ),
{
    let rows = source.rows();
    let after = state.with_rows(rows);
    law_rows_are_the_join(source);
    law_rows_are_the_join(after);
    assert forall|i: int| 0 <= i < rows.len() implies after.rows().contains(#[trigger] rows[i]) by {
        assert forall|j: int, k: int| 0 <= j < k < rows.len() implies (#[trigger] rows[j]).pane_id
            != (#[trigger] rows[k]).pane_id by {
            assert(rows[j].pane_id < rows[k].pane_id);
        }
        lemma_seeded_row(state, rows, i);
        assert(after.rows().contains(after.row_of(rows[i].pane_id)));
    }
}

/// Instances converge: one that shows no pane but those that another shows, and takes
/// over the rows of that other, shows exactly the same rows from then on.
pub proof fn law_instances_converge(state: JoinView, source: JoinView)
    requires
        state.joined_ids().subset_of(source.joined_ids()),
    ensures
        state.with_rows(source.rows()).rows() == source.rows(),
{
    let rows = source.rows();
    let after = state.with_rows(rows);
    let ids = Seq::new(rows.len(), |i: int| rows[i].pane_id as nat);
    law_rows_are_the_join(source);
    assert forall|j: int, k: int| 0 <= j < k < rows.len() implies (#[trigger] rows[j]).pane_id != (
    #[trigger] rows[k]).pane_id by {
        assert(rows[j].pane_id < rows[k].pane_id);
    }
    assert forall|i: int| 0 <= i < ids.len() implies #[trigger] ids[i] < 0x1_0000_0000
        && after.joined_ids().contains(ids[i]) by {
        lemma_seeded_row(state, rows, i);
    }
    assert forall|i: int, j: int| 0 <= i < j < ids.len() implies #[trigger] ids[i]
        < #[trigger] ids[j] by {
        assert(rows[i].pane_id < rows[j].pane_id);
    }
    assert forall|m: nat| m < 0x1_0000_0000 && #[trigger] after.joined_ids().contains(
        m,
    ) implies ids.contains(m) by {
        lemma_seeded_panes(state, rows, m as u32);
        if !(exists|i: int| 0 <= i < rows.len() && (#[trigger] rows[i]).pane_id == m as u32) {
            assert(state.joined_ids().contains(m));
            assert(source.joined_ids().contains(m));
            assert(rows.contains(source.row_of(m as u32)));
            let i = choose|i: int| 0 <= i < rows.len() && rows[i] == source.row_of(m as u32);
            assert(rows[i].pane_id == m as u32);
        }
        let i = choose|i: int| 0 <= i < rows.len() && (#[trigger] rows[i]).pane_id == m as u32;
        assert(ids[i] == m);
    }
    lemma_ascending_unique(after.joined_ids(), 0x1_0000_0000, ids);
    assert forall|i: int| 0 <= i < rows.len() implies #[trigger] after.rows()[i] == rows[i] by {
        lemma_seeded_row(state, rows, i);
        assert(ids[i] as u32 == rows[i].pane_id);
    }
    assert(after.rows() =~= rows);
}

/// An instance that starts from nothing and takes over the rows of another shows
/// exactly the rows of that other.
pub proof fn law_fresh_instance_converges(source: JoinView)
    ensures
        JoinView::empty().with_rows(source.rows()).rows() == source.rows(),
{
    assert(JoinView::empty().joined_ids() =~= Set::empty());
    law_instances_converge(JoinView::empty(), source);
}

proof fn lemma_pane_as_listed(panes: Seq<PaneInfo>, active_tab: Option<usize>, i: int)
    requires
        0 <= i < panes.len(),
        !panes[i].is_plugin,
        forall|j: int|
            i < j < panes.len() && !(#[trigger] panes[j]).is_plugin ==> panes[j].id != panes[i].id,
    ensures
        panes_of(panes, active_tab).contains_key(panes[i].id),
        panes_of(panes, active_tab)[panes[i].id].title == panes[i].title@,
        panes_of(panes, active_tab)[panes[i].id].tab_position == panes[i].tab_position,
        panes_of(panes, active_tab)[panes[i].id].active <==> panes[i].is_focused && active_tab
            == Some(panes[i].tab_position),
    decreases panes.len(),
{
    if i < panes.len() - 1 {
        let rest = panes.drop_last();
        assert forall|j: int| i < j < rest.len() && !(#[trigger] rest[j]).is_plugin implies rest[j].id
            != rest[i].id by {
            assert(panes[j] == rest[j]);
        }
        lemma_pane_as_listed(rest, active_tab, i);
        assert(panes[panes.len() - 1] == panes.last());
    }
}

/// Every pane that was listed, and is no plugin's, is known as it was listed last: by
/// its title and its tab, and as the active one if and only if it was listed as focused
/// and in the active tab. Tabs and the active tab stay as they were.
pub proof fn law_panes_are_known_as_listed(state: JoinView, panes: Seq<PaneInfo>, i: int)
    requires
        0 <= i < panes.len(),
        !panes[i].is_plugin,
        forall|j: int|
            i < j < panes.len() && !(#[trigger] panes[j]).is_plugin ==> panes[j].id != panes[i].id,
    ensures
        state.with_panes(panes).panes.contains_key(panes[i].id),
        state.with_panes(panes).panes[panes[i].id].title == panes[i].title@,
        state.with_panes(panes).panes[panes[i].id].tab_position == panes[i].tab_position,
        state.with_panes(panes).panes[panes[i].id].active <==> panes[i].is_focused
            && state.active_tab == Some(panes[i].tab_position),
        state.with_panes(panes).tabs == state.tabs,
        state.with_panes(panes).active_tab == state.active_tab,
{
    lemma_pane_as_listed(panes, state.active_tab, i);
}

proof fn lemma_last_listed(panes: Seq<PaneInfo>, id: u32) -> (i: int)
    requires
        exists|k: int| 0 <= k < panes.len() && (#[trigger] panes[k]).id == id && !panes[k].is_plugin,
    ensures
        0 <= i < panes.len(),
        panes[i].id == id,
        !panes[i].is_plugin,
        forall|j: int|
            i < j < panes.len() && !(#[trigger] panes[j]).is_plugin ==> panes[j].id != id,
    decreases panes.len(),
{
    let last = panes.len() - 1;
    if panes[last].id == id && !panes[last].is_plugin {
        last
    } else {
        let rest = panes.drop_last();
        let k = choose|k: int|
            0 <= k < panes.len() && (#[trigger] panes[k]).id == id && !panes[k].is_plugin;
        assert(rest[k] == panes[k]);
        let i = lemma_last_listed(rest, id);
        assert forall|j: int| i < j < panes.len() && !(#[trigger] panes[j]).is_plugin implies panes[j].id
            != id by {
            if j < last {
                assert(rest[j] == panes[j]);
            }
        }
        i
    }
}

/// Once the panes have come, a row is active if and only if its pane was last listed as
/// focused and in the active tab: no other pane of that tab is, and none of another tab.
pub proof fn law_active_row_is_the_focused_pane_of_the_active_tab(
    state: JoinView,
    panes: Seq<PaneInfo>,
    k: int,
)
    requires
        0 <= k < state.with_panes(panes).rows().len(),
    ensures
        exists|i: int|
            {
                let row = state.with_panes(panes).rows()[k];
                &&& 0 <= i < panes.len()
                &&& (#[trigger] panes[i]).id == row.pane_id
                &&& !panes[i].is_plugin
                &&& forall|j: int|
                    i < j < panes.len() && !(#[trigger] panes[j]).is_plugin ==> panes[j].id
                        != row.pane_id
                &&& row.pane_title == panes[i].title@
                &&& row.tab_position == panes[i].tab_position
                &&& row.active <==> panes[i].is_focused && state.active_tab == Some(
                    panes[i].tab_position,
                )
            },
{
    let after = state.with_panes(panes);
    let row = after.rows()[k];
    law_rows_are_the_join(after);
    lemma_panes_of(panes, state.active_tab, row.pane_id);
    let i = lemma_last_listed(panes, row.pane_id);
    law_panes_are_known_as_listed(state, panes, i);
    assert(panes[i].id == row.pane_id);
}

proof fn lemma_tab_as_listed(tabs: Seq<TabInfo>, i: int)
    requires
        0 <= i < tabs.len(),
        forall|j: int| i < j < tabs.len() ==> (#[trigger] tabs[j]).position != tabs[i].position,
    ensures
        tabs_of(tabs).contains_key(tabs[i].position),
        tabs_of(tabs)[tabs[i].position] == tabs[i].name@,
    decreases tabs.len(),
{
    if i < tabs.len() - 1 {
        let rest = tabs.drop_last();
        assert forall|j: int| i < j < rest.len() implies (#[trigger] rest[j]).position
            != rest[i].position by {
            assert(tabs[j] == rest[j]);
        }
        lemma_tab_as_listed(rest, i);
        assert(tabs[tabs.len() - 1].position != tabs[i].position);
    }
}

proof fn lemma_tab_keys(tabs: Seq<TabInfo>, position: usize)
    ensures
        tabs_of(tabs).contains_key(position) ==> exists|i: int|
            0 <= i < tabs.len() && (#[trigger] tabs[i]).position == position,
    decreases tabs.len(),
{
    if tabs.len() > 0 {
        let rest = tabs.drop_last();
        lemma_tab_keys(rest, position);
        if tabs_of(tabs).contains_key(position) {
            if tabs.last().position == position {
                assert(tabs[tabs.len() - 1].position == position);
            } else {
                let i = choose|i: int| 0 <= i < rest.len() && (#[trigger] rest[i]).position == position;
                assert(tabs[i] == rest[i]);
            }
        }
    }
}

proof fn lemma_active_tab(tabs: Seq<TabInfo>)
    ensures
        active_of(tabs) is None ==> forall|i: int|
            0 <= i < tabs.len() ==> !(#[trigger] tabs[i]).active,
        active_of(tabs) matches Some(position) ==> exists|i: int|
            {
                &&& 0 <= i < tabs.len()
                &&& (#[trigger] tabs[i]).active
                &&& tabs[i].position == position
                &&& forall|j: int| i < j < tabs.len() ==> !(#[trigger] tabs[j]).active
            },
    decreases tabs.len(),
{
    if tabs.len() > 0 {
        let rest = tabs.drop_last();
        let last = tabs.len() - 1;
        lemma_active_tab(rest);
        if tabs[last].active {
            assert(tabs[last].active);
        } else if active_of(tabs) is Some {
            let i = choose|i: int|
                {
                    &&& 0 <= i < rest.len()
                    &&& (#[trigger] rest[i]).active
                    &&& Some(rest[i].position) == active_of(rest)
                    &&& forall|j: int| i < j < rest.len() ==> !(#[trigger] rest[j]).active
                };
            assert(tabs[i] == rest[i]);
            assert forall|j: int| i < j < tabs.len() implies !(#[trigger] tabs[j]).active by {
                if j < last {
                    assert(tabs[j] == rest[j]);
                }
            }
        } else {
            assert forall|i: int| 0 <= i < tabs.len() implies !(#[trigger] tabs[i]).active by {
                if i < last {
                    assert(tabs[i] == rest[i]);
                }
            }
        }
    }
}

/// Tabs are known by the names that they were last listed with, and no other tab is
/// known. The active tab is the last that was listed as active; without one there is
/// none. Panes and statuses stay as they were.
pub proof fn law_tabs_are_known_as_listed(state: JoinView, tabs: Seq<TabInfo>)
    ensures
        forall|i: int|
            0 <= i < tabs.len() && (forall|j: int|
                i < j < tabs.len() ==> (#[trigger] tabs[j]).position != tabs[i].position) ==> {
                &&& state.with_tabs(tabs).tabs.contains_key((#[trigger] tabs[i]).position)
                &&& state.with_tabs(tabs).tabs[tabs[i].position] == tabs[i].name@
            },
        forall|position: usize| #[trigger]
            state.with_tabs(tabs).tabs.contains_key(position) ==> exists|i: int|
                0 <= i < tabs.len() && (#[trigger] tabs[i]).position == position,
        state.with_tabs(tabs).active_tab is None <==> forall|i: int|
            0 <= i < tabs.len() ==> !(#[trigger] tabs[i]).active,
        state.with_tabs(tabs).active_tab matches Some(position) ==> exists|i: int|
            {
                &&& 0 <= i < tabs.len()
                &&& (#[trigger] tabs[i]).active
                &&& tabs[i].position == position
                &&& forall|j: int| i < j < tabs.len() ==> !(#[trigger] tabs[j]).active
            },
        state.with_tabs(tabs).panes == state.panes,
        state.with_tabs(tabs).reported == state.reported,
{
    assert forall|i: int|
        0 <= i < tabs.len() && (forall|j: int|
            i < j < tabs.len() ==> (#[trigger] tabs[j]).position != tabs[i].position) implies {
        &&& state.with_tabs(tabs).tabs.contains_key((#[trigger] tabs[i]).position)
        &&& state.with_tabs(tabs).tabs[tabs[i].position] == tabs[i].name@
    } by {
        lemma_tab_as_listed(tabs, i);
    }
    assert forall|position: usize| #[trigger]
        state.with_tabs(tabs).tabs.contains_key(position) implies exists|i: int|
        0 <= i < tabs.len() && (#[trigger] tabs[i]).position == position by {
        lemma_tab_keys(tabs, position);
    }
    lemma_active_tab(tabs);
}

/// A row says of its pane what was pushed and listed of it: status, agent and message as
/// reported, title, tab and focus as listed, and the name of the tab. A tab without a
/// name is called `tab` and its number, one above its position. Each pane that exists and
/// has reported has one row, and no other pane has any.
pub proof fn law_rows_say_what_is_known(state: JoinView, id: u32)
    ensures
        (state.reported.contains_key(id) && state.panes.contains_key(id)) <==> exists|k: int|
            0 <= k < state.rows().len() && (#[trigger] state.rows()[k]).pane_id == id,
        forall|k: int|
            0 <= k < state.rows().len() && (#[trigger] state.rows()[k]).pane_id == id ==> {
                let row = state.rows()[k];
                let position = state.panes[id].tab_position;
                &&& row.status == state.reported[id].status
                &&& row.agent == state.reported[id].agent
                &&& row.message == state.reported[id].message
                &&& row.pane_title == state.panes[id].title
                &&& row.tab_position == position
                &&& row.active == state.panes[id].active
                &&& state.tabs.contains_key(position) ==> row.tab_name == state.tabs[position]
                &&& !state.tabs.contains_key(position) ==> exists|digits: Seq<char>|
                    {
                        &&& row.tab_name == "tab "@ + digits
                        &&& #[trigger] value_of(digits) == position + 1
                        &&& all_digits(digits)
                        &&& digits[0] != '0'
                    }
            },
{
    law_rows_are_the_join(state);
    if state.reported.contains_key(id) && state.panes.contains_key(id) {
        assert(state.rows().contains(state.row_of(id)));
    }
    assert forall|k: int|
        0 <= k < state.rows().len() && (#[trigger] state.rows()[k]).pane_id == id
            && !state.tabs.contains_key(state.panes[id].tab_position) implies exists|digits: Seq<char>|
        {
            &&& state.rows()[k].tab_name == "tab "@ + digits
            &&& #[trigger] value_of(digits) == state.panes[id].tab_position + 1
            &&& all_digits(digits)
            &&& digits[0] != '0'
        } by {
        let number = (state.panes[id].tab_position + 1) as nat;
        law_decimal_writes_the_number(number);
        assert(value_of(decimal(number)) == number);
    }
}

proof fn lemma_seeded_last(state: JoinView, rows: Seq<RowView>, i: int)
    requires
        0 <= i < rows.len(),
    ensures
        (forall|j: int| i < j < rows.len() ==> (#[trigger] rows[j]).pane_id != rows[i].pane_id) ==> {
            let after = state.with_rows(rows);
            let id = rows[i].pane_id;
            &&& after.reported.contains_key(id)
            &&& after.reported[id].status == rows[i].status
            &&& after.reported[id].agent == rows[i].agent
            &&& after.reported[id].message == rows[i].message
            &&& after.panes.contains_key(id)
            &&& after.panes[id].title == rows[i].pane_title
            &&& after.panes[id].tab_position == rows[i].tab_position
            &&& after.panes[id].active == rows[i].active
        },
        (forall|j: int|
            i < j < rows.len() ==> (#[trigger] rows[j]).tab_position != rows[i].tab_position) ==> {
            let after = state.with_rows(rows);
            &&& after.tabs.contains_key(rows[i].tab_position)
            &&& after.tabs[rows[i].tab_position] == rows[i].tab_name
        },
    decreases rows.len(),
{
    if i < rows.len() - 1 {
        let rest = rows.drop_last();
        let last = rows.len() - 1;
        lemma_seeded_last(state, rest, i);
        if forall|j: int| i < j < rows.len() ==> (#[trigger] rows[j]).pane_id != rows[i].pane_id {
            assert(rows[last].pane_id != rows[i].pane_id);
            assert forall|j: int| i < j < rest.len() implies (#[trigger] rest[j]).pane_id
                != rest[i].pane_id by {
                assert(rows[j] == rest[j]);
            }
        }
        if forall|j: int|
            i < j < rows.len() ==> (#[trigger] rows[j]).tab_position != rows[i].tab_position {
            assert(rows[last].tab_position != rows[i].tab_position);
            assert forall|j: int| i < j < rest.len() implies (#[trigger] rest[j]).tab_position
                != rest[i].tab_position by {
                assert(rows[j] == rest[j]);
            }
        }
    }
}

proof fn lemma_seeded_others(state: JoinView, rows: Seq<RowView>, id: u32, position: usize)
    ensures
        (forall|j: int| 0 <= j < rows.len() ==> (#[trigger] rows[j]).pane_id != id) ==> {
            let after = state.with_rows(rows);
            &&& after.reported.contains_key(id) == state.reported.contains_key(id)
            &&& state.reported.contains_key(id) ==> after.reported[id] == state.reported[id]
            &&& after.panes.contains_key(id) == state.panes.contains_key(id)
            &&& state.panes.contains_key(id) ==> after.panes[id] == state.panes[id]
        },
        (forall|j: int| 0 <= j < rows.len() ==> (#[trigger] rows[j]).tab_position != position) ==> {
            let after = state.with_rows(rows);
            &&& after.tabs.contains_key(position) == state.tabs.contains_key(position)
            &&& state.tabs.contains_key(position) ==> after.tabs[position] == state.tabs[position]
        },
        state.with_rows(rows).active_tab == state.active_tab,
    decreases rows.len(),
{
    if rows.len() > 0 {
        let rest = rows.drop_last();
        let last = rows.len() - 1;
        lemma_seeded_others(state, rest, id, position);
        if forall|j: int| 0 <= j < rows.len() ==> (#[trigger] rows[j]).pane_id != id {
            assert(rows[last].pane_id != id);
            assert forall|j: int| 0 <= j < rest.len() implies (#[trigger] rest[j]).pane_id != id by {
                assert(rows[j] == rest[j]);
            }
        }
        if forall|j: int| 0 <= j < rows.len() ==> (#[trigger] rows[j]).tab_position != position {
            assert(rows[last].tab_position != position);
            assert forall|j: int| 0 <= j < rest.len() implies (#[trigger] rest[j]).tab_position
                != position by {
                assert(rows[j] == rest[j]);
            }
        }
    }
}

/// Of rows that are taken over, the last of each pane stands: what it says of the agent
/// and the pane is known from then on, whatever was known before, and what the last row
/// of a tab calls it is the tab's name. A pane and a tab that no row names stay as they
/// were known.
pub proof fn law_seeded_rows_stand(
    state: JoinView,
    rows: Seq<RowView>,
    i: int,
    other: u32,
    elsewhere: usize,
)
    ensures
        0 <= i < rows.len() && (forall|j: int|
            i < j < rows.len() ==> (#[trigger] rows[j]).pane_id != rows[i].pane_id) ==> {
            let after = state.with_rows(rows);
            let id = rows[i].pane_id;
            &&& after.reported.contains_key(id)
            &&& after.reported[id].status == rows[i].status
            &&& after.reported[id].agent == rows[i].agent
            &&& after.reported[id].message == rows[i].message
            &&& after.panes.contains_key(id)
            &&& after.panes[id].title == rows[i].pane_title
            &&& after.panes[id].tab_position == rows[i].tab_position
            &&& after.panes[id].active == rows[i].active
        },
        0 <= i < rows.len() && (forall|j: int|
            i < j < rows.len() ==> (#[trigger] rows[j]).tab_position != rows[i].tab_position) ==> {
            let after = state.with_rows(rows);
            &&& after.tabs.contains_key(rows[i].tab_position)
            &&& after.tabs[rows[i].tab_position] == rows[i].tab_name
        },
        (forall|j: int| 0 <= j < rows.len() ==> (#[trigger] rows[j]).pane_id != other) ==> {
            let after = state.with_rows(rows);
            &&& after.reported.contains_key(other) == state.reported.contains_key(other)
            &&& state.reported.contains_key(other) ==> after.reported[other] == state.reported[other]
            &&& after.panes.contains_key(other) == state.panes.contains_key(other)
            &&& state.panes.contains_key(other) ==> after.panes[other] == state.panes[other]
        },
        (forall|j: int| 0 <= j < rows.len() ==> (#[trigger] rows[j]).tab_position != elsewhere) ==> {
            let after = state.with_rows(rows);
            &&& after.tabs.contains_key(elsewhere) == state.tabs.contains_key(elsewhere)
            &&& state.tabs.contains_key(elsewhere) ==> after.tabs[elsewhere] == state.tabs[elsewhere]
        },
        state.with_rows(rows).active_tab == state.active_tab,
{
    if 0 <= i < rows.len() {
        lemma_seeded_last(state, rows, i);
    }
    lemma_seeded_others(state, rows, other, elsewhere);
}

/// No two of `rows` speak of one pane, and rows of one tab call it by one name, as in
/// every snapshot that a watcher writes.
pub open spec fn is_consistent(rows: Seq<RowView>) -> bool {
    &&& forall|j: int, k: int|
        0 <= j < k < rows.len() ==> (#[trigger] rows[j]).pane_id != (#[trigger] rows[k]).pane_id
    &&& forall|j: int, k: int|
        0 <= j < k < rows.len() && (#[trigger] rows[j]).tab_position == (
        #[trigger] rows[k]).tab_position ==> rows[j].tab_name == rows[k].tab_name
}

/// Consistent rows that are taken over are shown from then on, each as it is.
pub proof fn law_consistent_rows_are_shown(state: JoinView, rows: Seq<RowView>, i: int)
    requires
        is_consistent(rows),
        0 <= i < rows.len(),
    ensures
        state.with_rows(rows).rows().contains(rows[i]),
{
    let after = state.with_rows(rows);
    lemma_seeded_row(state, rows, i);
    law_rows_are_the_join(after);
    assert(after.rows().contains(after.row_of(rows[i].pane_id)));
}

/// The rows of a join are consistent.
pub proof fn law_joined_rows_are_consistent(source: JoinView)
    ensures
        is_consistent(source.rows()),
{
    law_rows_are_the_join(source);
    let rows = source.rows();
    assert forall|j: int, k: int| 0 <= j < k < rows.len() implies (#[trigger] rows[j]).pane_id != (
    #[trigger] rows[k]).pane_id by {
        assert(rows[j].pane_id < rows[k].pane_id);
    }
}

} // verus!
