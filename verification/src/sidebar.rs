//! The sidebar: one pane in every tab that shows all agents of the session, and
//! from which the user jumps to them. It draws; the watcher owns the file.
use std::collections::BTreeMap;

use vstd::prelude::*;

use crate::groups::{
    TabGroup, flat, flat_rows, group_views, grouped, grouped_rows, law_each_group_is_one_tab,
    law_grouping_keeps_every_row,
};
use crate::join::{
    JoinState, JoinView, active_of, is_consistent, law_consistent_rows_are_shown,
    law_dead_panes_are_dropped, law_fresh_instance_converges, law_panes_are_known_as_listed,
    law_rows_are_the_join, law_seeded_rows_stand, law_tabs_are_known_as_listed,
};
use crate::keys::{Key, above, below, clamp_row, clamped, next_row, previous_row};
use crate::model::{
    PaneInfo, Row, RowView, Snapshot, StatusPayload, TabInfo, row_views, snapshot_rows,
    text_view,
};
use crate::paths::{state_path, state_path_of};
use crate::protocol::{
    BACKGROUND_MARKER_KEY, Load, LoadView, PING_PIPE_NAME, SELF_URL_KEY, SESSION_NAME_KEY,
    SIDEBAR_PIPE_NAME, STATUS_PIPE_NAME, SYNC_PIPE_NAME, apply_payload, config_value, config_view,
    entry_of, law_names_differ, law_report_is_taken_as_sent,
};
use crate::sidebar_screen::{sidebar_screen, sidebar_text};
use crate::status::Status;
use crate::text::{law_trimming_cuts_white_ends, same_text, trimmed};
use crate::watcher::WatcherView;

verus! {

/// What happens around a sidebar.
#[derive(Debug)]
pub enum SidebarEvent {
    /// The pane has come into sight, or gone out of it.
    Visible(bool),
    /// A key was pressed, with or without a modifier.
    Key { key: Key, modified: bool },
    /// The timer has run out.
    Timer(Tick),
    Panes(Vec<PaneInfo>),
    Tabs(Vec<TabInfo>),
    Other,
}

/// What a sidebar finds when its timer runs out.
#[derive(Debug)]
pub struct Tick {
    /// The session's state file could be read.
    pub readable: bool,
    /// What it held, if that was a snapshot.
    pub snapshot: Option<Snapshot>,
    /// The id of the sidebar's own pane.
    pub plugin_id: u32,
}

/// What a sidebar wants done.
#[derive(Debug)]
pub enum Action {
    ShowSelf,
    HideSelf,
    /// Focus the plugin pane with this id.
    FocusPlugin(u32),
    /// Go to the tab with this number, then focus the terminal pane with this id.
    Jump { tab: u32, pane: u32 },
    /// Load the watcher in the background.
    LoadWatcher(Load),
}

/// What an `Action` says.
pub enum ActionView {
    ShowSelf,
    HideSelf,
    FocusPlugin(u32),
    Jump { tab: u32, pane: u32 },
    LoadWatcher(LoadView),
}

/// What an optional `Action` says.
pub open spec fn action_view(action: Option<Action>) -> Option<ActionView> {
    match action {
        Some(Action::ShowSelf) => Some(ActionView::ShowSelf),
        Some(Action::HideSelf) => Some(ActionView::HideSelf),
        Some(Action::FocusPlugin(id)) => Some(ActionView::FocusPlugin(id)),
        Some(Action::Jump { tab, pane }) => Some(ActionView::Jump { tab, pane }),
        Some(Action::LoadWatcher(load)) => Some(ActionView::LoadWatcher(load@)),
        None => None,
    }
}

/// How a sidebar answers an event or a message.
#[derive(Debug)]
pub struct SidebarReply {
    pub redraw: bool,
    pub action: Option<Action>,
}

/// The tab of each plugin pane, by the pane's id; of two with one id the later
/// stands.
pub open spec fn plugin_tabs_of(panes: Seq<PaneInfo>) -> Map<u32, usize>
    decreases panes.len(),
{
    if panes.len() == 0 {
        Map::empty()
    } else {
        let before = plugin_tabs_of(panes.drop_last());
        if panes.last().is_plugin {
            before.insert(panes.last().id, panes.last().tab_position)
        } else {
            before
        }
    }
}

/// What a `Sidebar` knows.
#[verifier::ext_equal]
pub struct SidebarView {
    pub join: JoinView,
    pub selected: nat,
    pub hidden: bool,
    pub watcher_url: Option<Seq<char>>,
    /// There is a state file, or a watcher that will write one.
    pub has_state_file: bool,
    pub session: Option<Seq<char>>,
    pub own_pane_id: Option<u32>,
    pub plugin_pane_tabs: Map<u32, usize>,
    pub active_tab: Option<usize>,
}

impl SidebarView {
    /// A sidebar that nothing has happened to.
    pub open spec fn fresh() -> SidebarView {
        SidebarView {
            join: JoinView::empty(),
            selected: 0,
            hidden: false,
            watcher_url: None,
            has_state_file: false,
            session: None,
            own_pane_id: None,
            plugin_pane_tabs: Map::empty(),
            active_tab: None,
        }
    }

    /// The rows in the order in which they are drawn and selected.
    pub open spec fn shown(self) -> Seq<RowView> {
        flat(grouped(self.join.rows()))
    }

    /// The file that the session's watcher writes.
    pub open spec fn session_file(self) -> Option<Seq<char>> {
        match self.session {
            Some(session) => Some(state_path_of(session)),
            None => None,
        }
    }

    /// The sidebar offered a name for its session. The first name stands.
    pub open spec fn in_session(self, name: Option<Seq<char>>) -> SidebarView {
        SidebarView {
            session: if self.session is Some {
                self.session
            } else {
                name
            },
            ..self
        }
    }

    /// The watcher that the sidebar loads to have a state file: where it is told
    /// the watcher's URL, knows its session, and has not found the file nor done
    /// so before.
    pub open spec fn watcher_to_load(self) -> Option<LoadView> {
        if self.has_state_file || self.watcher_url is None || self.session is None {
            None
        } else {
            Some(
                LoadView {
                    url: self.watcher_url->0,
                    config: seq![(SESSION_NAME_KEY@, self.session->0)],
                },
            )
        }
    }

    /// The sidebar once the timer has run out, before it may load a watcher.
    pub open spec fn looked(self, tick: Tick) -> SidebarView {
        if self.session is Some {
            SidebarView {
                join: self.join.with_rows(snapshot_rows(tick.snapshot)),
                has_state_file: self.has_state_file || tick.readable,
                ..self
            }
        } else {
            self
        }
    }

    /// The sidebar once the timer has run out.
    pub open spec fn ticked(self, tick: Tick) -> SidebarView {
        let looked = self.looked(tick);
        SidebarView {
            has_state_file: looked.has_state_file || looked.watcher_to_load() is Some,
            own_pane_id: if self.own_pane_id is Some {
                self.own_pane_id
            } else {
                Some(tick.plugin_id)
            },
            ..looked
        }
    }

    /// The jump to `row`: its tab, counted from one, then its pane.
    pub open spec fn jump_to(row: RowView) -> ActionView {
        ActionView::Jump {
            tab: ((row.tab_position + 1) % 0x1_0000_0000) as u32,
            pane: row.pane_id,
        }
    }

    /// The jump to the row that is selected, if there is a row.
    pub open spec fn jump_to_selected(self) -> Option<ActionView> {
        let rows = self.shown();
        if rows.len() == 0 {
            None
        } else {
            Some(Self::jump_to(rows[clamped(self.selected, rows.len()) as int]))
        }
    }

    /// The sidebar lies in the tab that the user looks at, so that of all sidebars
    /// it is the one to take the focus.
    pub open spec fn may_focus(self) -> bool {
        &&& self.own_pane_id is Some
        &&& self.plugin_pane_tabs.contains_key(self.own_pane_id->0)
        &&& self.active_tab == Some(self.plugin_pane_tabs[self.own_pane_id->0])
    }

    /// The sidebar after an event.
    pub open spec fn after(self, event: SidebarEvent) -> SidebarView {
        match event {
            SidebarEvent::Visible(visible) => SidebarView { hidden: !visible, ..self },
            SidebarEvent::Key { key, modified } => if modified {
                self
            } else if key.goes_down() {
                SidebarView { selected: below(self.selected, self.shown().len()), ..self }
            } else if key.goes_up() {
                SidebarView { selected: above(self.selected), ..self }
            } else {
                self
            },
            SidebarEvent::Timer(tick) => self.ticked(tick),
            SidebarEvent::Panes(panes) => SidebarView {
                plugin_pane_tabs: plugin_tabs_of(panes@),
                join: self.join.with_panes(panes@),
                ..self
            },
            SidebarEvent::Tabs(tabs) => SidebarView {
                active_tab: match active_of(tabs@) {
                    Some(position) => Some(position),
                    None => self.active_tab,
                },
                join: self.join.with_tabs(tabs@),
                ..self
            },
            SidebarEvent::Other => self,
        }
    }

    /// What the sidebar wants done after an event.
    pub open spec fn answer(self, event: SidebarEvent) -> Option<ActionView> {
        match event {
            SidebarEvent::Key { key, modified } => if !modified && (key == Key::Enter || key
                == Key::Right || key == Key::Char('l')) {
                self.jump_to_selected()
            } else {
                None
            },
            SidebarEvent::Timer(tick) => match self.looked(tick).watcher_to_load() {
                Some(load) => Some(ActionView::LoadWatcher(load)),
                None => None,
            },
            _ => None,
        }
    }

    /// The sidebar after a word on its pipe.
    pub open spec fn told(self, word: Option<Seq<char>>) -> SidebarView {
        if word == Some("toggle"@) {
            SidebarView { hidden: !self.hidden, ..self }
        } else if word == Some("hide"@) {
            SidebarView { hidden: true, ..self }
        } else if word == Some("show"@) {
            SidebarView { hidden: false, ..self }
        } else {
            self
        }
    }

    /// What the sidebar wants done after a word on its pipe.
    pub open spec fn obeys(self, word: Option<Seq<char>>) -> Option<ActionView> {
        if word == Some("toggle"@) {
            if self.hidden {
                Some(ActionView::ShowSelf)
            } else {
                Some(ActionView::HideSelf)
            }
        } else if word == Some("hide"@) {
            Some(ActionView::HideSelf)
        } else if word == Some("show"@) {
            Some(ActionView::ShowSelf)
        } else if word == Some("jump"@) && self.may_focus() {
            Some(ActionView::FocusPlugin(self.own_pane_id->0))
        } else {
            None
        }
    }

    /// A sidebar heeds a message on the pipe `name`, with the report that could be read from
    /// it.
    pub open spec fn heeds(name: Seq<char>, report: Option<StatusPayload>) -> bool {
        name == SIDEBAR_PIPE_NAME@ || name == SYNC_PIPE_NAME@ || name == PING_PIPE_NAME@ || (name
            == STATUS_PIPE_NAME@ && report is Some)
    }

    /// What the sidebar wants done after a message on the pipe `name`.
    pub open spec fn reacts(self, name: Seq<char>, word: Option<Seq<char>>) -> Option<ActionView> {
        if name == SIDEBAR_PIPE_NAME@ {
            self.obeys(word)
        } else {
            None
        }
    }

    /// The sidebar after a message on the pipe `name`.
    pub open spec fn messaged(
        self,
        name: Seq<char>,
        word: Option<Seq<char>>,
        snapshot: Option<Snapshot>,
        report: Option<StatusPayload>,
    ) -> SidebarView {
        if name == SIDEBAR_PIPE_NAME@ {
            self.told(word)
        } else if name == SYNC_PIPE_NAME@ {
            SidebarView { join: self.join.with_rows(snapshot_rows(snapshot)), ..self }
        } else if name == STATUS_PIPE_NAME@ && name != PING_PIPE_NAME@ && report is Some {
            SidebarView {
                join: self.join.with_status(report->0.pane_id, entry_of(report->0)),
                ..self
            }
        } else {
            self
        }
    }
}

/// The state of one sidebar.
pub struct Sidebar {
    join: JoinState,
    selected: usize,
    hidden: bool,
    watcher_url: Option<String>,
    has_state_file: bool,
    session: Option<String>,
    own_pane_id: Option<u32>,
    plugin_pane_tabs: BTreeMap<u32, usize>,
    active_tab: Option<usize>,
}

impl View for Sidebar {
    type V = SidebarView;

    closed spec fn view(&self) -> SidebarView {
        SidebarView {
            join: self.join@,
            selected: self.selected as nat,
            hidden: self.hidden,
            watcher_url: text_view(self.watcher_url),
            has_state_file: self.has_state_file,
            session: text_view(self.session),
            own_pane_id: self.own_pane_id,
            plugin_pane_tabs: self.plugin_pane_tabs@,
            active_tab: self.active_tab,
        }
    }
}

impl Default for Sidebar {
    fn default() -> (sidebar: Self)
        ensures
            sidebar@ == SidebarView::fresh(),
    {
        let sidebar = Sidebar {
            join: JoinState::default(),
            selected: 0,
            hidden: false,
            watcher_url: None,
            has_state_file: false,
            session: None,
            own_pane_id: None,
            plugin_pane_tabs: BTreeMap::new(),
            active_tab: None,
        };
        assert(sidebar@ =~= SidebarView::fresh());
        sidebar
    }
}

/// The tab of each plugin pane.
fn plugin_tabs(panes: &Vec<PaneInfo>) -> (tabs: BTreeMap<u32, usize>)
    ensures
        tabs@ == plugin_tabs_of(panes@),
{
    let mut tabs: BTreeMap<u32, usize> = BTreeMap::new();
    let mut i: usize = 0;
    while i < panes.len()
        invariant
            i <= panes.len(),
            tabs@ == plugin_tabs_of(panes@.take(i as int)),
        decreases panes.len() - i,
    {
        assert(panes@.take(i + 1).drop_last() =~= panes@.take(i as int));
        if panes[i].is_plugin {
            tabs.insert(panes[i].id, panes[i].tab_position);
        }
        i += 1;
    }
    assert(panes@.take(i as int) =~= panes@);
    tabs
}

/// The position of the last active tab.
fn active_position(tabs: &Vec<TabInfo>) -> (position: Option<usize>)
    ensures
        position == active_of(tabs@),
{
    let mut position: Option<usize> = None;
    let mut i: usize = 0;
    while i < tabs.len()
        invariant
            i <= tabs.len(),
            position == active_of(tabs@.take(i as int)),
        decreases tabs.len() - i,
    {
        assert(tabs@.take(i + 1).drop_last() =~= tabs@.take(i as int));
        if tabs[i].active {
            position = Some(tabs[i].position);
        }
        i += 1;
    }
    assert(tabs@.take(i as int) =~= tabs@);
    position
}

impl Sidebar {
    /// Takes the value of the configuration key that names the watcher's URL.
    pub fn load(&mut self, watcher_url: Option<String>)
        ensures
            final(self)@ == (SidebarView { watcher_url: text_view(watcher_url), ..old(self)@ }),
    {
        self.watcher_url = watcher_url;
    }

    /// Offers a name for the session. Returns whether the session is known now;
    /// once it is, no other name replaces it.
    pub fn ensure_session(&mut self, name: Option<String>) -> (known: bool)
        ensures
            final(self)@ == old(self)@.in_session(text_view(name)),
            known == (final(self)@.session is Some),
    {
        if self.session.is_some() {
            return true;
        }
        self.session = name;
        self.session.is_some()
    }

    /// The file that the session's watcher writes, once the session is known.
    pub fn state_file(&self) -> (path: Option<String>)
        ensures
            text_view(path) == (match self@.session {
                Some(session) => Some(state_path_of(session)),
                None => None,
            }),
            text_view(path) == self@.session_file(),
    {
        match &self.session {
            Some(session) => Some(state_path(session.as_str())),
            None => None,
        }
    }

    /// Takes over the rows of a snapshot, if there is one.
    fn refresh(&mut self, snapshot: Option<Snapshot>)
        ensures
            final(self)@ == (SidebarView {
                join: old(self)@.join.with_rows(snapshot_rows(snapshot)),
                ..old(self)@
            }),
    {
        if let Some(snapshot) = snapshot {
            self.join.seed_from_rows(snapshot.rows);
        }
    }

    /// Picks the watcher to load, and remembers that it is being loaded.
    fn ensure_watcher(&mut self) -> (action: Option<Action>)
        ensures
            final(self)@ == (SidebarView {
                has_state_file: old(self)@.has_state_file || old(self)@.watcher_to_load() is Some,
                ..old(self)@
            }),
            action_view(action) == (match old(self)@.watcher_to_load() {
                Some(load) => Some(ActionView::LoadWatcher(load)),
                None => None,
            }),
    {
        if self.has_state_file {
            return None;
        }
        let load = match (&self.watcher_url, &self.session) {
            (Some(url), Some(session)) => {
                let mut config: Vec<(String, String)> = Vec::new();
                config.push((SESSION_NAME_KEY.to_owned(), session.clone()));
                assert(config_view(config@) =~= self@.watcher_to_load()->0.config);
                Load { url: url.clone(), config }
            },
            _ => {
                return None;
            },
        };
        self.has_state_file = true;
        Some(Action::LoadWatcher(load))
    }

    /// The groups in the order in which they are drawn.
    fn groups(&self) -> (groups: Vec<TabGroup>)
        ensures
            group_views(groups@) == grouped(self@.join.rows()),
    {
        grouped_rows(self.join.rows())
    }

    /// The rows in the order in which they are drawn and selected.
    pub fn flat(&self) -> (rows: Vec<Row>)
        ensures
            row_views(rows@) == self@.shown(),
    {
        let groups = self.groups();
        let borrowed = flat_rows(groups.as_slice());
        let mut rows: Vec<Row> = Vec::new();
        let mut i: usize = 0;
        while i < borrowed.len()
            invariant
                i <= borrowed.len(),
                rows.len() == i,
                forall|k: int| 0 <= k < i ==> #[trigger] rows@[k] == *borrowed@[k],
            decreases borrowed.len() - i,
        {
            rows.push(borrowed[i].clone());
            i += 1;
        }
        assert(row_views(rows@) =~= Seq::new(borrowed@.len(), |k: int| borrowed@[k]@));
        rows
    }

    /// The jump to the row that is selected.
    fn jump_to_selected(&self) -> (action: Option<Action>)
        ensures
            action_view(action) == self@.jump_to_selected(),
    {
        let rows = self.flat();
        if rows.len() == 0 {
            return None;
        }
        let row = &rows[clamp_row(self.selected, rows.len())];
        assert(row_views(rows@)[clamped(self.selected as nat, rows@.len()) as int] == row@);
        Some(Action::Jump { tab: tab_number(row.tab_position), pane: row.pane_id })
    }

    /// The jump to the sidebar itself, if it lies in the tab that the user looks
    /// at.
    fn focus_self_in_active_tab(&self) -> (action: Option<Action>)
        ensures
            action_view(action) == (if self@.may_focus() {
                Some(ActionView::FocusPlugin(self@.own_pane_id->0))
            } else {
                None
            }),
    {
        let own = match self.own_pane_id {
            Some(own) => own,
            None => return None,
        };
        let tab = match self.plugin_pane_tabs.get(&own) {
            Some(tab) => *tab,
            None => return None,
        };
        if self.active_tab == Some(tab) {
            Some(Action::FocusPlugin(own))
        } else {
            None
        }
    }

    /// Takes an event in.
    pub fn update(&mut self, event: SidebarEvent) -> (reply: SidebarReply)
        ensures
            final(self)@ == old(self)@.after(event),
            action_view(reply.action) == old(self)@.answer(event),
            reply.redraw == !(event is Other),
    {
        let ghost before = self@;
        match event {
            SidebarEvent::Visible(visible) => {
                self.hidden = !visible;
                SidebarReply { redraw: true, action: None }
            },
            SidebarEvent::Key { key, modified } => {
                if modified {
                    return SidebarReply { redraw: true, action: None };
                }
                match key {
                    Key::Down | Key::Char('j') => {
                        let count = self.flat().len();
                        assert(count == before.shown().len());
                        self.selected = next_row(self.selected, count);
                        SidebarReply { redraw: true, action: None }
                    },
                    Key::Up | Key::Char('k') => {
                        self.selected = previous_row(self.selected);
                        SidebarReply { redraw: true, action: None }
                    },
                    Key::Enter | Key::Right | Key::Char('l') => {
                        SidebarReply { redraw: true, action: self.jump_to_selected() }
                    },
                    _ => SidebarReply { redraw: true, action: None },
                }
            },
            SidebarEvent::Timer(tick) => {
                let mut action: Option<Action> = None;
                if self.session.is_some() {
                    self.refresh(tick.snapshot);
                    if !self.has_state_file {
                        self.has_state_file = tick.readable;
                        action = self.ensure_watcher();
                    }
                }
                if self.own_pane_id.is_none() {
                    self.own_pane_id = Some(tick.plugin_id);
                }
                SidebarReply { redraw: true, action }
            },
            SidebarEvent::Panes(panes) => {
                self.plugin_pane_tabs = plugin_tabs(&panes);
                self.join.apply_panes(panes);
                SidebarReply { redraw: true, action: None }
            },
            SidebarEvent::Tabs(tabs) => {
                if let Some(position) = active_position(&tabs) {
                    self.active_tab = Some(position);
                }
                self.join.apply_tabs(tabs);
                SidebarReply { redraw: true, action: None }
            },
            SidebarEvent::Other => SidebarReply { redraw: false, action: None },
        }
    }

    /// Takes a word in that came on the sidebar's own pipe.
    fn obey(&mut self, word: &Option<String>) -> (action: Option<Action>)
        ensures
            final(self)@ == old(self)@.told(text_view(*word)),
            action_view(action) == old(self)@.obeys(text_view(*word)),
    {
        let word = match word {
            Some(word) => word.as_str(),
            None => return None,
        };
        if same_text(word, "toggle") {
            let action = if self.hidden {
                Action::ShowSelf
            } else {
                Action::HideSelf
            };
            self.hidden = !self.hidden;
            Some(action)
        } else if same_text(word, "hide") {
            self.hidden = true;
            Some(Action::HideSelf)
        } else if same_text(word, "show") {
            self.hidden = false;
            Some(Action::ShowSelf)
        } else if same_text(word, "jump") {
            self.focus_self_in_active_tab()
        } else {
            None
        }
    }

    /// Takes a message in, by the name of its pipe and its payload. `snapshot` and
    /// `report` are what the payload could be read as.
    pub fn pipe(
        &mut self,
        name: &str,
        payload: &Option<String>,
        snapshot: Option<Snapshot>,
        report: Option<StatusPayload>,
    ) -> (reply: SidebarReply)
        ensures
            final(self)@ == old(self)@.messaged(name@, text_view(*payload), snapshot, report),
            action_view(reply.action) == (if name@ == SIDEBAR_PIPE_NAME@ {
                old(self)@.obeys(text_view(*payload))
            } else {
                None
            }),
            reply.redraw == (name@ == SIDEBAR_PIPE_NAME@ || name@ == SYNC_PIPE_NAME@ || name@
                == PING_PIPE_NAME@ || (name@ == STATUS_PIPE_NAME@ && report is Some)),
            reply.redraw == SidebarView::heeds(name@, report),
            action_view(reply.action) == old(self)@.reacts(name@, text_view(*payload)),
    {
        if same_text(name, SIDEBAR_PIPE_NAME) {
            return SidebarReply { redraw: true, action: self.obey(payload) };
        }
        if same_text(name, SYNC_PIPE_NAME) {
            self.refresh(snapshot);
            return SidebarReply { redraw: true, action: None };
        }
        if same_text(name, PING_PIPE_NAME) {
            return SidebarReply { redraw: true, action: None };
        }
        if !same_text(name, STATUS_PIPE_NAME) {
            return SidebarReply { redraw: false, action: None };
        }
        match report {
            None => SidebarReply { redraw: false, action: None },
            Some(report) => {
                apply_payload(&mut self.join, report);
                SidebarReply { redraw: true, action: None }
            },
        }
    }

    /// Draws the sidebar in `cols` columns.
    pub fn render(&self, cols: usize) -> (text: String)
        ensures
            text@ == sidebar_text(
                grouped(self@.join.rows()),
                self@.selected,
                cols as nat,
            ),
    {
        let groups = self.groups();
        proof {
            law_each_group_is_one_tab(self@.join.rows());
            assert forall|i: int| 0 <= i < groups.len() implies (
            #[trigger] groups@[i]).rows.len() > 0 by {
                assert(group_views(groups@)[i] == groups@[i]@);
            }
        }
        sidebar_screen(groups.as_slice(), self.selected, cols)
    }
}

/// The number of the tab at `position`, counted from one.
fn tab_number(position: usize) -> (number: u32)
    ensures
        number == ((position + 1) % 0x1_0000_0000) as u32,
{
    let next: u128 = position as u128 + 1;
    (next % 0x1_0000_0000) as u32
}

/// Toggling twice restores the sidebar, and the second toggle does the opposite of
/// the first.
pub proof fn law_toggling_twice_restores(sidebar: SidebarView)
    ensures
        ({
            let word = Some("toggle"@);
            let toggled = sidebar.told(word);
            &&& toggled.told(word) == sidebar
            &&& toggled.hidden != sidebar.hidden
            &&& toggled.obeys(word) is Some
            &&& toggled.obeys(word) != sidebar.obeys(word)
        }),
{
}

/// A toggle goes by what is in sight, however it came to be so: it hides a sidebar
/// that was last reported visible, and shows one that was last reported hidden.
pub proof fn law_toggle_goes_by_what_is_visible(sidebar: SidebarView, visible: bool)
    ensures
        sidebar.after(SidebarEvent::Visible(visible)).obeys(Some("toggle"@)) == Some(
            if visible {
                ActionView::HideSelf
            } else {
                ActionView::ShowSelf
            },
        ),
{
}

/// Sidebars that lie in different tabs, and agree on where they lie and on which
/// tab is active, never both take the focus on a `jump`.
pub proof fn law_at_most_one_sidebar_takes_focus(a: SidebarView, b: SidebarView)
    requires
        a.active_tab == b.active_tab,
        a.plugin_pane_tabs == b.plugin_pane_tabs,
        a.own_pane_id is Some,
        b.own_pane_id is Some,
        a.plugin_pane_tabs[a.own_pane_id->0] != a.plugin_pane_tabs[b.own_pane_id->0],
    ensures
        a.obeys(Some("jump"@)) is None || b.obeys(Some("jump"@)) is None,
{
    reveal_strlit("toggle");
    reveal_strlit("hide");
    reveal_strlit("show");
    reveal_strlit("jump");
    assert("jump"@[0] == 'j' && "hide"@[0] == 'h' && "show"@[0] == 's' && "toggle"@[0] == 't');
}

/// A sidebar loads a watcher once at most: when it does so, and when it has seen
/// the state file, it takes note, keeps the note over every event, and loads none
/// from then on.
pub proof fn law_watcher_is_loaded_once(sidebar: SidebarView, event: SidebarEvent)
    ensures
        (sidebar.answer(event) matches Some(ActionView::LoadWatcher(load)) ==> sidebar.after(
            event,
        ).has_state_file),
        sidebar.has_state_file ==> sidebar.after(event).has_state_file,
        sidebar.has_state_file ==> !(sidebar.answer(event) matches Some(
            ActionView::LoadWatcher(load),
        )),
{
}

/// A watcher that a sidebar loads serves the sidebar's session, and stays as it was
/// loaded: it promotes no other.
pub proof fn law_loaded_watcher_serves_the_session(sidebar: SidebarView, watcher: WatcherView)
    requires
        sidebar.watcher_to_load() is Some,
    ensures
        ({
            let config = sidebar.watcher_to_load()->0.config;
            let loaded = watcher.configured(
                config_value(config, BACKGROUND_MARKER_KEY@),
                config_value(config, SELF_URL_KEY@),
                config_value(config, SESSION_NAME_KEY@),
            );
            &&& loaded.session_name == sidebar.session
            &&& loaded.promotion() is None
        }),
{
    reveal_strlit("zj_agent_state_self_url");
    reveal_strlit("zj_agent_state_session");
    reveal_with_fuel(config_value, 2);
    assert(SELF_URL_KEY@.len() != SESSION_NAME_KEY@.len());
}

/// Enter jumps wherever there is a row, and then to one of those that are shown.
pub proof fn law_jump_reaches_a_shown_row(sidebar: SidebarView)
    ensures
        sidebar.jump_to_selected() is Some <==> sidebar.shown().len() > 0,
        sidebar.jump_to_selected() is Some ==> exists|i: int|
            0 <= i < sidebar.shown().len() && sidebar.jump_to_selected()
                == Some(SidebarView::jump_to(#[trigger] sidebar.shown()[i])),
{
    let rows = sidebar.shown();
    if rows.len() > 0 {
        let at = clamped(sidebar.selected, rows.len()) as int;
        assert(sidebar.jump_to_selected() == Some(SidebarView::jump_to(rows[at])));
    }
}

/// A key leaves the rows as they are, and a selection that names one of them still
/// names one of them.
pub proof fn law_keys_keep_the_selection_on_a_row(sidebar: SidebarView, key: Key, modified: bool)
    requires
        sidebar.selected < sidebar.shown().len(),
    ensures
        ({
            let after = sidebar.after(SidebarEvent::Key { key, modified });
            &&& after.shown() == sidebar.shown()
            &&& after.selected < after.shown().len()
        }),
{
}

/// A ping is the watcher's business: it changes nothing about a sidebar.
pub proof fn law_ping_leaves_a_sidebar_alone(
    sidebar: SidebarView,
    word: Option<Seq<char>>,
    snapshot: Option<Snapshot>,
    report: Option<StatusPayload>,
)
    ensures
        sidebar.messaged(PING_PIPE_NAME@, word, snapshot, report) == sidebar,
{
    reveal_strlit("zj_agent_state.ping.v1");
    reveal_strlit("zj_agent_state.sidebar.v1");
    reveal_strlit("zj_agent_state.sync.v1");
    assert(PING_PIPE_NAME@[15] == 'p');
    assert(SYNC_PIPE_NAME@[15] == 's');
    assert(SIDEBAR_PIPE_NAME@[15] == 's');
}

/// A new sidebar shows the rows of the watcher as soon as it has read the
/// watcher's file, in the same order.
pub proof fn law_new_sidebar_shows_the_snapshot(watcher: JoinView, session: Seq<char>, tick: Tick)
    requires
        snapshot_rows(tick.snapshot) == watcher.rows(),
    ensures
        SidebarView::fresh().in_session(Some(session)).after(SidebarEvent::Timer(tick)).shown()
            == flat(grouped(watcher.rows())),
{
    law_fresh_instance_converges(watcher);
}

/// Every tick takes the file over, whatever the sidebar has seen before: once it knows its
/// session, each row of the snapshot that was read is joined and shown after the tick.
pub proof fn law_every_tick_takes_the_file_over(sidebar: SidebarView, tick: Tick, i: int)
    requires
        sidebar.session is Some,
        tick.snapshot is Some,
        is_consistent(row_views(tick.snapshot->0.rows@)),
        0 <= i < tick.snapshot->0.rows@.len(),
    ensures
        ({
            let after = sidebar.after(SidebarEvent::Timer(tick));
            let row = tick.snapshot->0.rows@[i]@;
            &&& after.join.rows().contains(row)
            &&& after.shown().contains(row)
        }),
{
    let rows = row_views(tick.snapshot->0.rows@);
    let after = sidebar.after(SidebarEvent::Timer(tick));
    law_consistent_rows_are_shown(sidebar.join, rows, i);
    assert(rows[i] == tick.snapshot->0.rows@[i]@);
    lemma_joined_is_shown(after, rows[i]);
}

/// Every snapshot that is pushed is taken over in the same way, session or not, and touches
/// nothing but the join.
pub proof fn law_every_push_is_taken_over(
    sidebar: SidebarView,
    word: Option<Seq<char>>,
    snapshot: Snapshot,
    report: Option<StatusPayload>,
    i: int,
)
    requires
        is_consistent(row_views(snapshot.rows@)),
        0 <= i < snapshot.rows@.len(),
    ensures
        ({
            let after = sidebar.messaged(SYNC_PIPE_NAME@, word, Some(snapshot), report);
            &&& after.join.rows().contains(snapshot.rows@[i]@)
            &&& after.shown().contains(snapshot.rows@[i]@)
            &&& after == (SidebarView { join: after.join, ..sidebar })
        }),
{
    let rows = row_views(snapshot.rows@);
    let after = sidebar.messaged(SYNC_PIPE_NAME@, word, Some(snapshot), report);
    law_names_differ();
    law_consistent_rows_are_shown(sidebar.join, rows, i);
    assert(rows[i] == snapshot.rows@[i]@);
    lemma_joined_is_shown(after, rows[i]);
}

proof fn lemma_joined_is_shown(sidebar: SidebarView, row: RowView)
    requires
        sidebar.join.rows().contains(row),
    ensures
        sidebar.shown().contains(row),
{
    let rows = sidebar.join.rows();
    law_grouping_keeps_every_row(rows);
    rows.to_multiset_ensures();
    sidebar.shown().to_multiset_ensures();
    assert(rows.to_multiset().count(row) > 0);
    assert(sidebar.shown().to_multiset().count(row) > 0);
}

/// What is shown is what is joined: every row of the join once, and no other.
pub proof fn law_all_joined_rows_are_shown(sidebar: SidebarView)
    ensures
        sidebar.shown().to_multiset() == sidebar.join.rows().to_multiset(),
        sidebar.shown().len() == sidebar.join.rows().len(),
{
    law_grouping_keeps_every_row(sidebar.join.rows());
}

/// A tick that brings no snapshot, or comes before the session is known, leaves the join as
/// it was. No tick moves the selection or hides the pane, and a tab, a pane or an agent that
/// the snapshot does not name stays as it was known.
pub proof fn law_tick_adds_only_what_was_read(sidebar: SidebarView, tick: Tick, id: u32)
    ensures
        ({
            let after = sidebar.after(SidebarEvent::Timer(tick));
            &&& sidebar.session is None || tick.snapshot is None ==> after.join == sidebar.join
            &&& after.selected == sidebar.selected
            &&& after.hidden == sidebar.hidden
            &&& after.session == sidebar.session
            &&& after.watcher_url == sidebar.watcher_url
            &&& after.plugin_pane_tabs == sidebar.plugin_pane_tabs
            &&& after.active_tab == sidebar.active_tab
            &&& sidebar.own_pane_id is Some ==> after.own_pane_id == sidebar.own_pane_id
            &&& sidebar.own_pane_id is None ==> after.own_pane_id == Some(tick.plugin_id)
            &&& (forall|j: int|
                0 <= j < snapshot_rows(tick.snapshot).len() ==> (#[trigger] snapshot_rows(
                    tick.snapshot,
                )[j]).pane_id != id) ==> {
                &&& after.join.reported.contains_key(id) == sidebar.join.reported.contains_key(id)
                &&& sidebar.join.reported.contains_key(id) ==> after.join.reported[id]
                    == sidebar.join.reported[id]
                &&& after.join.panes.contains_key(id) == sidebar.join.panes.contains_key(id)
                &&& sidebar.join.panes.contains_key(id) ==> after.join.panes[id]
                    == sidebar.join.panes[id]
            }
        }),
{
    law_seeded_rows_stand(sidebar.join, snapshot_rows(tick.snapshot), -1, id, 0);
}

/// A tick loads the watcher if and only if the session and the watcher's URL are known and
/// the state file neither was known nor could be read. It loads that URL and tells it the
/// session. From a tick on which the file was read or the watcher loaded, the file is known;
/// otherwise that stays as it was.
pub proof fn law_watcher_is_loaded_where_no_file_is(sidebar: SidebarView, tick: Tick)
    ensures
        ({
            let answer = sidebar.answer(SidebarEvent::Timer(tick));
            let after = sidebar.after(SidebarEvent::Timer(tick));
            &&& answer is Some <==> {
                &&& sidebar.session is Some
                &&& sidebar.watcher_url is Some
                &&& !sidebar.has_state_file
                &&& !tick.readable
            }
            &&& answer matches Some(action) ==> (action matches ActionView::LoadWatcher(load)
                && Some(load.url) == sidebar.watcher_url && config_value(load.config, SESSION_NAME_KEY@)
                == sidebar.session && load.config.len() == 1)
            &&& after.has_state_file <==> sidebar.has_state_file || answer is Some || (
            sidebar.session is Some && tick.readable)
        }),
{
    reveal_with_fuel(config_value, 2);
}

/// The first name that a sidebar is offered for its session stands, and touches nothing else.
pub proof fn law_first_session_stands(
    sidebar: SidebarView,
    first: Seq<char>,
    second: Option<Seq<char>>,
)
    ensures
        sidebar.session is None ==> sidebar.in_session(Some(first)).session == Some(first),
        sidebar.session is Some ==> sidebar.in_session(second) == sidebar,
        sidebar.in_session(Some(first)).in_session(second) == sidebar.in_session(Some(first)),
        sidebar.in_session(None) == sidebar,
        sidebar.in_session(second) == (SidebarView {
            session: sidebar.in_session(second).session,
            ..sidebar
        }),
{
}

/// What the words on a sidebar's pipe do: `hide` hides it, `show` shows it, `toggle` does
/// whichever changes it, and no other word does either. `jump` focuses its own pane if and
/// only if that lies in the active tab. Of what it knows only whether it is hidden changes.
pub proof fn law_words_do_what_they_say(sidebar: SidebarView, word: Seq<char>)
    ensures
        sidebar.told(Some("hide"@)).hidden,
        sidebar.obeys(Some("hide"@)) == Some(ActionView::HideSelf),
        !sidebar.told(Some("show"@)).hidden,
        sidebar.obeys(Some("show"@)) == Some(ActionView::ShowSelf),
        sidebar.told(Some("toggle"@)).hidden == !sidebar.hidden,
        sidebar.obeys(Some("toggle"@)) == (if sidebar.hidden {
            sidebar.obeys(Some("show"@))
        } else {
            sidebar.obeys(Some("hide"@))
        }),
        sidebar.told(Some("jump"@)) == sidebar,
        sidebar.obeys(Some("jump"@)) is Some <==> {
            &&& sidebar.own_pane_id is Some
            &&& sidebar.active_tab is Some
            &&& sidebar.plugin_pane_tabs.contains_key(sidebar.own_pane_id->0)
            &&& sidebar.plugin_pane_tabs[sidebar.own_pane_id->0] == sidebar.active_tab->0
        },
        sidebar.obeys(Some("jump"@)) matches Some(action) ==> action == ActionView::FocusPlugin(
            sidebar.own_pane_id->0,
        ),
        word != "hide"@ && word != "show"@ && word != "toggle"@ && word != "jump"@ ==> {
            &&& sidebar.told(Some(word)) == sidebar
            &&& sidebar.obeys(Some(word)) is None
        },
        sidebar.told(None) == sidebar,
        sidebar.obeys(None) is None,
        sidebar.told(Some(word)) == (SidebarView {
            hidden: sidebar.told(Some(word)).hidden,
            ..sidebar
        }),
{
    reveal_strlit("toggle");
    reveal_strlit("hide");
    reveal_strlit("show");
    reveal_strlit("jump");
    assert("jump"@[0] == 'j' && "hide"@[0] == 'h' && "show"@[0] == 's' && "toggle"@[0] == 't');
}

/// What messages do by their pipes: a word on the sidebar's own pipe is obeyed, a report on
/// the status pipe is taken as it was sent, and a message on a pipe of another name, or a
/// report that could not be read, changes nothing.
pub proof fn law_messages_go_by_their_pipes(
    sidebar: SidebarView,
    name: Seq<char>,
    word: Option<Seq<char>>,
    snapshot: Option<Snapshot>,
    report: Option<StatusPayload>,
)
    ensures
        sidebar.messaged(SIDEBAR_PIPE_NAME@, word, snapshot, report) == sidebar.told(word),
        sidebar.messaged(STATUS_PIPE_NAME@, word, snapshot, None) == sidebar,
        sidebar.messaged(SYNC_PIPE_NAME@, word, None, report) == sidebar,
        name != SIDEBAR_PIPE_NAME@ && name != SYNC_PIPE_NAME@ && name != STATUS_PIPE_NAME@
            ==> sidebar.messaged(name, word, snapshot, report) == sidebar,
        report matches Some(payload) ==> {
            let after = sidebar.messaged(STATUS_PIPE_NAME@, word, snapshot, report);
            let entry = after.join.reported[payload.pane_id];
            &&& after == (SidebarView { join: after.join, ..sidebar })
            &&& after.join.reported.contains_key(payload.pane_id)
            &&& entry.status == Status::of_word(payload.status@)
            &&& payload.agent matches Some(agent) ==> entry.agent == agent@
            &&& payload.message matches Some(message) ==> trimmed(message@).len() > 0
                ==> entry.message == Some(message@)
            &&& payload.message matches Some(message) ==> trimmed(message@).len() == 0
                ==> entry.message is None
            &&& after.join.panes == sidebar.join.panes
            &&& after.join.tabs == sidebar.join.tabs
        },
{
    law_names_differ();
    if let Some(payload) = report {
        law_report_is_taken_as_sent(sidebar.join, payload);
        if let Some(message) = payload.message {
            law_trimming_cuts_white_ends(message@);
        }
    }
}

/// What keys do in a sidebar: with a modifier none does anything. The keys that move go by
/// one row of those that are shown, and every other key leaves the selection. Enter, right
/// and `l` jump if there is a row, and no other key does. Nothing but the selection changes.
pub proof fn law_sidebar_keys_do_their_own_thing(sidebar: SidebarView, key: Key)
    ensures
        ({
            let plain = SidebarEvent::Key { key, modified: false };
            let modified = SidebarEvent::Key { key, modified: true };
            let count = sidebar.shown().len();
            let after = sidebar.after(plain);
            &&& sidebar.after(modified) == sidebar
            &&& sidebar.answer(modified) is None
            &&& after == (SidebarView { selected: after.selected, ..sidebar })
            &&& key == Key::Down || key == Key::Char('j') ==> {
                &&& sidebar.selected + 1 < count ==> after.selected == sidebar.selected + 1
                &&& count > 0 && sidebar.selected + 1 >= count ==> after.selected == count - 1
                &&& count == 0 ==> after.selected == sidebar.selected
            }
            &&& key == Key::Up || key == Key::Char('k') ==> {
                &&& sidebar.selected > 0 ==> after.selected == sidebar.selected - 1
                &&& sidebar.selected == 0 ==> after.selected == 0
            }
            &&& key != Key::Down && key != Key::Char('j') && key != Key::Up && key != Key::Char('k')
                ==> after == sidebar
            &&& sidebar.answer(plain) is Some <==> (key == Key::Enter || key == Key::Right || key
                == Key::Char('l')) && count > 0
        }),
{
}

/// A jump goes to the row that is selected, or to the last where fewer are left, and to its
/// tab by the number one above its position.
pub proof fn law_jump_goes_to_the_selected_row(sidebar: SidebarView, i: int)
    requires
        0 <= i < sidebar.shown().len(),
        sidebar.selected == i || (sidebar.selected >= sidebar.shown().len() && i
            == sidebar.shown().len() - 1),
        sidebar.shown()[i].tab_position < u32::MAX,
    ensures
        sidebar.answer(SidebarEvent::Key { key: Key::Enter, modified: false }) matches Some(action)
            && (action matches ActionView::Jump { tab, pane } && tab == sidebar.shown()[i].tab_position
            + 1 && pane == sidebar.shown()[i].pane_id),
{
}

/// A sidebar is hidden if and only if it was last reported out of sight, and a report of that
/// touches nothing else and asks for nothing.
pub proof fn law_sight_is_taken_as_reported(sidebar: SidebarView, visible: bool)
    ensures
        sidebar.after(SidebarEvent::Visible(visible)).hidden == !visible,
        sidebar.after(SidebarEvent::Visible(visible)) == (SidebarView {
            hidden: !visible,
            ..sidebar
        }),
        sidebar.answer(SidebarEvent::Visible(visible)) is None,
        sidebar.after(SidebarEvent::Other) == sidebar,
        sidebar.answer(SidebarEvent::Other) is None,
{
}

proof fn lemma_plugin_tab(panes: Seq<PaneInfo>, i: int)
    requires
        0 <= i < panes.len(),
        panes[i].is_plugin,
        forall|j: int|
            i < j < panes.len() && (#[trigger] panes[j]).is_plugin ==> panes[j].id != panes[i].id,
    ensures
        plugin_tabs_of(panes).contains_key(panes[i].id),
        plugin_tabs_of(panes)[panes[i].id] == panes[i].tab_position,
    decreases panes.len(),
{
    if i < panes.len() - 1 {
        let rest = panes.drop_last();
        assert forall|j: int| i < j < rest.len() && (#[trigger] rest[j]).is_plugin implies rest[j].id
            != rest[i].id by {
            assert(rest[j] == panes[j]);
        }
        lemma_plugin_tab(rest, i);
        assert(panes[panes.len() - 1] == panes.last());
    }
}

proof fn lemma_plugin_keys(panes: Seq<PaneInfo>, id: u32)
    ensures
        plugin_tabs_of(panes).contains_key(id) ==> exists|i: int|
            0 <= i < panes.len() && (#[trigger] panes[i]).is_plugin && panes[i].id == id,
    decreases panes.len(),
{
    if panes.len() > 0 && plugin_tabs_of(panes).contains_key(id) {
        let rest = panes.drop_last();
        lemma_plugin_keys(rest, id);
        if panes.last().is_plugin && panes.last().id == id {
            assert(panes[panes.len() - 1].id == id);
        } else {
            let i = choose|i: int|
                0 <= i < rest.len() && (#[trigger] rest[i]).is_plugin && rest[i].id == id;
            assert(panes[i] == rest[i]);
        }
    }
}

/// Panes that come in are known as they were listed last: those of plugins by their tabs, the
/// others in the join, with the focus if and only if they were listed so in the active tab. No
/// pane that was not listed is known, and a status is kept if and only if its pane was listed.
pub proof fn law_sidebar_knows_panes_as_listed(
    sidebar: SidebarView,
    panes: Vec<PaneInfo>,
    i: int,
    id: u32,
)
    ensures
        ({
            let after = sidebar.after(SidebarEvent::Panes(panes));
            &&& after.selected == sidebar.selected
            &&& after.hidden == sidebar.hidden
            &&& after.active_tab == sidebar.active_tab
            &&& after.own_pane_id == sidebar.own_pane_id
            &&& after.join.tabs == sidebar.join.tabs
            &&& after.join.active_tab == sidebar.join.active_tab
            &&& after.plugin_pane_tabs.contains_key(id) ==> exists|k: int|
                0 <= k < panes@.len() && (#[trigger] panes@[k]).is_plugin && panes@[k].id == id
            &&& after.join.panes.contains_key(id) <==> exists|k: int|
                0 <= k < panes@.len() && (#[trigger] panes@[k]).id == id && !panes@[k].is_plugin
            &&& after.join.reported.contains_key(id) <==> sidebar.join.reported.contains_key(id)
                && after.join.panes.contains_key(id)
            &&& 0 <= i < panes@.len() && panes@[i].is_plugin && (forall|j: int|
                i < j < panes@.len() && (#[trigger] panes@[j]).is_plugin ==> panes@[j].id
                    != panes@[i].id) ==> {
                &&& after.plugin_pane_tabs.contains_key(panes@[i].id)
                &&& after.plugin_pane_tabs[panes@[i].id] == panes@[i].tab_position
            }
            &&& 0 <= i < panes@.len() && !panes@[i].is_plugin && (forall|j: int|
                i < j < panes@.len() && !(#[trigger] panes@[j]).is_plugin ==> panes@[j].id
                    != panes@[i].id) ==> {
                let pane = after.join.panes[panes@[i].id];
                &&& pane.title == panes@[i].title@
                &&& pane.tab_position == panes@[i].tab_position
                &&& pane.active <==> panes@[i].is_focused && sidebar.join.active_tab == Some(
                    panes@[i].tab_position,
                )
            }
        }),
{
    lemma_plugin_keys(panes@, id);
    law_dead_panes_are_dropped(sidebar.join, panes@, id);
    if 0 <= i < panes@.len() && panes@[i].is_plugin && (forall|j: int|
        i < j < panes@.len() && (#[trigger] panes@[j]).is_plugin ==> panes@[j].id != panes@[i].id) {
        lemma_plugin_tab(panes@, i);
    }
    if 0 <= i < panes@.len() && !panes@[i].is_plugin && (forall|j: int|
        i < j < panes@.len() && !(#[trigger] panes@[j]).is_plugin ==> panes@[j].id != panes@[i].id) {
        law_panes_are_known_as_listed(sidebar.join, panes@, i);
    }
}

/// Tabs that come in are known by the names they were listed with last. The active tab is the
/// last that was listed as active; where none was, a sidebar remembers the one before, to find
/// its own place, while the join has none.
pub proof fn law_sidebar_knows_tabs_as_listed(sidebar: SidebarView, tabs: Vec<TabInfo>, i: int)
    ensures
        ({
            let after = sidebar.after(SidebarEvent::Tabs(tabs));
            &&& after.selected == sidebar.selected
            &&& after.hidden == sidebar.hidden
            &&& after.plugin_pane_tabs == sidebar.plugin_pane_tabs
            &&& after.join.panes == sidebar.join.panes
            &&& after.join.reported == sidebar.join.reported
            &&& 0 <= i < tabs@.len() && tabs@[i].active && (forall|j: int|
                i < j < tabs@.len() ==> !(#[trigger] tabs@[j]).active) ==> {
                &&& after.active_tab == Some(tabs@[i].position)
                &&& after.join.active_tab == Some(tabs@[i].position)
            }
            &&& (forall|j: int| 0 <= j < tabs@.len() ==> !(#[trigger] tabs@[j]).active) ==> {
                &&& after.active_tab == sidebar.active_tab
                &&& after.join.active_tab is None
            }
            &&& 0 <= i < tabs@.len() && (forall|j: int|
                i < j < tabs@.len() ==> (#[trigger] tabs@[j]).position != tabs@[i].position) ==> {
                &&& after.join.tabs.contains_key(tabs@[i].position)
                &&& after.join.tabs[tabs@[i].position] == tabs@[i].name@
            }
        }),
{
    law_tabs_are_known_as_listed(sidebar.join, tabs@);
    let after = sidebar.join.with_tabs(tabs@);
    if 0 <= i < tabs@.len() && tabs@[i].active && (forall|j: int|
        i < j < tabs@.len() ==> !(#[trigger] tabs@[j]).active) {
        assert(tabs@[i].active);
        let k = choose|k: int|
            {
                &&& 0 <= k < tabs@.len()
                &&& (#[trigger] tabs@[k]).active
                &&& Some(tabs@[k].position) == after.active_tab
                &&& forall|j: int| k < j < tabs@.len() ==> !(#[trigger] tabs@[j]).active
            };
        assert(k == i) by {
            if k < i {
                assert(!tabs@[i].active);
            } else if i < k {
                assert(!tabs@[k].active);
            }
        }
    }
}

/// Of rows in a snapshot that speak of one pane, the last stands after a tick, whatever the
/// sidebar has seen before.
pub proof fn law_tick_lets_the_last_row_stand(sidebar: SidebarView, tick: Tick, i: int)
    requires
        sidebar.session is Some,
        tick.snapshot is Some,
        0 <= i < tick.snapshot->0.rows@.len(),
        forall|j: int|
            i < j < tick.snapshot->0.rows@.len() ==> (
            #[trigger] tick.snapshot->0.rows@[j]).pane_id != tick.snapshot->0.rows@[i].pane_id,
    ensures
        ({
            let after = sidebar.after(SidebarEvent::Timer(tick)).join;
            let row = tick.snapshot->0.rows@[i];
            &&& after.reported.contains_key(row.pane_id)
            &&& after.reported[row.pane_id].status == row.status
            &&& after.reported[row.pane_id].agent == row.agent@
            &&& after.reported[row.pane_id].message == text_view(row.message)
            &&& after.panes.contains_key(row.pane_id)
            &&& after.panes[row.pane_id].title == row.pane_title@
            &&& after.panes[row.pane_id].tab_position == row.tab_position
            &&& after.panes[row.pane_id].active == row.active
        }),
{
    let rows = row_views(tick.snapshot->0.rows@);
    assert forall|j: int| i < j < rows.len() implies (#[trigger] rows[j]).pane_id
        != rows[i].pane_id by {
        assert(rows[j] == tick.snapshot->0.rows@[j]@);
    }
    law_seeded_rows_stand(sidebar.join, rows, i, 0, 0);
    assert(rows[i] == tick.snapshot->0.rows@[i]@);
}

/// A sidebar acts on the words of its own pipe alone. It heeds every message on the pipes that it
/// knows but for a report that could not be read, and none on another pipe.
pub proof fn law_sidebar_acts_on_its_own_pipe(
    sidebar: SidebarView,
    name: Seq<char>,
    word: Option<Seq<char>>,
    report: Option<StatusPayload>,
)
    ensures
        sidebar.reacts(SIDEBAR_PIPE_NAME@, word) == sidebar.obeys(word),
        name != SIDEBAR_PIPE_NAME@ ==> sidebar.reacts(name, word) is None,
        SidebarView::heeds(SIDEBAR_PIPE_NAME@, report),
        SidebarView::heeds(SYNC_PIPE_NAME@, report),
        SidebarView::heeds(PING_PIPE_NAME@, report),
        SidebarView::heeds(STATUS_PIPE_NAME@, report) <==> report is Some,
        SidebarView::heeds(name, report) ==> name == SIDEBAR_PIPE_NAME@ || name == SYNC_PIPE_NAME@
            || name == PING_PIPE_NAME@ || name == STATUS_PIPE_NAME@,
{
    law_names_differ();
}

/// A sidebar reads the very file that a watcher of its session has written, and none before it
/// knows its session.
pub proof fn law_sidebar_reads_what_the_watcher_writes(sidebar: SidebarView, watcher: WatcherView)
    ensures
        sidebar.session is None ==> sidebar.session_file() is None,
        sidebar.session is Some && watcher.session_name == sidebar.session ==> watcher.request() is Some
            && sidebar.session_file() == Some(watcher.request()->0.path),
{
}

/// A sidebar that nothing has happened to is in sight, shows nothing, has its selection on the
/// first row, and has nothing to do.
pub proof fn law_new_sidebar_is_blank()
    ensures
        ({
            let fresh = SidebarView::fresh();
            &&& fresh.shown().len() == 0
            &&& fresh.selected == 0
            &&& !fresh.hidden
            &&& !fresh.has_state_file
            &&& fresh.session is None
            &&& fresh.jump_to_selected() is None
            &&& fresh.obeys(Some("jump"@)) is None
        }),
{
    law_all_joined_rows_are_shown(SidebarView::fresh());
    law_words_do_what_they_say(SidebarView::fresh(), Seq::empty());
    law_rows_are_the_join(JoinView::empty());
    if JoinView::empty().rows().len() > 0 {
        assert(JoinView::empty().reported.contains_key(JoinView::empty().rows()[0].pane_id));
    }
}

/// An action says what it does and to which pane, tab or plugin.
pub proof fn law_action_says_what_it_does(action: Action)
    ensures
        ({
            let view = action_view(Some(action));
            &&& view is Some
            &&& view->0 is ShowSelf <==> action is ShowSelf
            &&& view->0 is HideSelf <==> action is HideSelf
            &&& action matches Action::FocusPlugin(id) ==> view->0 == ActionView::FocusPlugin(id)
            &&& action matches Action::Jump { tab, pane } ==> view->0 == (ActionView::Jump {
                tab,
                pane,
            })
            &&& action matches Action::LoadWatcher(load) ==> view->0 == ActionView::LoadWatcher(load@)
        }),
        action_view(None) is None,
{
}

} // verus!
