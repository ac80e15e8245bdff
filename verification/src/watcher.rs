//! The watcher: joins statuses with panes and tabs, and has each new state
//! written to the session's file. It draws no interface and never navigates.
use vstd::prelude::*;

use crate::join::{
    JoinState, JoinView, law_dead_panes_are_dropped, law_panes_are_known_as_listed,
    law_rows_are_the_join, law_tabs_are_known_as_listed,
};
use crate::model::{PaneInfo, Row, Snapshot, SnapshotView, StatusPayload, TabInfo, row_views, text_view};
use crate::paths::{state_path, state_path_of};
use crate::protocol::{
    BACKGROUND_MARKER_KEY, Load, LoadView, PING_PIPE_NAME, SELF_URL_KEY, SESSION_NAME_KEY,
    STATUS_PIPE_NAME, apply_payload, chimes, config_value, config_view, entry_of, is_chime,
    law_names_differ, law_report_is_taken_as_sent, load_view,
};
use crate::status::Status;
use crate::text::{
    all_digits, decimal, law_decimal_writes_the_number, law_trimming_cuts_white_ends, number,
    same_text, trimmed, value_of,
};

verus! {

/// A snapshot that is to be written: first to `tmp_path`, which is then renamed
/// to `path`, so that a reader never sees half of it.
#[derive(Debug)]
pub struct WriteRequest {
    pub path: String,
    pub tmp_path: String,
    pub snapshot: Snapshot,
}

/// What a `WriteRequest` says.
pub struct WriteView {
    pub path: Seq<char>,
    pub tmp_path: Seq<char>,
    pub snapshot: SnapshotView,
}

impl View for WriteRequest {
    type V = WriteView;

    open spec fn view(&self) -> WriteView {
        WriteView { path: self.path@, tmp_path: self.tmp_path@, snapshot: self.snapshot@ }
    }
}

/// What an optional `WriteRequest` says.
pub open spec fn write_view(request: Option<WriteRequest>) -> Option<WriteView> {
    match request {
        Some(request) => Some(request@),
        None => None,
    }
}

/// How an attempt to write a snapshot ended.
#[derive(Debug)]
pub enum WriteOutcome {
    Written,
    /// The snapshot could not be turned into text, with the reason.
    NotSerialized(String),
    /// The text could not be put on disk, with the reason.
    NotStored(String),
}

/// What happens around the watcher.
#[derive(Debug)]
pub enum WatcherEvent {
    PermissionGranted,
    PermissionDenied,
    Panes(Vec<PaneInfo>),
    Tabs(Vec<TabInfo>),
    Other,
}

impl WatcherEvent {
    /// The event brings a new state, which is written.
    pub open spec fn writes(self) -> bool {
        self is Panes || self is Tabs
    }
}

/// What the watcher wants done after an event.
#[derive(Debug)]
pub struct UpdateReply {
    pub redraw: bool,
    /// Load this plugin, and close the watcher that asked for it.
    pub promote: Option<Load>,
    pub write: Option<WriteRequest>,
}

/// What the watcher wants done after a message.
#[derive(Debug)]
pub struct PipeReply {
    pub redraw: bool,
    pub chime: bool,
    pub write: Option<WriteRequest>,
}

/// What a `Watcher` knows.
#[verifier::ext_equal]
pub struct WatcherView {
    pub join: JoinView,
    pub generation: u64,
    pub last_write_ok: bool,
    pub last_error: Seq<char>,
    pub is_background: bool,
    pub self_url: Option<Seq<char>>,
    pub session_name: Option<Seq<char>>,
}

impl WatcherView {
    /// A watcher that nothing has happened to.
    pub open spec fn fresh() -> WatcherView {
        WatcherView {
            join: JoinView::empty(),
            generation: 0,
            last_write_ok: false,
            last_error: Seq::empty(),
            is_background: false,
            self_url: None,
            session_name: None,
        }
    }

    /// The watcher with its configuration. It serves in the background if the
    /// marker is `1`.
    pub open spec fn configured(
        self,
        marker: Option<Seq<char>>,
        self_url: Option<Seq<char>>,
        session_name: Option<Seq<char>>,
    ) -> WatcherView {
        WatcherView { is_background: marker == Some("1"@), self_url, session_name, ..self }
    }

    /// There is a next generation to write.
    pub open spec fn can_advance(self) -> bool {
        self.session_name is Some ==> self.generation < u64::MAX
    }

    /// The watcher once it has asked for its state to be written. Without a
    /// session it notes that instead.
    pub open spec fn advanced(self) -> WatcherView {
        match self.session_name {
            Some(session) => WatcherView { generation: (self.generation + 1) as u64, ..self },
            None => WatcherView {
                last_write_ok: false,
                last_error: "no session name yet"@,
                ..self
            },
        }
    }

    /// What the watcher asks to be written: nothing until the session is known,
    /// so that no file is ever written that another session could share.
    pub open spec fn request(self) -> Option<WriteView> {
        match self.session_name {
            Some(session) => Some(
                WriteView {
                    path: state_path_of(session),
                    tmp_path: state_path_of(session) + ".tmp"@,
                    snapshot: SnapshotView {
                        generation: (self.generation + 1) as u64,
                        rows: self.join.rows(),
                    },
                },
            ),
            None => None,
        }
    }

    /// The plugin that a watcher in a pane loads to take its place: itself, in the
    /// background and for the same session.
    pub open spec fn promotion(self) -> Option<LoadView> {
        if self.is_background {
            None
        } else {
            match self.self_url {
                Some(url) => Some(
                    LoadView {
                        url,
                        config: match self.session_name {
                            Some(session) => seq![
                                (BACKGROUND_MARKER_KEY@, "1"@),
                                (SESSION_NAME_KEY@, session),
                            ],
                            None => seq![(BACKGROUND_MARKER_KEY@, "1"@)],
                        },
                    },
                ),
                None => None,
            }
        }
    }

    /// The watcher with the panes or tabs of an event taken in, before anything is
    /// written.
    pub open spec fn joined(self, event: WatcherEvent) -> WatcherView {
        match event {
            WatcherEvent::Panes(panes) => WatcherView {
                join: self.join.with_panes(panes@),
                ..self
            },
            WatcherEvent::Tabs(tabs) => WatcherView { join: self.join.with_tabs(tabs@), ..self },
            _ => self,
        }
    }

    /// The watcher with a hook's report taken in, before anything is written.
    pub open spec fn reported(self, payload: StatusPayload) -> WatcherView {
        WatcherView {
            join: self.join.with_status(payload.pane_id, entry_of(payload)),
            ..self
        }
    }

    /// The watcher once an attempt to write has ended.
    pub open spec fn settled(self, outcome: WriteOutcome) -> WatcherView {
        match outcome {
            WriteOutcome::Written => WatcherView { last_write_ok: true, ..self },
            WriteOutcome::NotSerialized(reason) => WatcherView {
                last_write_ok: false,
                last_error: "serialize: "@ + reason@,
                ..self
            },
            WriteOutcome::NotStored(reason) => WatcherView {
                last_write_ok: false,
                last_error: reason@,
                ..self
            },
        }
    }

    /// The watcher after an event.
    pub open spec fn after(self, event: WatcherEvent) -> WatcherView {
        if event.writes() {
            self.joined(event).advanced()
        } else {
            self
        }
    }

    /// What the watcher asks to be written after an event.
    pub open spec fn asks(self, event: WatcherEvent) -> Option<WriteView> {
        if event.writes() {
            self.joined(event).request()
        } else {
            None
        }
    }

    /// What the watcher asks to be loaded after an event.
    pub open spec fn promotes(self, event: WatcherEvent) -> Option<LoadView> {
        if event is PermissionGranted {
            self.promotion()
        } else {
            None
        }
    }

    /// The watcher heeds a message on the pipe `name`, with the report that could be read
    /// from it.
    pub open spec fn heeds(name: Seq<char>, report: Option<StatusPayload>) -> bool {
        name == PING_PIPE_NAME@ || (name == STATUS_PIPE_NAME@ && report is Some)
    }

    /// The watcher with what a message says taken in, before anything is written. A ping says
    /// nothing.
    pub open spec fn told(self, name: Seq<char>, report: Option<StatusPayload>) -> WatcherView {
        if name != PING_PIPE_NAME@ && name == STATUS_PIPE_NAME@ && report is Some {
            self.reported(report->0)
        } else {
            self
        }
    }

    /// A message calls a human.
    pub open spec fn calls(self, name: Seq<char>, report: Option<StatusPayload>) -> bool {
        name != PING_PIPE_NAME@ && name == STATUS_PIPE_NAME@ && report is Some && chimes(
            self.join.status_of(report->0.pane_id),
            entry_of(report->0).status,
        )
    }

    /// The line that shows that the watcher lives.
    pub open spec fn line(self) -> Seq<char> {
        "watcher: "@ + decimal(self.join.reported.len()) + " pane(s) joined, gen "@ + decimal(
            self.generation as nat,
        ) + ", last write "@ + (if self.last_write_ok {
            "ok"@
        } else {
            "FAILED: "@ + self.last_error
        })
    }
}

/// The state of the watcher plugin.
pub struct Watcher {
    join: JoinState,
    generation: u64,
    last_write_ok: bool,
    last_error: String,
    is_background: bool,
    self_url: Option<String>,
    session_name: Option<String>,
}

impl View for Watcher {
    type V = WatcherView;

    closed spec fn view(&self) -> WatcherView {
        WatcherView {
            join: self.join@,
            generation: self.generation,
            last_write_ok: self.last_write_ok,
            last_error: self.last_error@,
            is_background: self.is_background,
            self_url: text_view(self.self_url),
            session_name: text_view(self.session_name),
        }
    }
}

impl Default for Watcher {
    fn default() -> (watcher: Self)
        ensures
            watcher@ == WatcherView::fresh(),
    {
        Watcher {
            join: JoinState::default(),
            generation: 0,
            last_write_ok: false,
            last_error: String::new(),
            is_background: false,
            self_url: None,
            session_name: None,
        }
    }
}

impl Watcher {
    /// Takes the values of the three configuration keys.
    pub fn load(
        &mut self,
        background_marker: Option<String>,
        self_url: Option<String>,
        session_name: Option<String>,
    )
        ensures
            final(self)@ == old(self)@.configured(
                text_view(background_marker),
                text_view(self_url),
                text_view(session_name),
            ),
    {
        self.is_background = match background_marker {
            Some(marker) => same_text(marker.as_str(), "1"),
            None => false,
        };
        self.self_url = self_url;
        self.session_name = session_name;
    }

    /// Whether there is a next generation to write.
    pub fn can_advance(&self) -> (can: bool)
        ensures
            can == self@.can_advance(),
    {
        self.session_name.is_none() || self.generation < u64::MAX
    }

    /// The joined rows.
    pub fn rows(&self) -> (rows: Vec<Row>)
        ensures
            row_views(rows@) == self@.join.rows(),
    {
        self.join.rows()
    }

    /// Raises the generation and asks for the state to be written.
    pub fn write_snapshot(&mut self) -> (request: Option<WriteRequest>)
        requires
            old(self)@.can_advance(),
        ensures
            final(self)@ == old(self)@.advanced(),
            write_view(request) == old(self)@.request(),
    {
        match &self.session_name {
            None => {
                self.last_write_ok = false;
                self.last_error = "no session name yet".to_owned();
                None
            },
            Some(session) => {
                let path = state_path(session.as_str());
                let mut tmp_path = path.clone();
                tmp_path.append(".tmp");
                self.generation = self.generation + 1;
                let snapshot = Snapshot { generation: self.generation, rows: self.join.rows() };
                Some(WriteRequest { path, tmp_path, snapshot })
            },
        }
    }

    /// Takes note of how an attempt to write ended.
    pub fn settle(&mut self, outcome: WriteOutcome)
        ensures
            final(self)@ == old(self)@.settled(outcome),
    {
        match outcome {
            WriteOutcome::Written => {
                self.last_write_ok = true;
            },
            WriteOutcome::NotSerialized(reason) => {
                self.last_write_ok = false;
                let mut error = "serialize: ".to_owned();
                error.append(reason.as_str());
                self.last_error = error;
            },
            WriteOutcome::NotStored(reason) => {
                self.last_write_ok = false;
                self.last_error = reason;
            },
        }
    }

    /// The plugin to load so that it takes this one's place in the background.
    fn promotion(&self) -> (load: Option<Load>)
        ensures
            load_view(load) == self@.promotion(),
    {
        if self.is_background {
            return None;
        }
        match &self.self_url {
            Some(url) => {
                let mut config: Vec<(String, String)> = Vec::new();
                config.push((BACKGROUND_MARKER_KEY.to_owned(), "1".to_owned()));
                if let Some(session) = &self.session_name {
                    config.push((SESSION_NAME_KEY.to_owned(), session.clone()));
                }
                assert(config_view(config@) =~= self@.promotion()->0.config);
                Some(Load { url: url.clone(), config })
            },
            None => None,
        }
    }

    /// Takes an event in.
    pub fn update(&mut self, event: WatcherEvent) -> (reply: UpdateReply)
        requires
            event.writes() ==> old(self)@.can_advance(),
        ensures
            final(self)@ == (if event.writes() {
                old(self)@.joined(event).advanced()
            } else {
                old(self)@
            }),
            reply.redraw == !(event is Other),
            load_view(reply.promote) == (if event is PermissionGranted {
                old(self)@.promotion()
            } else {
                None
            }),
            write_view(reply.write) == (if event.writes() {
                old(self)@.joined(event).request()
            } else {
                None
            }),
            final(self)@ == old(self)@.after(event),
            load_view(reply.promote) == old(self)@.promotes(event),
            write_view(reply.write) == old(self)@.asks(event),
    {
        match event {
            WatcherEvent::PermissionGranted => UpdateReply {
                redraw: true,
                promote: self.promotion(),
                write: None,
            },
            WatcherEvent::PermissionDenied => UpdateReply {
                redraw: true,
                promote: None,
                write: None,
            },
            WatcherEvent::Panes(panes) => {
                self.join.apply_panes(panes);
                UpdateReply { redraw: true, promote: None, write: self.write_snapshot() }
            },
            WatcherEvent::Tabs(tabs) => {
                self.join.apply_tabs(tabs);
                UpdateReply { redraw: true, promote: None, write: self.write_snapshot() }
            },
            WatcherEvent::Other => UpdateReply { redraw: false, promote: None, write: None },
        }
    }

    /// Takes a message in, by the name of its pipe. `report` is the hook's report
    /// that the message carries, if it carries one that can be read.
    pub fn pipe(&mut self, name: &str, report: Option<StatusPayload>) -> (reply: PipeReply)
        requires
            (name@ == PING_PIPE_NAME@ || (name@ == STATUS_PIPE_NAME@ && report is Some)) ==> old(
                self,
            )@.can_advance(),
        ensures
            name@ == PING_PIPE_NAME@ ==> {
                &&& final(self)@ == old(self)@.advanced()
                &&& reply.redraw
                &&& !reply.chime
                &&& write_view(reply.write) == old(self)@.request()
            },
            name@ != PING_PIPE_NAME@ && name@ == STATUS_PIPE_NAME@ && report is Some ==> {
                &&& final(self)@ == old(self)@.reported(report->0).advanced()
                &&& reply.redraw
                &&& reply.chime == chimes(
                    old(self)@.join.status_of(report->0.pane_id),
                    entry_of(report->0).status,
                )
                &&& write_view(reply.write) == old(self)@.reported(report->0).request()
            },
            name@ != PING_PIPE_NAME@ && (name@ != STATUS_PIPE_NAME@ || report is None) ==> {
                &&& final(self)@ == old(self)@
                &&& !reply.redraw
                &&& !reply.chime
                &&& reply.write is None
            },
            reply.redraw == WatcherView::heeds(name@, report),
            reply.chime == old(self)@.calls(name@, report),
            final(self)@ == (if WatcherView::heeds(name@, report) {
                old(self)@.told(name@, report).advanced()
            } else {
                old(self)@
            }),
            write_view(reply.write) == (if WatcherView::heeds(name@, report) {
                old(self)@.told(name@, report).request()
            } else {
                None
            }),
    {
        if same_text(name, PING_PIPE_NAME) {
            return PipeReply { redraw: true, chime: false, write: self.write_snapshot() };
        }
        if !same_text(name, STATUS_PIPE_NAME) {
            return PipeReply { redraw: false, chime: false, write: None };
        }
        match report {
            None => PipeReply { redraw: false, chime: false, write: None },
            Some(report) => {
                let (previous, status) = apply_payload(&mut self.join, report);
                let chime = is_chime(previous, status);
                PipeReply { redraw: true, chime, write: self.write_snapshot() }
            },
        }
    }

    /// The line that shows that the watcher lives.
    pub fn render(&self) -> (line: String)
        ensures
            line@ == self@.line(),
    {
        let mut line = "watcher: ".to_owned();
        line.append(number(self.join.reported_len() as u128).as_str());
        line.append(" pane(s) joined, gen ");
        line.append(number(self.generation as u128).as_str());
        line.append(", last write ");
        if self.last_write_ok {
            line.append("ok");
        } else {
            line.append("FAILED: ");
            line.append(self.last_error.as_str());
        }
        assert(line@ =~= self@.line());
        line
    }
}

/// A watcher that knows its session answers a ping by a snapshot of the next
/// generation, and by nothing else: the rows in it are those that it had, and of
/// what it knows only the generation changes.
pub proof fn law_ping_only_raises_the_generation(watcher: WatcherView)
    requires
        watcher.session_name is Some,
        watcher.can_advance(),
    ensures
        watcher.advanced() == (WatcherView { generation: watcher.advanced().generation, ..watcher }),
        watcher.advanced().generation == watcher.generation + 1,
        watcher.request() is Some,
        watcher.request()->0.snapshot.generation == watcher.generation + 1,
        watcher.request()->0.snapshot.rows == watcher.join.rows(),
{
}

/// Of two snapshots that a watcher asks for one after the other, the later has
/// the higher generation, however the first was received and whatever event or
/// report came between them.
pub proof fn law_generations_rise(
    watcher: WatcherView,
    outcome: WriteOutcome,
    event: WatcherEvent,
    report: StatusPayload,
)
    requires
        watcher.session_name is Some,
        watcher.can_advance(),
        watcher.advanced().can_advance(),
    ensures
        ({
            let first = watcher.request()->0.snapshot.generation;
            let next = watcher.advanced().settled(outcome);
            &&& next.joined(event).request() is Some
            &&& next.joined(event).request()->0.snapshot.generation > first
            &&& next.reported(report).request() is Some
            &&& next.reported(report).request()->0.snapshot.generation > first
        }),
{
}

/// Until it knows its session a watcher has nothing written. From then on it
/// writes to the file of that session alone, by way of another file in the same
/// directory.
pub proof fn law_writes_are_scoped_to_the_session(watcher: WatcherView)
    ensures
        watcher.request() is Some <==> watcher.session_name is Some,
        watcher.request() is Some ==> {
            &&& watcher.request()->0.path == state_path_of(watcher.session_name->0)
            &&& watcher.request()->0.tmp_path != watcher.request()->0.path
            &&& watcher.request()->0.path.is_prefix_of(watcher.request()->0.tmp_path)
            &&& !watcher.request()->0.tmp_path.skip(
                watcher.request()->0.path.len() as int,
            ).contains('/')
        },
{
    reveal_strlit(".tmp");
    if watcher.request() is Some {
        let request = watcher.request()->0;
        assert(request.tmp_path.len() == request.path.len() + 4);
        assert(request.tmp_path.skip(request.path.len() as int) =~= ".tmp"@);
    }
}

/// A watcher that was promoted serves the session of the one that promoted it,
/// and never promotes another.
pub proof fn law_promotion_happens_once(
    watcher: WatcherView,
    promoted: WatcherView,
    url: Option<Seq<char>>,
)
    requires
        watcher.promotion() is Some,
    ensures
        ({
            let config = watcher.promotion()->0.config;
            let loaded = promoted.configured(
                config_value(config, BACKGROUND_MARKER_KEY@),
                url,
                config_value(config, SESSION_NAME_KEY@),
            );
            &&& loaded.is_background
            &&& loaded.promotion() is None
            &&& loaded.session_name == watcher.session_name
        }),
{
    reveal_strlit("zj_agent_state_bg");
    reveal_strlit("zj_agent_state_session");
    reveal_with_fuel(config_value, 3);
    assert(BACKGROUND_MARKER_KEY@.len() != SESSION_NAME_KEY@.len());
    let config = watcher.promotion()->0.config;
    if watcher.session_name is Some {
        assert(config.drop_last() =~= seq![(BACKGROUND_MARKER_KEY@, "1"@)]);
    }
}

/// A watcher takes its configuration as it is given: it serves in the background if the
/// marker is the digit one and nothing else, and knows the URL and the session that it is
/// told. What it has joined and written is left alone.
pub proof fn law_configuration_is_taken_as_given(
    watcher: WatcherView,
    marker: Option<Seq<char>>,
    url: Option<Seq<char>>,
    session: Option<Seq<char>>,
)
    ensures
        ({
            let loaded = watcher.configured(marker, url, session);
            &&& loaded.is_background <==> marker == Some(seq!['1'])
            &&& loaded.self_url == url
            &&& loaded.session_name == session
            &&& loaded.join == watcher.join
            &&& loaded.generation == watcher.generation
            &&& loaded.last_write_ok == watcher.last_write_ok
            &&& loaded.last_error == watcher.last_error
        }),
{
    reveal_strlit("1");
    assert("1"@ =~= seq!['1']);
}

/// A watcher promotes itself if and only if it is not in the background yet and knows its
/// own URL. What it loads is that URL, marked as in the background, told the session if it
/// is known, and not told a URL, so that it has none to load.
pub proof fn law_bootstrap_promotes_itself(watcher: WatcherView)
    ensures
        watcher.promotion() is Some <==> !watcher.is_background && watcher.self_url is Some,
        watcher.promotion() matches Some(load) ==> {
            &&& Some(load.url) == watcher.self_url
            &&& config_value(load.config, BACKGROUND_MARKER_KEY@) == Some("1"@)
            &&& config_value(load.config, SESSION_NAME_KEY@) == watcher.session_name
            &&& config_value(load.config, SELF_URL_KEY@) is None
        },
{
    law_names_differ();
    reveal_with_fuel(config_value, 3);
    if let Some(load) = watcher.promotion() {
        if watcher.session_name is Some {
            assert(load.config.drop_last() =~= seq![(BACKGROUND_MARKER_KEY@, "1"@)]);
            assert(load.config.last() == (SESSION_NAME_KEY@, watcher.session_name->0));
            assert(load.config.drop_last().drop_last().len() == 0);
        } else {
            assert(load.config.drop_last().len() == 0);
        }
    }
}

/// The events that bring panes or tabs are written, and no others. They are joined before
/// that: each pane and each tab is known as it was listed last, a status is dropped if and
/// only if its pane was not listed, and nothing but the join is touched.
pub proof fn law_events_are_joined_and_written(watcher: WatcherView, event: WatcherEvent, id: u32)
    ensures
        event.writes() <==> event is Panes || event is Tabs,
        watcher.joined(event) == (WatcherView { join: watcher.joined(event).join, ..watcher }),
        !event.writes() ==> watcher.joined(event) == watcher,
        event matches WatcherEvent::Panes(panes) ==> {
            let after = watcher.joined(event).join;
            &&& after.panes.contains_key(id) <==> exists|i: int|
                0 <= i < panes@.len() && (#[trigger] panes@[i]).id == id && !panes@[i].is_plugin
            &&& after.reported.contains_key(id) <==> watcher.join.reported.contains_key(id)
                && after.panes.contains_key(id)
            &&& after.reported.contains_key(id) ==> after.reported[id] == watcher.join.reported[id]
            &&& after.tabs == watcher.join.tabs
            &&& after.active_tab == watcher.join.active_tab
        },
        event matches WatcherEvent::Panes(panes) ==> forall|i: int|
            0 <= i < panes@.len() && !panes@[i].is_plugin && (forall|j: int|
                i < j < panes@.len() && !(#[trigger] panes@[j]).is_plugin ==> panes@[j].id
                    != panes@[i].id) ==> {
                let pane = watcher.joined(event).join.panes[(#[trigger] panes@[i]).id];
                &&& pane.title == panes@[i].title@
                &&& pane.tab_position == panes@[i].tab_position
                &&& pane.active <==> panes@[i].is_focused && watcher.join.active_tab == Some(
                    panes@[i].tab_position,
                )
            },
        event matches WatcherEvent::Tabs(tabs) ==> {
            let after = watcher.joined(event).join;
            &&& after.panes == watcher.join.panes
            &&& after.reported == watcher.join.reported
            &&& after.active_tab is None <==> forall|i: int|
                0 <= i < tabs@.len() ==> !(#[trigger] tabs@[i]).active
            &&& forall|i: int|
                0 <= i < tabs@.len() && (forall|j: int|
                    i < j < tabs@.len() ==> (#[trigger] tabs@[j]).position != tabs@[i].position)
                    ==> after.tabs.contains_key((#[trigger] tabs@[i]).position)
                    && after.tabs[tabs@[i].position] == tabs@[i].name@
        },
{
    match event {
        WatcherEvent::Panes(panes) => {
            law_dead_panes_are_dropped(watcher.join, panes@, id);
            assert forall|i: int|
                0 <= i < panes@.len() && !panes@[i].is_plugin && (forall|j: int|
                    i < j < panes@.len() && !(#[trigger] panes@[j]).is_plugin ==> panes@[j].id
                        != panes@[i].id) implies {
                let pane = watcher.joined(event).join.panes[(#[trigger] panes@[i]).id];
                &&& pane.title == panes@[i].title@
                &&& pane.tab_position == panes@[i].tab_position
                &&& pane.active <==> panes@[i].is_focused && watcher.join.active_tab == Some(
                    panes@[i].tab_position,
                )
            } by {
                law_panes_are_known_as_listed(watcher.join, panes@, i);
            }
        },
        WatcherEvent::Tabs(tabs) => {
            law_tabs_are_known_as_listed(watcher.join, tabs@);
        },
        _ => {},
    }
}

/// A watcher takes a report in as it was sent, and nothing but the join is touched.
pub proof fn law_reports_are_joined(watcher: WatcherView, payload: StatusPayload)
    ensures
        ({
            let after = watcher.reported(payload);
            let entry = after.join.reported[payload.pane_id];
            &&& after == (WatcherView { join: after.join, ..watcher })
            &&& after.join.reported.contains_key(payload.pane_id)
            &&& entry.status == Status::of_word(payload.status@)
            &&& payload.agent matches Some(agent) ==> entry.agent == agent@
            &&& payload.message matches Some(message) ==> trimmed(message@).len() > 0
                ==> entry.message == Some(message@)
            &&& payload.message matches Some(message) ==> trimmed(message@).len() == 0
                ==> entry.message is None
            &&& after.join.panes == watcher.join.panes
            &&& after.join.tabs == watcher.join.tabs
            &&& after.join.active_tab == watcher.join.active_tab
        }),
{
    law_report_is_taken_as_sent(watcher.join, payload);
    if let Some(message) = payload.message {
        law_trimming_cuts_white_ends(message@);
    }
}

/// A snapshot holds all rows of the join as they stand, and the generation that the watcher
/// has from then on. Without a session the watcher notes that nothing was written, and its
/// generation stays.
pub proof fn law_snapshot_holds_the_rows(watcher: WatcherView)
    requires
        watcher.can_advance(),
    ensures
        watcher.advanced().join == watcher.join,
        watcher.advanced().session_name == watcher.session_name,
        watcher.advanced().is_background == watcher.is_background,
        watcher.advanced().self_url == watcher.self_url,
        watcher.request() matches Some(request) ==> {
            &&& request.snapshot.rows == watcher.join.rows()
            &&& request.snapshot.generation == watcher.advanced().generation
            &&& watcher.advanced().generation == watcher.generation + 1
            &&& watcher.advanced().last_write_ok == watcher.last_write_ok
            &&& watcher.advanced().last_error == watcher.last_error
        },
        watcher.request() is None ==> {
            &&& watcher.advanced().generation == watcher.generation
            &&& !watcher.advanced().last_write_ok
            &&& watcher.advanced().last_error == "no session name yet"@
        },
{
}

/// How a write ended is noted as it was told: success clears the alarm and leaves the last
/// reason, failure keeps its reason, which a failure to serialize puts behind a word of its
/// own. Nothing else is touched.
pub proof fn law_outcomes_are_noted(watcher: WatcherView, outcome: WriteOutcome)
    ensures
        watcher.settled(outcome).last_write_ok <==> outcome is Written,
        outcome is Written ==> watcher.settled(outcome).last_error == watcher.last_error,
        outcome matches WriteOutcome::NotStored(reason) ==> watcher.settled(outcome).last_error
            == reason@,
        outcome matches WriteOutcome::NotSerialized(reason) ==> {
            let error = watcher.settled(outcome).last_error;
            &&& error.len() == 11 + reason@.len()
            &&& error.take(11) == "serialize: "@
            &&& error.skip(11) == reason@
        },
        watcher.settled(outcome) == (WatcherView {
            last_write_ok: watcher.settled(outcome).last_write_ok,
            last_error: watcher.settled(outcome).last_error,
            ..watcher
        }),
{
    reveal_strlit("serialize: ");
    if let WriteOutcome::NotSerialized(reason) = outcome {
        let error = watcher.settled(outcome).last_error;
        assert(error.take(11) =~= "serialize: "@);
        assert(error.skip(11) =~= reason@);
    }
}

/// The watcher's line counts the agents that have reported, gives the generation, and ends
/// in how the last write went.
pub proof fn law_line_tells_counts_and_outcome(watcher: WatcherView)
    ensures
        exists|agents: Seq<char>, generation: Seq<char>|
            {
                &&& #[trigger] value_of(agents) == watcher.join.reported.len()
                &&& #[trigger] value_of(generation) == watcher.generation
                &&& all_digits(agents)
                &&& all_digits(generation)
                &&& watcher.last_write_ok ==> watcher.line() == "watcher: "@ + agents
                    + " pane(s) joined, gen "@ + generation + ", last write "@ + "ok"@
                &&& !watcher.last_write_ok ==> watcher.line() == "watcher: "@ + agents
                    + " pane(s) joined, gen "@ + generation + ", last write "@ + ("FAILED: "@
                    + watcher.last_error)
            },
{
    let agents = decimal(watcher.join.reported.len());
    let generation = decimal(watcher.generation as nat);
    law_decimal_writes_the_number(watcher.join.reported.len());
    law_decimal_writes_the_number(watcher.generation as nat);
    assert(value_of(agents) == watcher.join.reported.len());
    assert(value_of(generation) == watcher.generation);
}

/// How a watcher answers events: a permission that was granted may promote it and does nothing
/// else; panes and tabs have the session's file written, if the session is known, with the rows
/// as they are joined from then on and the generation that the watcher has from then on; and
/// any other event does nothing.
pub proof fn law_watcher_answers_events(watcher: WatcherView, event: WatcherEvent)
    requires
        watcher.can_advance(),
    ensures
        event is PermissionGranted ==> {
            &&& watcher.after(event) == watcher
            &&& watcher.asks(event) is None
            &&& watcher.promotes(event) is Some <==> !watcher.is_background && watcher.self_url is Some
        },
        event is PermissionDenied || event is Other ==> {
            &&& watcher.after(event) == watcher
            &&& watcher.asks(event) is None
            &&& watcher.promotes(event) is None
        },
        event is Panes || event is Tabs ==> {
            let after = watcher.after(event);
            &&& watcher.promotes(event) is None
            &&& watcher.asks(event) is Some <==> watcher.session_name is Some
            &&& after.join == watcher.joined(event).join
            &&& watcher.asks(event) matches Some(write) ==> {
                &&& write.snapshot.rows == after.join.rows()
                &&& write.snapshot.generation == after.generation
                &&& after.generation == watcher.generation + 1
                &&& write.path == state_path_of(watcher.session_name->0)
            }
            &&& watcher.asks(event) is None ==> after.generation == watcher.generation
        },
{
}

/// How a watcher answers messages: a ping leaves the rows as they are and calls nobody; a report
/// on the status pipe that could be read is taken in, and calls a human if it brings the agent
/// to wait, to finish or to fail; both have the file written. A message on another pipe, or a
/// report that could not be read, does nothing.
pub proof fn law_watcher_answers_messages(
    watcher: WatcherView,
    name: Seq<char>,
    payload: StatusPayload,
    any: Option<StatusPayload>,
)
    ensures
        WatcherView::heeds(PING_PIPE_NAME@, any),
        watcher.told(PING_PIPE_NAME@, any) == watcher,
        !watcher.calls(PING_PIPE_NAME@, any),
        WatcherView::heeds(STATUS_PIPE_NAME@, Some(payload)),
        ({
            let after = watcher.told(STATUS_PIPE_NAME@, Some(payload)).join;
            let status = Status::of_word(payload.status@);
            &&& after.reported.contains_key(payload.pane_id)
            &&& after.reported[payload.pane_id].status == status
            &&& watcher.calls(STATUS_PIPE_NAME@, Some(payload)) <==> {
                &&& status == Status::Blocked || status == Status::Done || status == Status::Error
                &&& !(watcher.join.reported.contains_key(payload.pane_id)
                    && watcher.join.reported[payload.pane_id].status == status)
            }
        }),
        !WatcherView::heeds(STATUS_PIPE_NAME@, None),
        name != PING_PIPE_NAME@ && name != STATUS_PIPE_NAME@ ==> {
            &&& !WatcherView::heeds(name, any)
            &&& watcher.told(name, any) == watcher
            &&& !watcher.calls(name, any)
        },
{
    law_names_differ();
    law_report_is_taken_as_sent(watcher.join, payload);
}

/// A request says its paths and all of its snapshot, and a watcher can go on to the next
/// generation unless it writes and has none left.
pub proof fn law_request_says_all_of_it(request: WriteRequest, watcher: WatcherView)
    ensures
        request@.path == request.path@,
        request@.tmp_path == request.tmp_path@,
        request@.snapshot.generation == request.snapshot.generation,
        request@.snapshot.rows == row_views(request.snapshot.rows@),
        write_view(Some(request)) == Some(request@),
        write_view(None) is None,
        watcher.can_advance() <==> watcher.session_name is None || watcher.generation
            < 0xffff_ffff_ffff_ffff,
{
}

/// A watcher that nothing has happened to has joined and written nothing, and serves no session.
pub proof fn law_new_watcher_is_blank()
    ensures
        ({
            let fresh = WatcherView::fresh();
            &&& fresh.join.rows().len() == 0
            &&& fresh.generation == 0
            &&& !fresh.last_write_ok
            &&& fresh.session_name is None
            &&& fresh.request() is None
            &&& fresh.promotion() is None
        }),
{
    law_rows_are_the_join(JoinView::empty());
    if JoinView::empty().rows().len() > 0 {
        assert(JoinView::empty().reported.contains_key(JoinView::empty().rows()[0].pane_id));
    }
}

} // verus!
