//! What the programs say to one another: the names of pipes and configuration
//! keys, and how a hook's message becomes a status.
use vstd::prelude::*;

use crate::join::{JoinState, JoinView, law_rows_say_what_is_known};
use crate::model::{EntryView, StatusPayload, text_view};
use crate::status::Status;
use crate::text::{
    blank, is_blank, is_white, law_trimming_cuts_white_ends, same_text, trim, trimmed,
};

verus! {

/// The configuration key under which a plugin is told the session that it
/// serves, so that it need not learn it from the multiplexer.
pub const SESSION_NAME_KEY: &'static str = "zj_agent_state_session";

/// The pipe that asks whether a watcher is listening. The watcher answers by
/// raising the generation of its snapshot, and with nothing else.
pub const PING_PIPE_NAME: &'static str = "zj_agent_state.ping.v1";

/// The pipe on which hooks report.
pub const STATUS_PIPE_NAME: &'static str = "zj_agent_state.status.v1";

/// The pipe that steers the sidebar, one word at a time: `toggle`, `hide`,
/// `show` or `jump`.
pub const SIDEBAR_PIPE_NAME: &'static str = "zj_agent_state.sidebar.v1";

/// The pipe on which a whole snapshot is pushed to the sidebars.
pub const SYNC_PIPE_NAME: &'static str = "zj_agent_state.sync.v1";

/// The configuration key that marks a watcher as the one in the background.
pub const BACKGROUND_MARKER_KEY: &'static str = "zj_agent_state_bg";

/// The configuration key under which a watcher is told its own URL.
pub const SELF_URL_KEY: &'static str = "zj_agent_state_self_url";

/// The configuration key under which a sidebar is told the watcher's URL.
pub const WATCHER_URL_KEY: &'static str = "zj_agent_state_watcher_url";

/// What a list of configuration entries says.
pub open spec fn config_view(config: Seq<(String, String)>) -> Seq<(Seq<char>, Seq<char>)> {
    Seq::new(config.len(), |i: int| (config[i].0@, config[i].1@))
}

/// What `key` is set to in `config`; the last entry stands.
pub open spec fn config_value(config: Seq<(Seq<char>, Seq<char>)>, key: Seq<char>) -> Option<
    Seq<char>,
>
    decreases config.len(),
{
    if config.len() == 0 {
        None
    } else if config.last().0 == key {
        Some(config.last().1)
    } else {
        config_value(config.drop_last(), key)
    }
}

/// A plugin that is to be loaded: where from, and with what configuration.
#[derive(Debug)]
pub struct Load {
    pub url: String,
    pub config: Vec<(String, String)>,
}

/// What a `Load` says.
pub struct LoadView {
    pub url: Seq<char>,
    pub config: Seq<(Seq<char>, Seq<char>)>,
}

impl View for Load {
    type V = LoadView;

    open spec fn view(&self) -> LoadView {
        LoadView { url: self.url@, config: config_view(self.config@) }
    }
}

/// What an optional `Load` says.
pub open spec fn load_view(load: Option<Load>) -> Option<LoadView> {
    match load {
        Some(load) => Some(load@),
        None => None,
    }
}

/// The text of a message that is to be read as a hook's report: the payload of
/// a message on the status pipe, without the white space around it.
pub open spec fn report_of(name: Seq<char>, payload: Option<Seq<char>>) -> Option<Seq<char>> {
    if name == STATUS_PIPE_NAME@ {
        match payload {
            Some(payload) => Some(trimmed(payload)),
            None => None,
        }
    } else {
        None
    }
}

/// Picks the text of a message that is to be read as a hook's report.
pub fn report_text(name: &str, payload: &Option<String>) -> (text: Option<String>)
    ensures
        text_view(text) == report_of(name@, text_view(*payload)),
{
    if same_text(name, STATUS_PIPE_NAME) {
        match payload {
            Some(payload) => Some(trim(payload.as_str())),
            None => None,
        }
    } else {
        None
    }
}

/// Picks the text of a message that is to be read as a snapshot: the payload of a
/// message on the sync pipe, as it is.
pub fn snapshot_text(name: &str, payload: &Option<String>) -> (text: Option<String>)
    ensures
        text_view(text) == (if name@ == SYNC_PIPE_NAME@ {
            text_view(*payload)
        } else {
            None
        }),
{
    if same_text(name, SYNC_PIPE_NAME) {
        payload.clone()
    } else {
        None
    }
}

/// The status that a hook's report stands for: an agent without a name is
/// `agent`, and a message of white space alone is none.
pub open spec fn entry_of(payload: StatusPayload) -> EntryView {
    EntryView {
        status: Status::of_word(payload.status@),
        agent: match payload.agent {
            Some(agent) => agent@,
            None => "agent"@,
        },
        message: match payload.message {
            Some(message) => if is_blank(message@) {
                None
            } else {
                Some(message@)
            },
            None => None,
        },
    }
}

/// Feeds a hook's report into the join. Returns the status that the agent had
/// before, and the one that it has now.
pub fn apply_payload(state: &mut JoinState, payload: StatusPayload) -> (change: (
    Option<Status>,
    Status,
))
    ensures
        final(state)@ == old(state)@.with_status(payload.pane_id, entry_of(payload)),
        change.0 == old(state)@.status_of(payload.pane_id),
        change.1 == entry_of(payload).status,
{
    let status = Status::parse(payload.status.as_str());
    let agent = match payload.agent {
        Some(agent) => agent,
        None => "agent".to_owned(),
    };
    let message = match payload.message {
        Some(message) => if blank(message.as_str()) {
            None
        } else {
            Some(message)
        },
        None => None,
    };
    let previous = state.apply_status(payload.pane_id, status, agent, message);
    (previous, status)
}

/// The moments at which a human is called: the agent has come to wait, to finish
/// or to fail, and was not so before.
pub open spec fn chimes(previous: Option<Status>, status: Status) -> bool {
    previous != Some(status) && (status is Blocked || status is Done || status is Error)
}

/// Whether the change from `previous` to `status` calls a human.
pub fn is_chime(previous: Option<Status>, status: Status) -> (chime: bool)
    ensures
        chime == chimes(previous, status),
{
    let changed = match previous {
        Some(previous) => previous != status,
        None => true,
    };
    changed && matches!(status, Status::Blocked | Status::Done | Status::Error)
}

/// A report that repeats what the agent reported last never chimes.
pub proof fn law_chime_is_an_edge(state: JoinView, payload: StatusPayload)
    ensures
        ({
            let after = state.with_status(payload.pane_id, entry_of(payload));
            !chimes(after.status_of(payload.pane_id), entry_of(payload).status)
        }),
{
}

/// A report is taken as it was sent. Its message is kept to the character if it holds any
/// character that is not white space, and dropped if it is absent or holds none. The
/// agent's name is kept as it is, and is `agent` where there is none. The status is the
/// one that the word stands for.
pub proof fn law_report_is_taken_as_sent(state: JoinView, payload: StatusPayload)
    ensures
        ({
            let after = state.with_status(payload.pane_id, entry_of(payload));
            let entry = after.reported[payload.pane_id];
            &&& after.reported.contains_key(payload.pane_id)
            &&& forall|message: String, i: int|
                payload.message == Some(message) && 0 <= i < message@.len() && !is_white(
                    #[trigger] message@[i],
                ) ==> entry.message == Some(message@)
            &&& payload.message is None ==> entry.message is None
            &&& forall|message: String|
                payload.message == Some(message) && trimmed(#[trigger] message@).len() == 0
                    ==> entry.message is None
            &&& entry.message is Some ==> payload.message is Some && entry.message
                == Some(payload.message->0@)
            &&& payload.agent matches Some(agent) ==> entry.agent == agent@
            &&& payload.agent is None ==> entry.agent == seq!['a', 'g', 'e', 'n', 't']
            &&& entry.status == Status::of_word(payload.status@)
        }),
{
    reveal_strlit("agent");
    assert("agent"@ =~= seq!['a', 'g', 'e', 'n', 't']);
    if let Some(message) = payload.message {
        law_trimming_cuts_white_ends(message@);
    }
}

/// A report touches the agent of its own pane alone: the other agents, the panes and the
/// tabs stay as they were.
pub proof fn law_report_touches_its_own_pane(state: JoinView, payload: StatusPayload, other: u32)
    requires
        other != payload.pane_id,
    ensures
        ({
            let after = state.with_status(payload.pane_id, entry_of(payload));
            &&& after.reported.contains_key(other) == state.reported.contains_key(other)
            &&& state.reported.contains_key(other) ==> after.reported[other] == state.reported[other]
            &&& after.panes == state.panes
            &&& after.tabs == state.tabs
            &&& after.active_tab == state.active_tab
        }),
{
}

/// What a report says is shown: once a pane that exists has reported, its row bears the
/// status, the agent and the message of the report.
pub proof fn law_report_reaches_its_row(state: JoinView, payload: StatusPayload, k: int)
    requires
        0 <= k < state.with_status(payload.pane_id, entry_of(payload)).rows().len(),
        state.with_status(payload.pane_id, entry_of(payload)).rows()[k].pane_id == payload.pane_id,
    ensures
        ({
            let row = state.with_status(payload.pane_id, entry_of(payload)).rows()[k];
            &&& row.status == Status::of_word(payload.status@)
            &&& payload.agent matches Some(agent) ==> row.agent == agent@
            &&& payload.message matches Some(message) ==> trimmed(message@).len() > 0 ==> row.message
                == Some(message@)
            &&& payload.message matches Some(message) ==> trimmed(message@).len() == 0
                ==> row.message is None
            &&& payload.message is None ==> row.message is None
        }),
{
    law_report_is_taken_as_sent(state, payload);
    law_rows_say_what_is_known(
        state.with_status(payload.pane_id, entry_of(payload)),
        payload.pane_id,
    );
    if let Some(message) = payload.message {
        law_trimming_cuts_white_ends(message@);
    }
}

/// A message is read as a report if and only if it came on the status pipe with a payload.
/// The text that is read is the payload without the white space around it; a payload
/// without any is read whole.
pub proof fn law_reports_come_on_the_status_pipe(name: Seq<char>, payload: Option<Seq<char>>)
    ensures
        report_of(name, payload) is Some <==> name == STATUS_PIPE_NAME@ && payload is Some,
        report_of(name, payload) matches Some(text) ==> exists|from: int, to: int|
            {
                &&& 0 <= from <= to <= payload->0.len()
                &&& text == #[trigger] payload->0.subrange(from, to)
                &&& forall|i: int| 0 <= i < from ==> is_white(#[trigger] payload->0[i])
                &&& forall|i: int| to <= i < payload->0.len() ==> is_white(#[trigger] payload->0[i])
            },
        report_of(name, payload) matches Some(text) ==> text.len() > 0 ==> !is_white(text.first())
            && !is_white(text.last()),
{
    if let Some(text) = payload {
        law_trimming_cuts_white_ends(text);
    }
}

/// A chime calls a human to an agent that waits, is done or has failed, and to no other. It
/// sounds when the agent comes to that, whatever it did before, and not when it stays.
pub proof fn law_chime_calls_to_a_new_state(previous: Option<Status>, status: Status)
    ensures
        chimes(None, status) <==> status == Status::Blocked || status == Status::Done || status
            == Status::Error,
        previous == Some(status) ==> !chimes(previous, status),
        previous != Some(status) ==> chimes(previous, status) == chimes(None, status),
{
}

/// The four pipes are told apart by their names, and so are the keys of a configuration.
pub proof fn law_names_differ()
    ensures
        PING_PIPE_NAME@ != STATUS_PIPE_NAME@,
        PING_PIPE_NAME@ != SIDEBAR_PIPE_NAME@,
        PING_PIPE_NAME@ != SYNC_PIPE_NAME@,
        STATUS_PIPE_NAME@ != SIDEBAR_PIPE_NAME@,
        STATUS_PIPE_NAME@ != SYNC_PIPE_NAME@,
        SIDEBAR_PIPE_NAME@ != SYNC_PIPE_NAME@,
        BACKGROUND_MARKER_KEY@ != SESSION_NAME_KEY@,
        BACKGROUND_MARKER_KEY@ != SELF_URL_KEY@,
        SELF_URL_KEY@ != SESSION_NAME_KEY@,
{
    reveal_strlit("zj_agent_state.ping.v1");
    reveal_strlit("zj_agent_state.status.v1");
    reveal_strlit("zj_agent_state.sidebar.v1");
    reveal_strlit("zj_agent_state.sync.v1");
    reveal_strlit("zj_agent_state_bg");
    reveal_strlit("zj_agent_state_session");
    reveal_strlit("zj_agent_state_self_url");
    assert(PING_PIPE_NAME@[15] == 'p' && STATUS_PIPE_NAME@[15] == 's' && SIDEBAR_PIPE_NAME@[15] == 's'
        && SYNC_PIPE_NAME@[15] == 's');
    assert(STATUS_PIPE_NAME@[16] == 't' && SIDEBAR_PIPE_NAME@[16] == 'i' && SYNC_PIPE_NAME@[16]
        == 'y');
    assert(BACKGROUND_MARKER_KEY@.len() == 17 && SESSION_NAME_KEY@.len() == 22 && SELF_URL_KEY@.len()
        == 23);
}

/// What is to be loaded says its URL and all entries of its configuration, in their order.
pub proof fn law_load_says_all_its_entries(load: Load, i: int)
    ensures
        load@.url == load.url@,
        load@.config.len() == load.config@.len(),
        0 <= i < load.config@.len() ==> load@.config[i] == (load.config@[i].0@, load.config@[i].1@),
        load_view(Some(load)) == Some(load@),
        load_view(None) is None,
{
}

/// A key has the value of its last entry, and none where it has no entry.
pub proof fn law_last_entry_gives_the_value(
    config: Seq<(Seq<char>, Seq<char>)>,
    key: Seq<char>,
    value: Seq<char>,
    other: Seq<char>,
)
    ensures
        config_value(config.push((key, value)), key) == Some(value),
        other != key ==> config_value(config.push((other, value)), key) == config_value(config, key),
        config_value(Seq::<(Seq<char>, Seq<char>)>::empty(), key) is None,
{
    assert(config.push((key, value)).drop_last() =~= config);
    assert(config.push((other, value)).drop_last() =~= config);
}

} // verus!
