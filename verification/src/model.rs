//! The records that travel between the programs, and what each stands for.
use vstd::prelude::*;

use crate::status::Status;

verus! {

/// The characters of an optional string.
pub open spec fn text_view(s: Option<String>) -> Option<Seq<char>> {
    match s {
        Some(s) => Some(s@),
        None => None,
    }
}

/// One agent, fully joined: the status that was pushed, with the pane and the
/// tab that it runs in.
#[derive(Debug)]
pub struct Row {
    pub pane_id: u32,
    pub status: Status,
    pub agent: String,
    pub message: Option<String>,
    pub pane_title: String,
    pub tab_name: String,
    pub tab_position: usize,
    pub active: bool,
}

/// What a `Row` says.
pub struct RowView {
    pub pane_id: u32,
    pub status: Status,
    pub agent: Seq<char>,
    pub message: Option<Seq<char>>,
    pub pane_title: Seq<char>,
    pub tab_name: Seq<char>,
    pub tab_position: usize,
    pub active: bool,
}

impl View for Row {
    type V = RowView;

    open spec fn view(&self) -> RowView {
        RowView {
            pane_id: self.pane_id,
            status: self.status,
            agent: self.agent@,
            message: text_view(self.message),
            pane_title: self.pane_title@,
            tab_name: self.tab_name@,
            tab_position: self.tab_position,
            active: self.active,
        }
    }
}

impl Clone for Row {
    fn clone(&self) -> (row: Self)
        ensures
            row == *self,
    {
        Row {
            pane_id: self.pane_id,
            status: self.status,
            agent: self.agent.clone(),
            message: self.message.clone(),
            pane_title: self.pane_title.clone(),
            tab_name: self.tab_name.clone(),
            tab_position: self.tab_position,
            active: self.active,
        }
    }
}

/// What a list of rows says.
pub open spec fn row_views(rows: Seq<Row>) -> Seq<RowView> {
    Seq::new(rows.len(), |i: int| rows[i]@)
}

/// All rows of a session at one moment. Each snapshot that is written carries
/// a generation above that of the one before.
#[derive(Debug)]
pub struct Snapshot {
    pub generation: u64,
    pub rows: Vec<Row>,
}

/// What a `Snapshot` says.
pub struct SnapshotView {
    pub generation: u64,
    pub rows: Seq<RowView>,
}

impl View for Snapshot {
    type V = SnapshotView;

    open spec fn view(&self) -> SnapshotView {
        SnapshotView { generation: self.generation, rows: row_views(self.rows@) }
    }
}

impl Clone for Snapshot {
    fn clone(&self) -> (snapshot: Self)
        ensures
            snapshot@ == self@,
    {
        let mut rows: Vec<Row> = Vec::new();
        let mut i: usize = 0;
        while i < self.rows.len()
            invariant
                i <= self.rows.len(),
                rows.len() == i,
                forall|k: int| 0 <= k < i ==> #[trigger] rows@[k] == self.rows@[k],
            decreases self.rows.len() - i,
        {
            rows.push(self.rows[i].clone());
            i += 1;
        }
        assert(row_views(rows@) =~= row_views(self.rows@));
        Snapshot { generation: self.generation, rows }
    }
}

impl Default for Snapshot {
    fn default() -> (snapshot: Self)
        ensures
            snapshot.generation == 0,
            snapshot.rows@ == Seq::<Row>::empty(),
    {
        Snapshot { generation: 0, rows: Vec::new() }
    }
}

/// The rows that an optional snapshot brings.
pub open spec fn snapshot_rows(snapshot: Option<Snapshot>) -> Seq<RowView> {
    match snapshot {
        Some(snapshot) => row_views(snapshot.rows@),
        None => Seq::empty(),
    }
}

/// What a hook sends about its agent.
#[derive(Debug)]
pub struct StatusPayload {
    pub pane_id: u32,
    pub status: String,
    pub agent: Option<String>,
    pub message: Option<String>,
}

/// The status of one agent, before it is joined to a pane.
#[derive(Debug)]
pub struct StatusEntry {
    pub status: Status,
    pub agent: String,
    pub message: Option<String>,
}

/// What a `StatusEntry` says.
pub struct EntryView {
    pub status: Status,
    pub agent: Seq<char>,
    pub message: Option<Seq<char>>,
}

impl View for StatusEntry {
    type V = EntryView;

    open spec fn view(&self) -> EntryView {
        EntryView { status: self.status, agent: self.agent@, message: text_view(self.message) }
    }
}

impl Clone for StatusEntry {
    fn clone(&self) -> (entry: Self)
        ensures
            entry == *self,
    {
        StatusEntry {
            status: self.status,
            agent: self.agent.clone(),
            message: self.message.clone(),
        }
    }
}

/// One pane of the session.
#[derive(Debug)]
pub struct PaneInfo {
    pub id: u32,
    pub title: String,
    pub tab_position: usize,
    pub is_focused: bool,
    pub is_plugin: bool,
}

/// One tab of the session.
#[derive(Debug)]
pub struct TabInfo {
    pub position: usize,
    pub name: String,
    pub active: bool,
}

/// Two rows say the same if and only if all their fields do, to the character.
pub proof fn law_rows_say_all_their_fields(a: Row, b: Row)
    ensures
        a@ == b@ <==> {
            &&& a.pane_id == b.pane_id
            &&& a.status == b.status
            &&& a.agent@ == b.agent@
            &&& a.message is Some == b.message is Some
            &&& a.message is Some && b.message is Some ==> a.message->0@ == b.message->0@
            &&& a.pane_title@ == b.pane_title@
            &&& a.tab_name@ == b.tab_name@
            &&& a.tab_position == b.tab_position
            &&& a.active == b.active
        },
        a@.pane_id == a.pane_id,
        a@.status == a.status,
        a@.agent == a.agent@,
        a.message matches Some(message) ==> a@.message == Some(message@),
        a.message is None ==> a@.message is None,
        a@.pane_title == a.pane_title@,
        a@.tab_name == a.tab_name@,
        a@.tab_position == a.tab_position,
        a@.active == a.active,
{
}

/// A snapshot says its generation and all its rows, in their order; an entry says its status,
/// its agent and its message.
pub proof fn law_records_say_all_their_fields(snapshot: Snapshot, entry: StatusEntry, i: int)
    ensures
        snapshot@.generation == snapshot.generation,
        snapshot@.rows.len() == snapshot.rows@.len(),
        0 <= i < snapshot.rows@.len() ==> snapshot@.rows[i] == snapshot.rows@[i]@,
        snapshot_rows(Some(snapshot)) == snapshot@.rows,
        snapshot_rows(None).len() == 0,
        entry@.status == entry.status,
        entry@.agent == entry.agent@,
        entry.message matches Some(message) ==> entry@.message == Some(message@),
        entry.message is None ==> entry@.message is None,
{
}

} // verus!
