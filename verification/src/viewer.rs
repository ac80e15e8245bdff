//! The viewer: an ordinary terminal program that shows the watcher's file and jumps
//! to the agents in it.
use vstd::prelude::*;

use crate::groups::{
    GroupView, TabGroup, flat, flat_rows, group_views, grouped, grouped_rows,
    law_each_group_is_one_tab, law_grouping_keeps_every_row,
};
use crate::join::{JoinView, law_fresh_instance_converges};
use crate::keys::{Key, above, below, clamp_row, clamped, next_row, previous_row};
use crate::model::{RowView, Snapshot, StatusPayload, row_views, snapshot_rows};
use crate::panes::PaneHit;
use crate::protocol::{SIDEBAR_PIPE_NAME, SYNC_PIPE_NAME};
use crate::screen::{DIM, RESET, law_drawn_number_selects_the_row, law_numbers_are_unique};
use crate::sidebar::SidebarView;
use crate::theme::{Theme, ThemeView, theme_view};
use crate::viewer_screen::{columns, render, title_line, viewer_text};

verus! {

/// What a key asks the viewer to do.
#[derive(Clone, Copy, Debug, PartialEq, Eq, Structural)]
pub enum Press {
    Quit,
    /// Go to this pane.
    Jump(PaneHit),
    Stay,
}

/// What a viewer draws at one moment.
#[derive(Debug)]
pub struct Shown {
    pub groups: Vec<TabGroup>,
    pub text: String,
}

/// The state of a viewer between two moments.
#[derive(Clone, Copy, Debug, PartialEq, Eq, Structural)]
pub struct Viewer {
    /// The row under the cursor.
    pub selected: usize,
    /// The frame of the spinners.
    pub frame: usize,
}

/// The frame that follows `frame`; after the last one comes the first.
pub open spec fn frame_after(frame: usize) -> usize {
    if frame == usize::MAX {
        0
    } else {
        (frame + 1) as usize
    }
}

/// What `key` asks for while `rows` are shown and the cursor is on row `selected`.
pub open spec fn pressed(key: Key, rows: Seq<RowView>, selected: nat) -> Press {
    if key == Key::Char('q') || key == Key::Esc {
        Press::Quit
    } else if (key == Key::Enter || key == Key::Char('l')) && selected < rows.len() {
        let row = rows[selected as int];
        Press::Jump(
            PaneHit { id: row.pane_id, tab_position: row.tab_position, focused: false },
        )
    } else {
        Press::Stay
    }
}

/// Where the cursor is after `key`.
pub open spec fn moved(key: Key, rows: Seq<RowView>, selected: nat) -> nat {
    if key.goes_down() {
        below(selected, rows.len())
    } else if key.goes_up() {
        above(selected)
    } else {
        selected
    }
}

/// A viewer that has drawn what was read from the state file.
pub open spec fn gone_on(viewer: Viewer, snapshot: Option<Snapshot>) -> Viewer {
    Viewer {
        selected: clamped(
            viewer.selected as nat,
            flat(grouped(snapshot_rows(snapshot))).len(),
        ) as usize,
        frame: frame_after(viewer.frame),
    }
}

/// What a viewer draws of what was read from the state file.
pub open spec fn drawn(
    viewer: Viewer,
    snapshot: Option<Snapshot>,
    theme: Option<ThemeView>,
    cols: Option<u16>,
) -> Seq<char> {
    viewer_text(
        grouped(snapshot_rows(snapshot)),
        gone_on(viewer, snapshot).selected as nat,
        snapshot is Some,
        viewer.frame as nat,
        theme,
        cols,
    )
}

impl Viewer {
    /// A viewer with the cursor on the first row.
    pub fn new() -> (viewer: Self)
        ensures
            viewer == (Viewer { selected: 0, frame: 0 }),
    {
        Viewer { selected: 0, frame: 0 }
    }

    /// Draws what was read from the state file, if anything was, and goes on to the
    /// next frame. A cursor that is past the last row moves back to it first.
    pub fn show(&mut self, snapshot: Option<Snapshot>, theme: &Option<Theme>, cols: Option<u16>) -> (shown:
        Shown)
        ensures
            group_views(shown.groups@) == grouped(snapshot_rows(snapshot)),
            final(self).selected == clamped(
                old(self).selected as nat,
                flat(grouped(snapshot_rows(snapshot))).len(),
            ),
            final(self).frame == frame_after(old(self).frame),
            shown.text@ == viewer_text(
                grouped(snapshot_rows(snapshot)),
                final(self).selected as nat,
                snapshot is Some,
                old(self).frame as nat,
                theme_view(*theme),
                cols,
            ),
            shown.text@ == drawn(*old(self), snapshot, theme_view(*theme), cols),
            *final(self) == gone_on(*old(self), snapshot),
    {
        let ghost views = snapshot_rows(snapshot);
        let found = snapshot.is_some();
        let rows = match snapshot {
            Some(snapshot) => snapshot.rows,
            None => Vec::new(),
        };
        assert(row_views(rows@) =~= views);
        let groups = grouped_rows(rows);
        let count = flat_rows(groups.as_slice()).len();
        self.selected = clamp_row(self.selected, count);
        proof {
            law_each_group_is_one_tab(views);
            assert forall|i: int| 0 <= i < groups.len() implies (
            #[trigger] groups@[i]).rows.len() > 0 by {
                assert(group_views(groups@)[i] == groups@[i]@);
            }
        }
        let text = render(groups.as_slice(), self.selected, found, self.frame, theme, cols);
        self.frame = self.frame.wrapping_add(1);
        Shown { groups, text }
    }

    /// Takes a key in while `groups` are shown.
    pub fn press(&mut self, key: Key, groups: &[TabGroup]) -> (press: Press)
        ensures
            press == pressed(key, flat(group_views(groups@)), old(self).selected as nat),
            final(self).selected == moved(
                key,
                flat(group_views(groups@)),
                old(self).selected as nat,
            ),
            final(self).frame == old(self).frame,
    {
        let ghost views = flat(group_views(groups@));
        match key {
            Key::Char('q') | Key::Esc => Press::Quit,
            Key::Down | Key::Char('j') => {
                let rows = flat_rows(groups);
                assert(rows@.len() == views.len());
                self.selected = next_row(self.selected, rows.len());
                Press::Stay
            },
            Key::Up | Key::Char('k') => {
                self.selected = previous_row(self.selected);
                Press::Stay
            },
            Key::Enter | Key::Char('l') => {
                let rows = flat_rows(groups);
                assert(rows@.len() == views.len());
                if self.selected < rows.len() {
                    let row = rows[self.selected];
                    assert(row@ == views[self.selected as int]);
                    Press::Jump(
                        PaneHit {
                            id: row.pane_id,
                            tab_position: row.tab_position,
                            focused: false,
                        },
                    )
                } else {
                    Press::Stay
                }
            },
            _ => Press::Stay,
        }
    }
}

/// The cursor is on a row whenever there is one: drawing puts it there, and no key
/// takes it off. So Enter always jumps, and to the row under the cursor.
pub proof fn law_cursor_stays_on_a_row(rows: Seq<RowView>, selected: nat, key: Key)
    requires
        rows.len() > 0,
    ensures
        clamped(selected, rows.len()) < rows.len(),
        selected < rows.len() ==> moved(key, rows, selected) < rows.len(),
        selected < rows.len() ==> pressed(Key::Enter, rows, selected) == Press::Jump(
            PaneHit {
                id: rows[selected as int].pane_id,
                tab_position: rows[selected as int].tab_position,
                focused: false,
            },
        ),
{
}

/// The viewer and a new sidebar that are handed the same snapshot of a watcher show
/// the same rows in the same order.
pub proof fn law_viewer_and_sidebar_agree(
    source: JoinView,
    snapshot: Snapshot,
    word: Option<Seq<char>>,
    report: Option<StatusPayload>,
)
    requires
        snapshot_rows(Some(snapshot)) == source.rows(),
    ensures
        SidebarView::fresh().messaged(SYNC_PIPE_NAME@, word, Some(snapshot), report).shown() == flat(
            grouped(snapshot_rows(Some(snapshot))),
        ),
{
    reveal_strlit("zj_agent_state.sidebar.v1");
    reveal_strlit("zj_agent_state.sync.v1");
    assert(SYNC_PIPE_NAME@[16] == 'y');
    assert(SIDEBAR_PIPE_NAME@[16] == 'i');
    law_fresh_instance_converges(source);
}

/// What keys do in the viewer: `q` and escape quit and nothing else does; enter and `l`
/// jump to the row under the cursor if there is one, and nothing else does; the keys that
/// move go by one row, and every other key leaves the cursor where it is.
pub proof fn law_keys_do_their_own_thing(key: Key, rows: Seq<RowView>, selected: nat)
    ensures
        pressed(key, rows, selected) is Quit <==> key == Key::Esc || key == Key::Char('q'),
        pressed(key, rows, selected) is Jump <==> (key == Key::Enter || key == Key::Char('l'))
            && selected < rows.len(),
        pressed(key, rows, selected) matches Press::Jump(hit) ==> hit.id
            == rows[selected as int].pane_id && hit.tab_position
            == rows[selected as int].tab_position,
        key == Key::Down || key == Key::Char('j') ==> {
            &&& selected + 1 < rows.len() ==> moved(key, rows, selected) == selected + 1
            &&& rows.len() > 0 && selected + 1 >= rows.len() ==> moved(key, rows, selected)
                == rows.len() - 1
            &&& rows.len() == 0 ==> moved(key, rows, selected) == selected
        },
        key == Key::Up || key == Key::Char('k') ==> {
            &&& selected > 0 ==> moved(key, rows, selected) == selected - 1
            &&& selected == 0 ==> moved(key, rows, selected) == 0
        },
        key != Key::Down && key != Key::Char('j') && key != Key::Up && key != Key::Char('k')
            ==> moved(key, rows, selected) == selected,
{
}

/// Frames follow one another, and the first follows the last that there is.
pub proof fn law_frames_follow_one_another(frame: usize)
    ensures
        frame < usize::MAX ==> frame_after(frame) == frame + 1,
        frame_after(usize::MAX) == 0,
{
}

/// The cursor is drawn where enter jumps: the agent whose line is drawn under the cursor is
/// the one that enter goes to, and no other agent's line is drawn so. Where the selection
/// names an agent at all, there is such a line.
pub proof fn law_cursor_is_drawn_where_enter_jumps(groups: Seq<GroupView>, selected: nat) -> (place: (
    int,
    nat,
))
    requires
        selected < flat(groups).len(),
    ensures
        ({
            let (g, r) = place;
            &&& 0 <= g < groups.len()
            &&& r < groups[g].rows.len()
            &&& flat(groups.take(g)).len() + r == selected
            &&& pressed(Key::Enter, flat(groups), selected) == Press::Jump(
                PaneHit {
                    id: groups[g].rows[r as int].pane_id,
                    tab_position: groups[g].rows[r as int].tab_position,
                    focused: false,
                },
            )
            &&& forall|h: int, s: int|
                0 <= h < groups.len() && 0 <= s < groups[h].rows.len() && flat(groups.take(h)).len()
                    + s == selected ==> #[trigger] groups[h].rows[s] == groups[g].rows[r as int] && h
                    == g && s == r
        }),
{
    let (g, r) = lemma_place_of(groups, selected);
    law_drawn_number_selects_the_row(groups, g, r as int);
    assert forall|h: int, s: int|
        0 <= h < groups.len() && 0 <= s < groups[h].rows.len() && flat(groups.take(h)).len() + s
            == selected implies #[trigger] groups[h].rows[s] == groups[g].rows[r as int] && h == g
        && s == r by {
        law_numbers_are_unique(groups, g, r as int, h, s);
    }
    (g, r)
}

proof fn lemma_place_of(groups: Seq<GroupView>, number: nat) -> (place: (int, nat))
    requires
        number < flat(groups).len(),
    ensures
        0 <= place.0 < groups.len(),
        place.1 < groups[place.0].rows.len(),
        flat(groups.take(place.0)).len() + place.1 == number,
    decreases groups.len(),
{
    let rest = groups.drop_last();
    let last = groups.len() - 1;
    assert(groups.take(last) =~= rest);
    if number < flat(rest).len() {
        let place = lemma_place_of(rest, number);
        assert(rest.take(place.0) =~= groups.take(place.0));
        place
    } else {
        (last, (number - flat(rest).len()) as nat)
    }
}

/// What a viewer draws is what was read: with a snapshot, all of its rows by tab, in the frame
/// that the viewer was in, and the cursor where it was or, where fewer rows are left, on the
/// last; without one, that the watcher is starting, and no row. The next frame follows.
pub proof fn law_viewer_draws_what_was_read(
    viewer: Viewer,
    snapshot: Snapshot,
    theme: Option<ThemeView>,
    cols: Option<u16>,
)
    ensures
        ({
            let rows = flat(grouped(row_views(snapshot.rows@)));
            let after = gone_on(viewer, Some(snapshot));
            &&& rows.to_multiset() == row_views(snapshot.rows@).to_multiset()
            &&& drawn(viewer, Some(snapshot), theme, cols) == viewer_text(
                grouped(row_views(snapshot.rows@)),
                after.selected as nat,
                true,
                viewer.frame as nat,
                theme,
                cols,
            )
            &&& viewer.selected < rows.len() ==> after.selected == viewer.selected
            &&& rows.len() > 0 && viewer.selected >= rows.len() ==> after.selected == rows.len() - 1
            &&& rows.len() == 0 ==> after.selected == 0
            &&& viewer.frame < usize::MAX ==> after.frame == viewer.frame + 1
        }),
        ({
            let before = title_line(columns(cols)) + (DIM@ + "starting watcher\u{2026}"@ + RESET@
                + "\r\n"@);
            &&& drawn(viewer, None, theme, cols).take(before.len() as int) == before
            &&& gone_on(viewer, None).selected == 0
        }),
{
    law_grouping_keeps_every_row(row_views(snapshot.rows@));
    let rows = flat(grouped(row_views(snapshot.rows@)));
    assert(rows.len() == snapshot.rows@.len());
    assert(snapshot.rows.len() == snapshot.rows@.len());
    law_grouping_keeps_every_row(snapshot_rows(None));
    let before = title_line(columns(cols)) + (DIM@ + "starting watcher\u{2026}"@ + RESET@
        + "\r\n"@);
    assert(drawn(viewer, None, theme, cols).take(before.len() as int) =~= before);
}

} // verus!
