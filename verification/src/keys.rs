//! Keys, and how they move a selection.
use vstd::prelude::*;

verus! {

/// A key that was pressed.
#[derive(Clone, Copy, Debug, PartialEq, Eq, Structural)]
pub enum Key {
    Up,
    Down,
    Right,
    Enter,
    Esc,
    Char(char),
    Other,
}

impl Key {
    /// The keys that move the selection to the next row.
    pub open spec fn goes_down(self) -> bool {
        self == Key::Down || self == Key::Char('j')
    }

    /// The keys that move the selection to the row before.
    pub open spec fn goes_up(self) -> bool {
        self == Key::Up || self == Key::Char('k')
    }
}

/// The row below `selected`, of `count` rows. The last row is the end; without a
/// row the selection stays.
pub open spec fn below(selected: nat, count: nat) -> nat {
    if count == 0 {
        selected
    } else if selected + 1 < count {
        selected + 1
    } else {
        (count - 1) as nat
    }
}

/// The row above `selected`. The first row is the end.
pub open spec fn above(selected: nat) -> nat {
    if selected == 0 {
        0
    } else {
        (selected - 1) as nat
    }
}

/// Moves the selection to the row below.
pub fn next_row(selected: usize, count: usize) -> (row: usize)
    ensures
        row == below(selected as nat, count as nat),
{
    if count == 0 {
        selected
    } else if selected < count - 1 {
        selected + 1
    } else {
        count - 1
    }
}

/// Moves the selection to the row above.
pub fn previous_row(selected: usize) -> (row: usize)
    ensures
        row == above(selected as nat),
{
    selected.saturating_sub(1)
}

/// `selected`, or the last of `count` rows where there is no such row.
pub open spec fn clamped(selected: nat, count: nat) -> nat {
    if selected < count {
        selected
    } else if count == 0 {
        0
    } else {
        (count - 1) as nat
    }
}

/// Brings `selected` back among `count` rows.
pub fn clamp_row(selected: usize, count: usize) -> (row: usize)
    ensures
        row == clamped(selected as nat, count as nat),
{
    if selected >= count {
        count.saturating_sub(1)
    } else {
        selected
    }
}

/// A selection that names one of `count` rows names one after it has moved.
pub proof fn law_moving_keeps_the_selection_on_a_row(selected: nat, count: nat)
    requires
        selected < count,
    ensures
        below(selected, count) < count,
        above(selected) < count,
        clamped(selected, count) == selected,
{
}

/// Moving down and then up comes back to the row, unless it was the last; moving
/// up and then down comes back, unless it was the first.
pub proof fn law_moving_back_returns(selected: nat, count: nat)
    requires
        selected < count,
    ensures
        selected + 1 < count ==> above(below(selected, count)) == selected,
        selected > 0 ==> below(above(selected), count) == selected,
{
}

/// A move goes by one row, and stops at the ends: down from any row but the last is the
/// next one, down from the last or from beyond it is the last, up from any row but the
/// first is the one before. Without rows nothing moves down.
pub proof fn law_moving_goes_by_one_row(selected: nat, count: nat)
    ensures
        count > 0 && selected < count - 1 ==> below(selected, count) == selected + 1,
        count > 0 && selected >= count - 1 ==> below(selected, count) == count - 1,
        count == 0 ==> below(selected, count) == selected,
        selected > 0 ==> above(selected) + 1 == selected,
        above(0) == 0,
        count > 0 && selected >= count ==> clamped(selected, count) == count - 1,
        count == 0 ==> clamped(selected, count) == 0,
{
}

/// The keys that move are the arrows up and down and the letters `k` and `j`, and no key
/// moves both ways.
pub proof fn law_keys_that_move(key: Key)
    ensures
        key.goes_down() <==> (match key {
            Key::Down => true,
            Key::Char(c) => c as int == 0x6a,
            _ => false,
        }),
        key.goes_up() <==> (match key {
            Key::Up => true,
            Key::Char(c) => c as int == 0x6b,
            _ => false,
        }),
        !(key.goes_down() && key.goes_up()),
{
}

} // verus!
