//! Screens and the action menu. `Screen` is the mode the app is in (some
//! carry their own cursor); `Action` is what the menu can trigger.

use vstd::prelude::*;

verus! {

#[derive(Debug, Clone, Copy, PartialEq, Eq, Structural)]
pub enum Screen {
    Home,
    Actions(usize),
    Menu(usize),
    Game,
    Assistant,
    Pomo(usize),
}

/// Index-aligned with the action labels and `ACTION_GLYPHS`.
#[derive(Debug, Clone, Copy, PartialEq, Eq, Structural)]
pub enum Action {
    Feed,
    Play,
    Sleep,
    Bath,
    Game,
    Assistant,
    Pomo,
    Zen,
    Switch,
}

pub const ACTIONS_ALL: [Action; 9] = [
    Action::Feed,
    Action::Play,
    Action::Sleep,
    Action::Bath,
    Action::Game,
    Action::Assistant,
    Action::Pomo,
    Action::Zen,
    Action::Switch,
];

/// Zen mode hides what would touch the pet's needs.
pub const ACTIONS_ZEN: [Action; 4] = [Action::Assistant, Action::Pomo, Action::Zen, Action::Switch];

/// Index-aligned with `ACTIONS_ALL` and the action labels.
pub const ACTION_GLYPHS: [&'static str; 9] = [
    "\\∴/",
    "(o)",
    "z Z",
    "oOo",
    "1v1",
    "(!)",
    "(*)",
    "-_-",
    "<=>",
];

/// Index-aligned with the foods and their names.
pub const FOOD_ICONS: [&'static str; 4] = ["\\∴/", "<><", "(@)", "\\_/"];

/// An action's position in the menu (and in its label table).
pub open spec fn action_ix(a: Action) -> int {
    match a {
        Action::Feed => 0,
        Action::Play => 1,
        Action::Sleep => 2,
        Action::Bath => 3,
        Action::Game => 4,
        Action::Assistant => 5,
        Action::Pomo => 6,
        Action::Zen => 7,
        Action::Switch => 8,
    }
}

/// An action's position in the menu.
pub fn action_index(a: Action) -> (i: usize)
    ensures
        i == action_ix(a),
        i < 9,
{
    match a {
        Action::Feed => 0,
        Action::Play => 1,
        Action::Sleep => 2,
        Action::Bath => 3,
        Action::Game => 4,
        Action::Assistant => 5,
        Action::Pomo => 6,
        Action::Zen => 7,
        Action::Switch => 8,
    }
}

/// The actions the menu offers.
pub fn actions_for(zen: bool) -> (r: &'static [Action])
    ensures
        r@ == if zen {
            ACTIONS_ZEN@
        } else {
            ACTIONS_ALL@
        },
{
    if zen {
        &ACTIONS_ZEN
    } else {
        &ACTIONS_ALL
    }
}

/// A key press, as far as the app cares.
#[derive(Debug, Clone, Copy, PartialEq, Eq, Structural)]
pub enum Key {
    Left,
    Right,
    Up,
    Down,
    Enter,
    /// Enter with Alt held: a line break in a typed answer.
    AltEnter,
    Esc,
    Backspace,
    Char(char),
    Other,
}

/// A key as a screen without a text field reads it: Alt+Enter is Enter.
pub open spec fn enter_key(k: Key) -> Key {
    if k == Key::AltEnter {
        Key::Enter
    } else {
        k
    }
}

pub fn as_enter(k: Key) -> (r: Key)
    ensures
        r == enter_key(k),
{
    if k == Key::AltEnter {
        Key::Enter
    } else {
        k
    }
}

/// Grid navigation for the species picker: left and right (`h`, `l`) wrap
/// through the whole list, up and down (`k`, `j`) move a row and stop at
/// the edges.
pub open spec fn grid_next(idx: int, len: int, cols: int, code: Key) -> int {
    if code == Key::Left || code == Key::Char('h') {
        (idx + len - 1) % len
    } else if code == Key::Right || code == Key::Char('l') {
        (idx + 1) % len
    } else if (code == Key::Up || code == Key::Char('k')) && idx >= cols {
        idx - cols
    } else if (code == Key::Down || code == Key::Char('j')) && idx + cols < len {
        idx + cols
    } else {
        idx
    }
}

pub fn grid_step(idx: usize, len: usize, cols: usize, code: Key) -> (r: usize)
    requires
        len > 0,
        idx + len <= usize::MAX,
        idx + cols <= usize::MAX,
    ensures
        r == grid_next(idx as int, len as int, cols as int, code),
{
    let up = code == Key::Up || code == Key::Char('k');
    let down = code == Key::Down || code == Key::Char('j');
    if code == Key::Left || code == Key::Char('h') {
        (idx + len - 1) % len
    } else if code == Key::Right || code == Key::Char('l') {
        (idx + 1) % len
    } else if up && idx >= cols {
        idx - cols
    } else if down && idx + cols < len {
        idx + cols
    } else {
        idx
    }
}

/// The menu tables line up: every action sits at its own index, and zen
/// mode offers only actions the full menu has.
pub proof fn law_action_tables_aligned()
    ensures
        forall|i: int| 0 <= i < 9 ==> action_ix(#[trigger] ACTIONS_ALL@[i]) == i,
        forall|i: int|
            0 <= i < 4 ==> ACTIONS_ALL@[action_ix(#[trigger] ACTIONS_ZEN@[i])] == ACTIONS_ZEN@[i],
{
}

/// Navigation never leaves the grid: from a cell of a grid of `len` cells
/// every key lands on a cell.
pub proof fn law_grid_stays_inside(idx: int, len: int, cols: int, code: Key)
    requires
        0 <= idx < len,
        cols >= 0,
    ensures
        0 <= grid_next(idx, len, cols, code) < len,
{
}

} // verus!
