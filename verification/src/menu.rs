//! The main menu: three rows (new game, leaderboard, exit) and a moving
//! selection.
//!
//! Only the selection index is game state; the table widget that displays it
//! belongs to the terminal layer. The index mirrors what the renderer would
//! show: stepping past either end stays on the nearest row, and a selection
//! can only ever rest on one of the three rows.

use crate::input::{Key, KeyEvent};
use vstd::prelude::*;

verus! {

/// Which menu row is selected, by meaning rather than index.
#[derive(PartialEq)]
enum MenuState {
    Game,
    LeaderBoard,
    Exit,
    NothingSelected,
}

/// What a key press in the menu asks the mode controller to do.
#[derive(Clone, Copy, PartialEq, Eq, Structural, Debug)]
pub enum MenuAction {
    SwitchToGame,
    SwitchToLeaderboard,
    SwitchToExit,
    DoNothing,
}

/// The menu mode: nothing but the selected row (`None` until the player
/// first moves the selection).
pub struct AppMenuState {
    pub selected: Option<usize>,
}

impl View for AppMenuState {
    type V = Option<usize>;

    open spec fn view(&self) -> Option<usize> {
        self.selected
    }
}

/// The selection after a step down from `sel`: the next row, the first row
/// when nothing was selected, the last row when already there.
pub open spec fn selection_down(sel: Option<usize>) -> Option<usize> {
    match sel {
        Option::None => Option::Some(0usize),
        Option::Some(i) => if i >= 2 { Option::Some(2usize) } else { Option::Some((i + 1) as usize) },
    }
}

/// The selection after a step up from `sel`: the previous row, the last row
/// when nothing was selected, the first row when already there.
pub open spec fn selection_up(sel: Option<usize>) -> Option<usize> {
    match sel {
        Option::None => Option::Some(2usize),
        Option::Some(i) => if i == 0 { Option::Some(0usize) } else { Option::Some((i - 1) as usize) },
    }
}

/// The action a confirmed selection stands for.
pub open spec fn selection_action(sel: Option<usize>) -> MenuAction {
    match sel {
        Option::Some(0usize) => MenuAction::SwitchToGame,
        Option::Some(1usize) => MenuAction::SwitchToLeaderboard,
        Option::Some(2usize) => MenuAction::SwitchToExit,
        _ => MenuAction::DoNothing,
    }
}

/// The selection after one key event in the menu.
pub open spec fn menu_after_key(sel: Option<usize>, k: KeyEvent) -> Option<usize> {
    if !k.is_press {
        sel
    } else {
        match k.code {
            Key::Up => selection_up(sel),
            Key::Down => selection_down(sel),
            _ => sel,
        }
    }
}

/// The action one key event in the menu asks for: space confirms the
/// selection, everything else asks for nothing.
pub open spec fn menu_action_after_key(sel: Option<usize>, k: KeyEvent) -> MenuAction {
    if k.is_press && k.code == Key::Char(' ') {
        selection_action(sel)
    } else {
        MenuAction::DoNothing
    }
}

impl AppMenuState {
    /// A selection, if present, rests on one of the three rows.
    pub open spec fn wf(self) -> bool {
        match self.selected {
            Option::Some(i) => i <= 2,
            Option::None => true,
        }
    }

    /// A fresh menu: nothing selected yet.
    pub fn new() -> (s: AppMenuState)
        ensures
            s@ == Option::<usize>::None,
            s.wf(),
    {
        AppMenuState { selected: None }
    }

    /// Moves the selection one row down.
    fn next_row(&mut self)
        requires
            old(self).wf(),
        ensures
            final(self)@ == selection_down(old(self)@),
            final(self).wf(),
    {
        self.selected = match self.selected {
            None => Some(0),
            Some(i) => if i >= 2 { Some(2) } else { Some(i + 1) },
        };
    }

    /// Moves the selection one row up.
    fn previous_row(&mut self)
        requires
            old(self).wf(),
        ensures
            final(self)@ == selection_up(old(self)@),
            final(self).wf(),
    {
        self.selected = match self.selected {
            None => Some(2),
            Some(i) => if i == 0 { Some(0) } else { Some(i - 1) },
        };
    }

    /// Reads the selected row back as a menu state.
    fn get_current_state(&self) -> (s: MenuState)
        requires
            self.wf(),
        ensures
            s == (match self@ {
                Option::Some(0usize) => MenuState::Game,
                Option::Some(1usize) => MenuState::LeaderBoard,
                Option::Some(2usize) => MenuState::Exit,
                _ => MenuState::NothingSelected,
            }),
    {
        match self.selected {
            Some(0) => MenuState::Game,
            Some(1) => MenuState::LeaderBoard,
            Some(2) => MenuState::Exit,
            _ => MenuState::NothingSelected,
        }
    }

    /// Reacts to one key event: arrows move the selection, space confirms it,
    /// everything else (and anything that is not a press) does nothing.
    pub fn handle_key_press(&mut self, key: KeyEvent) -> (r: MenuAction)
        requires
            old(self).wf(),
        ensures
            final(self).wf(),
            final(self)@ == menu_after_key(old(self)@, key),
            r == menu_action_after_key(old(self)@, key),
    {
        if !key.is_press {
            return MenuAction::DoNothing;
        }
        match key.code {
            Key::Up => {
                self.previous_row();
                MenuAction::DoNothing
            },
            Key::Down => {
                self.next_row();
                MenuAction::DoNothing
            },
            Key::Char(c) => {
                if c == ' ' {
                    match self.get_current_state() {
                        MenuState::Exit => MenuAction::SwitchToExit,
                        MenuState::Game => MenuAction::SwitchToGame,
                        MenuState::LeaderBoard => MenuAction::SwitchToLeaderboard,
                        MenuState::NothingSelected => MenuAction::DoNothing,
                    }
                } else {
                    MenuAction::DoNothing
                }
            },
            _ => MenuAction::DoNothing,
        }
    }
}

} // verus!
