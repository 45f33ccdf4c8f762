//! The mode controller: routes events to the active mode and carries out
//! mode switches.
//!
//! The application owns one instance of each mode — menu, game, leaderboard
//! — and exactly one of them is active at a time; switching is an update of
//! the active mark, never a structural move, so the mode count stays three
//! for the process lifetime. An event that switches modes falls through to
//! the newly active mode within the same call, as the screen it lands on
//! sees it. The main loop itself — the input thread, the tick clock, the
//! drawing — lives with the host; it feeds events through `handle_event`,
//! picks the tick's action with `select_game_action`, and stops on
//! `should_close`.

use crate::game::{initial_game, key_result, state_after_key, AppGameState, GameAction, GameActionModel, GameModel};
use crate::input::{Event, Key};
use crate::leaderboard::{
    board_wf, rank_insert, records_model, AppLeaderboardState, LeaderboardAction, Record,
    RecordModel,
};
use crate::menu::{menu_action_after_key, menu_after_key, AppMenuState, MenuAction};
use vstd::prelude::*;

verus! {

/// Which mode owns the screen.
#[derive(Clone, Copy, PartialEq, Eq, Structural, Debug)]
pub enum ActiveMode {
    Menu,
    Game,
    Leaderboard,
}

/// What the main loop should do with one handled event.
#[derive(Clone, PartialEq, Debug)]
pub enum Action {
    DoNothing,
    CloseApp,
    UpdateGameState(GameAction),
}

/// The mathematical shape of an action.
#[verifier::ext_equal]
pub ghost enum ActionModel {
    DoNothing,
    CloseApp,
    Update(GameActionModel),
}

impl View for Action {
    type V = ActionModel;

    open spec fn view(&self) -> ActionModel {
        match self {
            Action::DoNothing => ActionModel::DoNothing,
            Action::CloseApp => ActionModel::CloseApp,
            Action::UpdateGameState(a) => ActionModel::Update(a@),
        }
    }
}

/// The mathematical shape of the whole application.
#[verifier::ext_equal]
pub ghost struct AppModel {
    pub menu: Option<usize>,
    pub game: GameModel,
    pub leaderboard: Seq<RecordModel>,
    pub active: ActiveMode,
}

/// The application: the three modes and the mark saying which one is
/// active.
pub struct App {
    pub menu: AppMenuState,
    pub game: AppGameState,
    pub leaderboard: AppLeaderboardState,
    pub active: ActiveMode,
}

impl View for App {
    type V = AppModel;

    open spec fn view(&self) -> AppModel {
        AppModel {
            menu: self.menu@,
            game: self.game@,
            leaderboard: self.leaderboard@,
            active: self.active,
        }
    }
}

impl AppModel {
    /// Every mode is well formed.
    pub open spec fn wf(self) -> bool {
        &&& match self.menu {
            Option::Some(i) => i <= 2,
            Option::None => true,
        }
        &&& self.game.wf()
        &&& board_wf(self.leaderboard)
    }
}

/// The menu's part of one event: the updated model and whether the
/// application closes. A confirmed switch only moves the active mark; the
/// event then falls through to the new mode.
pub open spec fn menu_phase(m: AppModel, e: Event) -> (AppModel, bool) {
    if m.active != ActiveMode::Menu {
        (m, false)
    } else {
        match e {
            Event::Key(k) => {
                let m1 = AppModel { menu: menu_after_key(m.menu, k), ..m };
                match menu_action_after_key(m.menu, k) {
                    MenuAction::SwitchToExit => (m1, true),
                    MenuAction::SwitchToGame => (AppModel { active: ActiveMode::Game, ..m1 }, false),
                    MenuAction::SwitchToLeaderboard => (
                        AppModel { active: ActiveMode::Leaderboard, ..m1 },
                        false,
                    ),
                    MenuAction::DoNothing => (m1, false),
                }
            },
            Event::Other => (m, false),
        }
    }
}

/// The game's part of one event, entered when the game is active after the
/// menu phase. A finished game's return to the menu resets the game, ranks
/// the nickname and score into the leaderboard, and hands the menu the
/// screen; the action — the finished game's included — is reported back to
/// the main loop.
pub open spec fn game_phase(m: AppModel, e: Event) -> (AppModel, ActionModel) {
    let a = match e {
        Event::Key(k) => key_result(m.game, k),
        Event::Other => GameActionModel::DoNothing,
    };
    let g = match e {
        Event::Key(k) => state_after_key(m.game, k),
        Event::Other => m.game,
    };
    match a {
        GameActionModel::ReturnToMenu(name, score) => (
            AppModel {
                game: initial_game(),
                leaderboard: rank_insert(m.leaderboard, name, score),
                active: ActiveMode::Menu,
                ..m
            },
            ActionModel::Update(a),
        ),
        _ => (AppModel { game: g, ..m }, ActionModel::Update(a)),
    }
}

/// The leaderboard's part of one event, entered when the leaderboard is
/// active after the earlier phases: `q` returns to the menu.
pub open spec fn leaderboard_phase(m: AppModel, e: Event) -> AppModel {
    if m.active != ActiveMode::Leaderboard {
        m
    } else {
        match e {
            Event::Key(k) => {
                if k.is_press && k.code == Key::Char('q') {
                    AppModel { active: ActiveMode::Menu, ..m }
                } else {
                    m
                }
            },
            Event::Other => m,
        }
    }
}

/// One event, routed through the three phases in order.
pub open spec fn handle_event_spec(m: AppModel, e: Event) -> (AppModel, ActionModel) {
    let (m1, closed) = menu_phase(m, e);
    if closed {
        (m1, ActionModel::CloseApp)
    } else if m1.active == ActiveMode::Game {
        game_phase(m1, e)
    } else {
        (leaderboard_phase(m1, e), ActionModel::DoNothing)
    }
}

/// The most recent game action among handled actions, idle ones ignored:
/// the action a due tick runs with.
pub open spec fn last_real_action(s: Seq<Action>) -> Option<GameAction>
    decreases s.len(),
{
    if s.len() == 0 {
        Option::None
    } else {
        match s.last() {
            Action::UpdateGameState(a) => if a is DoNothing {
                last_real_action(s.drop_last())
            } else {
                Option::Some(a)
            },
            _ => last_real_action(s.drop_last()),
        }
    }
}

/// Picks the action a due tick should run with out of one tick interval's
/// handled actions — the most recent game action that asks for something,
/// ready to feed to the engine (empty when there is none) — and discards
/// the rest of the queue.
pub fn select_game_action(actions: &mut Vec<Action>) -> (r: Vec<GameAction>)
    ensures
        final(actions)@ == Seq::<Action>::empty(),
        r@ == (match last_real_action(old(actions)@) {
            Option::Some(a) => seq![a],
            Option::None => Seq::<GameAction>::empty(),
        }),
{
    let mut out: Vec<GameAction> = Vec::new();
    loop
        invariant
            out@.len() <= 1,
            out@.len() == 0 ==> last_real_action(actions@) == last_real_action(old(actions)@),
            out@.len() == 1 ==> Option::Some(out@[0]) == last_real_action(old(actions)@),
        decreases actions@.len(),
    {
        let ghost vpre = actions@;
        match actions.pop() {
            None => {
                proof {
                    assert(actions@ =~= Seq::<Action>::empty());
                    if out@.len() == 0 {
                        assert(out@ =~= Seq::<GameAction>::empty());
                    } else {
                        assert(out@ =~= seq![out@[0]]);
                    }
                }
                return out;
            },
            Some(a) => {
                match a {
                    Action::UpdateGameState(ga) => {
                        match ga {
                            GameAction::DoNothing => {},
                            _ => {
                                if out.len() == 0 {
                                    let ghost gval = ga;
                                    proof {
                                        assert(vpre.last() == Action::UpdateGameState(gval));
                                        assert(last_real_action(vpre) == Option::Some(gval));
                                    }
                                    out.push(ga);
                                }
                            },
                        }
                    },
                    _ => {},
                }
            },
        }
    }
}

/// Whether any handled action of this iteration asks to close the
/// application.
pub fn should_close(actions: &Vec<Action>) -> (r: bool)
    ensures
        r == exists|i: int| 0 <= i < actions@.len() && actions@[i] is CloseApp,
{
    let n = actions.len();
    let mut i: usize = 0;
    while i < n
        invariant
            n == actions@.len(),
            0 <= i <= n,
            forall|j: int| 0 <= j < i ==> !(actions@[j] is CloseApp),
        decreases n - i,
    {
        match &actions[i] {
            Action::CloseApp => {
                return true;
            },
            _ => {},
        }
        i = i + 1;
    }
    false
}

impl App {
    /// A fresh application: all three modes in their starting state, the
    /// menu active, and the leaderboard taken over from the host's reserved
    /// section.
    pub fn new(initial: Vec<Record>) -> (s: App)
        requires
            board_wf(records_model(initial@)),
        ensures
            s@.wf(),
            s@.active == ActiveMode::Menu,
            s@.menu is None,
            s@.game == initial_game(),
            s@.leaderboard == records_model(initial@),
    {
        App {
            menu: AppMenuState::new(),
            game: AppGameState::new(),
            leaderboard: AppLeaderboardState::new(initial),
            active: ActiveMode::Menu,
        }
    }

    /// Routes one event: the active mode handles it, a confirmed menu
    /// switch hands the screen over and lets the same event fall through to
    /// the new mode, and a finished game's return ranks its score and
    /// resets it.
    pub fn handle_event(&mut self, event: Event) -> (r: Action)
        requires
            old(self)@.wf(),
        ensures
            final(self)@.wf(),
            final(self)@ == handle_event_spec(old(self)@, event).0,
            r@ == handle_event_spec(old(self)@, event).1,
    {
        let ghost m0 = self@;
        if self.active == ActiveMode::Menu {
            match event {
                Event::Key(key) => {
                    let action = self.menu.handle_key_press(key);
                    match action {
                        MenuAction::SwitchToExit => {
                            assert(self@ =~= menu_phase(m0, event).0);
                            return Action::CloseApp;
                        },
                        MenuAction::SwitchToGame => {
                            self.active = ActiveMode::Game;
                        },
                        MenuAction::SwitchToLeaderboard => {
                            self.active = ActiveMode::Leaderboard;
                        },
                        MenuAction::DoNothing => {},
                    }
                },
                Event::Other => {},
            }
        }
        proof {
            assert(self@ =~= menu_phase(m0, event).0);
            assert(!menu_phase(m0, event).1);
        }
        let ghost m1 = self@;
        if self.active == ActiveMode::Game {
            let mut action = GameAction::DoNothing;
            match event {
                Event::Key(key) => {
                    action = self.game.handle_key_press(key);
                },
                Event::Other => {},
            }
            match &action {
                GameAction::ReturnToMenu(name, score) => {
                    self.game = AppGameState::new();
                    self.leaderboard.update_board(name, *score);
                    self.active = ActiveMode::Menu;
                },
                _ => {},
            }
            proof {
                assert(self@ =~= game_phase(m1, event).0);
                assert(action@ == game_phase(m1, event).1->Update_0);
            }
            return Action::UpdateGameState(action);
        }
        if self.active == ActiveMode::Leaderboard {
            match event {
                Event::Key(key) => {
                    let action = self.leaderboard.handle_key_press(key);
                    match action {
                        LeaderboardAction::ReturnToMenu => {
                            self.active = ActiveMode::Menu;
                        },
                        LeaderboardAction::DoNothing => {},
                    }
                },
                Event::Other => {},
            }
        }
        proof {
            assert(self@ =~= leaderboard_phase(m1, event));
        }
        Action::DoNothing
    }
}

} // verus!
