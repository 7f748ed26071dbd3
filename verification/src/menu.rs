//! The menus and screens of the game as a state machine: what each screen
//! makes of a key press, and which screen follows.

use crate::constants::SCREEN_HEIGHT;
use crate::keys::Key;
use crate::options::Options;
use vstd::prelude::*;

verus! {

#[derive(Debug, PartialEq, Eq, Clone, Copy, Structural)]
pub enum MainMenuSelection {
    Play,
    Quit,
}

#[derive(Debug, PartialEq, Eq, Clone, Copy, Structural)]
pub enum MainMenuResult {
    NoSelection { selection: MainMenuSelection },
    Selection { selection: MainMenuSelection },
}

#[derive(Debug, PartialEq, Eq, Clone, Copy, Structural)]
pub enum GameOverResult {
    NoSelection,
    ReturnToMain,
}

#[derive(Debug, PartialEq, Eq, Clone, Copy, Structural)]
pub enum PauseMenuSelection {
    Return,
    Quit,
}

#[derive(Debug, PartialEq, Eq, Clone, Copy, Structural)]
pub enum PauseMenuResult {
    NoSelection { selection: PauseMenuSelection },
    Selection { selection: PauseMenuSelection },
}

#[derive(Debug, PartialEq, Eq, Clone, Copy, Structural)]
pub enum ViewLogResult {
    Stay(usize),
    Up(usize),
    Down(usize),
    Exit,
}

/// The screen that the game is on.
#[allow(inconsistent_fields)]
#[derive(Debug, PartialEq, Eq, Clone, Copy, Structural)]
pub enum RunState {
    MainMenu { selection: MainMenuSelection },
    AwaitingInput,
    Talking,
    Examining,
    Log { page: usize },
    Paused { selection: PauseMenuSelection },
    GameOver { result: GameOverResult },
}

/// What the player does in a conversation.
#[derive(Debug, PartialEq, Eq, Clone, Copy, Structural)]
pub enum TalkAction {
    /// Nothing yet.
    Wait,
    /// Says the line with this index.
    Say(usize),
    /// Walks away.
    Leave,
}

/// How many log lines one page of the log view shows.
pub const LOG_PAGE_LINES: usize = 27;

/// The other entry of the main menu.
pub open spec fn other_main_entry(selection: MainMenuSelection) -> MainMenuSelection {
    match selection {
        MainMenuSelection::Play => MainMenuSelection::Quit,
        MainMenuSelection::Quit => MainMenuSelection::Play,
    }
}

/// The other entry of the pause menu.
pub open spec fn other_pause_entry(selection: PauseMenuSelection) -> PauseMenuSelection {
    match selection {
        PauseMenuSelection::Return => PauseMenuSelection::Quit,
        PauseMenuSelection::Quit => PauseMenuSelection::Return,
    }
}

/// What the main menu makes of a key: up and down both move to the other
/// entry, return chooses the marked entry, anything else changes nothing.
pub fn main_menu_step(selection: MainMenuSelection, key: Option<Key>) -> (result: MainMenuResult)
    ensures
        result == match key {
            Some(Key::Up) | Some(Key::Down) => MainMenuResult::NoSelection {
                selection: other_main_entry(selection),
            },
            Some(Key::Return) => MainMenuResult::Selection { selection },
            _ => MainMenuResult::NoSelection { selection },
        },
{
    match key {
        Some(Key::Up) | Some(Key::Down) => {
            let newselection = match selection {
                MainMenuSelection::Play => MainMenuSelection::Quit,
                MainMenuSelection::Quit => MainMenuSelection::Play,
            };
            MainMenuResult::NoSelection { selection: newselection }
        },
        Some(Key::Return) => MainMenuResult::Selection { selection },
        _ => MainMenuResult::NoSelection { selection },
    }
}

/// What the pause menu makes of a key: up and down both move to the other
/// entry, return chooses the marked entry, anything else changes nothing.
pub fn pause_menu_step(selection: PauseMenuSelection, key: Option<Key>) -> (result: PauseMenuResult)
    ensures
        result == match key {
            Some(Key::Up) | Some(Key::Down) => PauseMenuResult::NoSelection {
                selection: other_pause_entry(selection),
            },
            Some(Key::Return) => PauseMenuResult::Selection { selection },
            _ => PauseMenuResult::NoSelection { selection },
        },
{
    match key {
        Some(Key::Up) | Some(Key::Down) => {
            let newselection = match selection {
                PauseMenuSelection::Return => PauseMenuSelection::Quit,
                PauseMenuSelection::Quit => PauseMenuSelection::Return,
            };
            PauseMenuResult::NoSelection { selection: newselection }
        },
        Some(Key::Return) => PauseMenuResult::Selection { selection },
        _ => PauseMenuResult::NoSelection { selection },
    }
}

/// What the closing screen makes of a key: any key leads back to the main
/// menu.
pub fn game_over_step(key: Option<Key>) -> (result: GameOverResult)
    ensures
        result == if key.is_some() {
            GameOverResult::ReturnToMain
        } else {
            GameOverResult::NoSelection
        },
{
    match key {
        None => GameOverResult::NoSelection,
        Some(_) => GameOverResult::ReturnToMain,
    }
}

/// Whether the log has lines beyond the given page.
pub open spec fn has_older_page(log_len: int, page: int) -> bool {
    log_len > (page + 1) * LOG_PAGE_LINES
}

/// What the log view makes of a key: up turns to the older page where the
/// log has one, down to the newer page where there is one, escape leaves.
pub fn view_log_step(page: usize, log_len: usize, key: Option<Key>) -> (result: ViewLogResult)
    ensures
        result == match key {
            Some(Key::Up) => ViewLogResult::Up(
                if has_older_page(log_len as int, page as int) {
                    (page + 1) as usize
                } else {
                    page
                },
            ),
            Some(Key::Down) => ViewLogResult::Down(
                if page > 0 {
                    (page - 1) as usize
                } else {
                    page
                },
            ),
            Some(Key::Escape) => ViewLogResult::Exit,
            _ => ViewLogResult::Stay(page),
        },
{
    match key {
        Some(Key::Up) => {
            let next_page: u128 = page as u128 + 1;
            let older = (log_len as u128) > next_page * 27;
            ViewLogResult::Up(
                if older {
                    page + 1
                } else {
                    page
                },
            )
        },
        Some(Key::Down) => ViewLogResult::Down(
            if page > 0 {
                page - 1
            } else {
                page
            },
        ),
        Some(Key::Escape) => ViewLogResult::Exit,
        _ => ViewLogResult::Stay(page),
    }
}

/// What a conversation makes of a key: the keys 1 and 2 say the first and
/// the second line, escape leaves.
pub fn talk_step(key: Option<Key>) -> (action: TalkAction)
    ensures
        action == match key {
            Some(Key::Key1) => TalkAction::Say(0),
            Some(Key::Key2) => TalkAction::Say(1),
            Some(Key::Escape) => TalkAction::Leave,
            _ => TalkAction::Wait,
        },
{
    match key {
        Some(Key::Key1) => TalkAction::Say(0),
        Some(Key::Key2) => TalkAction::Say(1),
        Some(Key::Escape) => TalkAction::Leave,
        _ => TalkAction::Wait,
    }
}

/// The screen after a conversation or an examination has handled a key: the
/// map again once the player has left, else the same screen.
pub fn after_panel(current: RunState, left: bool) -> (next: RunState)
    ensures
        next == if left {
            RunState::AwaitingInput
        } else {
            current
        },
{
    if left {
        RunState::AwaitingInput
    } else {
        current
    }
}

/// The screen after the main menu has handled a key.
pub fn after_main_menu(result: MainMenuResult) -> (next: RunState)
    ensures
        next == match result {
            MainMenuResult::NoSelection { selection } => RunState::MainMenu { selection },
            MainMenuResult::Selection { selection: MainMenuSelection::Play } => RunState::AwaitingInput,
            MainMenuResult::Selection { selection: MainMenuSelection::Quit } => RunState::GameOver {
                result: GameOverResult::NoSelection,
            },
        },
{
    match result {
        MainMenuResult::NoSelection { selection } => RunState::MainMenu { selection },
        MainMenuResult::Selection { selection } => match selection {
            MainMenuSelection::Play => RunState::AwaitingInput,
            MainMenuSelection::Quit => RunState::GameOver { result: GameOverResult::NoSelection },
        },
    }
}

/// The screen after the pause menu has handled a key.
pub fn after_pause_menu(result: PauseMenuResult) -> (next: RunState)
    ensures
        next == match result {
            PauseMenuResult::NoSelection { selection } => RunState::Paused { selection },
            PauseMenuResult::Selection { selection: PauseMenuSelection::Return } => RunState::AwaitingInput,
            PauseMenuResult::Selection { selection: PauseMenuSelection::Quit } => RunState::GameOver {
                result: GameOverResult::NoSelection,
            },
        },
{
    match result {
        PauseMenuResult::NoSelection { selection } => RunState::Paused { selection },
        PauseMenuResult::Selection { selection } => match selection {
            PauseMenuSelection::Return => RunState::AwaitingInput,
            PauseMenuSelection::Quit => RunState::GameOver { result: GameOverResult::NoSelection },
        },
    }
}

/// The screen after the log view has handled a key.
pub fn after_view_log(result: ViewLogResult) -> (next: RunState)
    ensures
        next == match result {
            ViewLogResult::Stay(page) | ViewLogResult::Up(page) | ViewLogResult::Down(page) => RunState::Log {
                page,
            },
            ViewLogResult::Exit => RunState::AwaitingInput,
        },
{
    match result {
        ViewLogResult::Stay(new_page) => RunState::Log { page: new_page },
        ViewLogResult::Up(new_page) => RunState::Log { page: new_page },
        ViewLogResult::Down(new_page) => RunState::Log { page: new_page },
        ViewLogResult::Exit => RunState::AwaitingInput,
    }
}

/// The screen after the closing screen has handled a key, and whether a new
/// game is to be set up on the way.
pub fn after_game_over(result: GameOverResult) -> (next: (RunState, bool))
    ensures
        next == match result {
            GameOverResult::NoSelection => (RunState::GameOver { result: GameOverResult::NoSelection }, false),
            GameOverResult::ReturnToMain => (
                RunState::MainMenu { selection: MainMenuSelection::Play },
                true,
            ),
        },
{
    match result {
        GameOverResult::NoSelection => (RunState::GameOver { result: GameOverResult::NoSelection }, false),
        GameOverResult::ReturnToMain => (
            RunState::MainMenu { selection: MainMenuSelection::Play },
            true,
        ),
    }
}

/// The step that an arrow key asks for.
pub open spec fn step_of(key: Key) -> Option<(i32, i32)> {
    match key {
        Key::Left => Some((-1i32, 0i32)),
        Key::Right => Some((1i32, 0i32)),
        Key::Up => Some((0i32, -1i32)),
        Key::Down => Some((0i32, 1i32)),
        _ => None,
    }
}

/// The screen that a key opens from the map: the keys P, L and T open theirs
/// where their action is open; every other key leaves the map on.
pub open spec fn screen_of(key: Key, open: Map<char, Seq<char>>) -> RunState {
    match key {
        Key::P if open.contains_key('P') => RunState::Paused { selection: PauseMenuSelection::Return },
        Key::L if open.contains_key('L') => RunState::Log { page: 0 },
        Key::T if open.contains_key('T') => RunState::Talking,
        _ => RunState::AwaitingInput,
    }
}

/// What the map makes of a key: an arrow key asks for a step of one cell,
/// and the keys P, L and T open the pause menu, the log and a conversation,
/// each where its action is open. Any other key changes nothing, whatever is
/// open.
pub fn input_step(key: Option<Key>, options: &Options) -> (next: (RunState, Option<(i32, i32)>))
    ensures
        next == match key {
            Some(pressed) => (screen_of(pressed, options@), step_of(pressed)),
            None => (RunState::AwaitingInput, None),
        },
{
    match key {
        None => (RunState::AwaitingInput, None),
        Some(Key::Left) => (RunState::AwaitingInput, Some((-1, 0))),
        Some(Key::Right) => (RunState::AwaitingInput, Some((1, 0))),
        Some(Key::Up) => (RunState::AwaitingInput, Some((0, -1))),
        Some(Key::Down) => (RunState::AwaitingInput, Some((0, 1))),
        Some(Key::P) => {
            if options.has_option('P') {
                (RunState::Paused { selection: PauseMenuSelection::Return }, None)
            } else {
                (RunState::AwaitingInput, None)
            }
        },
        Some(Key::L) => {
            if options.has_option('L') {
                (RunState::Log { page: 0 }, None)
            } else {
                (RunState::AwaitingInput, None)
            }
        },
        Some(Key::T) => {
            if options.has_option('T') {
                (RunState::Talking, None)
            } else {
                (RunState::AwaitingInput, None)
            }
        },
        Some(_) => (RunState::AwaitingInput, None),
    }
}

/// Whether a key starts an examination from the map: the key X does, where
/// the action under `X` is open. The map itself does not listen to that key.
pub fn examine_step(key: Option<Key>, options: &Options) -> (next: RunState)
    ensures
        next == if key == Some(Key::X) && options@.contains_key('X') {
            RunState::Examining
        } else {
            RunState::AwaitingInput
        },
{
    match key {
        Some(Key::X) => {
            if options.has_option('X') {
                RunState::Examining
            } else {
                RunState::AwaitingInput
            }
        },
        _ => RunState::AwaitingInput,
    }
}

/// The row of the log view on which the line with the given place on its
/// page is printed.
pub fn log_view_row(place: usize) -> (row: i32)
    requires
        place < LOG_PAGE_LINES,
    ensures
        row == SCREEN_HEIGHT - 5 - 2 * place,
{
    SCREEN_HEIGHT - 5 - 2 * (place as i32)
}

} // verus!
