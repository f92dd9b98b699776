//! Menu decision logic: given the player's pending keystroke and the menu's
//! current state, what does each menu do next?  Drawing is left to the
//! caller; these functions carry the selection rules, so the rules are what
//! gets verified.

use vstd::prelude::*;

verus! {

/// The keys the menus react to.
#[derive(Clone, Copy, PartialEq, Eq, Structural, Debug)]
pub enum MenuKey {
    Up,
    Down,
    Left,
    Right,
    Enter,
    Escape,
    Char(char),
    Other,
}

/// What the cheat menu decided.
#[derive(Clone, Copy, PartialEq, Eq, Structural, Debug)]
pub enum CheatMenuResult {
    NoResponse,
    Cancel,
    TeleportToExit,
    Heal,
    Reveal,
    GodMode,
    LearnSpells,
    AllItems,
}

/// The cheat menu's decision table: closed menus cancel at once; otherwise
/// each hotkey maps to its cheat, escape cancels, anything else waits.
pub open spec fn cheat_menu_spec(allowed: bool, key: Option<MenuKey>) -> CheatMenuResult {
    if !allowed {
        CheatMenuResult::Cancel
    } else {
        match key {
            Option::None => CheatMenuResult::NoResponse,
            Option::Some(k) => match k {
                MenuKey::Char(c) => if c == 't' {
                    CheatMenuResult::TeleportToExit
                } else if c == 'h' {
                    CheatMenuResult::Heal
                } else if c == 'r' {
                    CheatMenuResult::Reveal
                } else if c == 'g' {
                    CheatMenuResult::GodMode
                } else if c == 's' {
                    CheatMenuResult::LearnSpells
                } else if c == 'i' {
                    CheatMenuResult::AllItems
                } else {
                    CheatMenuResult::NoResponse
                },
                MenuKey::Escape => CheatMenuResult::Cancel,
                _ => CheatMenuResult::NoResponse,
            },
        }
    }
}

/// Decides the cheat menu's response to a keystroke.  When the cheat menu
/// is not allowed by the game options it cancels immediately.
pub fn show_cheat_mode(allowed: bool, key: Option<MenuKey>) -> (r: CheatMenuResult)
    ensures
        r == cheat_menu_spec(allowed, key),
{
    if !allowed {
        return CheatMenuResult::Cancel;
    }
    match key {
        None => CheatMenuResult::NoResponse,
        Some(k) => match k {
            MenuKey::Char(c) => {
                if c == 't' {
                    CheatMenuResult::TeleportToExit
                } else if c == 'h' {
                    CheatMenuResult::Heal
                } else if c == 'r' {
                    CheatMenuResult::Reveal
                } else if c == 'g' {
                    CheatMenuResult::GodMode
                } else if c == 's' {
                    CheatMenuResult::LearnSpells
                } else if c == 'i' {
                    CheatMenuResult::AllItems
                } else {
                    CheatMenuResult::NoResponse
                }
            },
            MenuKey::Escape => CheatMenuResult::Cancel,
            _ => CheatMenuResult::NoResponse,
        },
    }
}

/// What the game-over screen decided.
#[derive(Clone, Copy, PartialEq, Eq, Structural, Debug)]
pub enum GameOverResult {
    NoSelection,
    QuitToMenu,
}

/// The game-over screen waits for any key, then returns to the menu.
pub fn game_over(key_pressed: bool) -> (r: GameOverResult)
    ensures
        r == (if key_pressed {
            GameOverResult::QuitToMenu
        } else {
            GameOverResult::NoSelection
        }),
{
    if key_pressed {
        GameOverResult::QuitToMenu
    } else {
        GameOverResult::NoSelection
    }
}

/// One entry of the main menu.
#[derive(Clone, Copy, PartialEq, Eq, Structural, Debug)]
pub enum MainMenuSelection {
    NewGame,
    LoadGame,
    SaveGame,
    Options,
    Quit,
}

/// The main menu's decision: either still browsing or an entry chosen.
#[derive(Clone, Copy, PartialEq, Eq, Structural, Debug)]
pub enum MainMenuResult {
    NoSelection { selected: MainMenuSelection },
    Selected { selected: MainMenuSelection },
}

/// An entry the menu may legitimately rest on: loading needs a save file,
/// saving needs a game in progress.
pub open spec fn main_menu_entry_offered(
    s: MainMenuSelection,
    save_exists: bool,
    in_progress: bool,
) -> bool {
    &&& (s == MainMenuSelection::LoadGame ==> save_exists)
    &&& (s == MainMenuSelection::SaveGame ==> in_progress)
}

/// Where the cursor lands after one step up, skipping entries that are not
/// offered.
pub open spec fn main_menu_up(
    s: MainMenuSelection,
    save_exists: bool,
    in_progress: bool,
) -> MainMenuSelection {
    let raw = match s {
        MainMenuSelection::NewGame => MainMenuSelection::Quit,
        MainMenuSelection::LoadGame => MainMenuSelection::NewGame,
        MainMenuSelection::SaveGame => MainMenuSelection::LoadGame,
        MainMenuSelection::Options => MainMenuSelection::SaveGame,
        MainMenuSelection::Quit => MainMenuSelection::Options,
    };
    let skip_save = if raw == MainMenuSelection::SaveGame && !in_progress {
        MainMenuSelection::LoadGame
    } else {
        raw
    };
    if skip_save == MainMenuSelection::LoadGame && !save_exists {
        MainMenuSelection::NewGame
    } else {
        skip_save
    }
}

/// Where the cursor lands after one step down, skipping entries that are
/// not offered.
pub open spec fn main_menu_down(
    s: MainMenuSelection,
    save_exists: bool,
    in_progress: bool,
) -> MainMenuSelection {
    let raw = match s {
        MainMenuSelection::NewGame => MainMenuSelection::LoadGame,
        MainMenuSelection::LoadGame => MainMenuSelection::SaveGame,
        MainMenuSelection::SaveGame => MainMenuSelection::Options,
        MainMenuSelection::Options => MainMenuSelection::Quit,
        MainMenuSelection::Quit => MainMenuSelection::NewGame,
    };
    let skip_load = if raw == MainMenuSelection::LoadGame && !save_exists {
        MainMenuSelection::SaveGame
    } else {
        raw
    };
    if skip_load == MainMenuSelection::SaveGame && !in_progress {
        MainMenuSelection::Options
    } else {
        skip_load
    }
}

/// The main menu's decision table.
pub open spec fn main_menu_spec(
    selection: MainMenuSelection,
    key: Option<MenuKey>,
    save_exists: bool,
    in_progress: bool,
) -> MainMenuResult {
    match key {
        Option::None => MainMenuResult::NoSelection { selected: selection },
        Option::Some(k) => match k {
            MenuKey::Escape => MainMenuResult::NoSelection { selected: MainMenuSelection::Quit },
            MenuKey::Up => MainMenuResult::NoSelection {
                selected: main_menu_up(selection, save_exists, in_progress),
            },
            MenuKey::Down => MainMenuResult::NoSelection {
                selected: main_menu_down(selection, save_exists, in_progress),
            },
            MenuKey::Enter => MainMenuResult::Selected { selected: selection },
            _ => MainMenuResult::NoSelection { selected: selection },
        },
    }
}

/// Decides the main menu's response to a keystroke.  Stepping up or down
/// always lands on an offered entry: never load-game without a save file,
/// never save-game without a game in progress.
pub fn main_menu(
    selection: MainMenuSelection,
    key: Option<MenuKey>,
    save_exists: bool,
    in_progress: bool,
) -> (r: MainMenuResult)
    ensures
        r == main_menu_spec(selection, key, save_exists, in_progress),
        (key == Option::Some(MenuKey::Up) || key == Option::Some(MenuKey::Down)) ==> match r {
            MainMenuResult::NoSelection { selected } => main_menu_entry_offered(
                selected,
                save_exists,
                in_progress,
            ),
            MainMenuResult::Selected { selected } => true,
        },
{
    match key {
        None => MainMenuResult::NoSelection { selected: selection },
        Some(k) => match k {
            MenuKey::Escape => MainMenuResult::NoSelection { selected: MainMenuSelection::Quit },
            MenuKey::Up => {
                let mut newselection = match selection {
                    MainMenuSelection::NewGame => MainMenuSelection::Quit,
                    MainMenuSelection::LoadGame => MainMenuSelection::NewGame,
                    MainMenuSelection::SaveGame => MainMenuSelection::LoadGame,
                    MainMenuSelection::Options => MainMenuSelection::SaveGame,
                    MainMenuSelection::Quit => MainMenuSelection::Options,
                };
                if newselection == MainMenuSelection::SaveGame && !in_progress {
                    newselection = MainMenuSelection::LoadGame;
                }
                if newselection == MainMenuSelection::LoadGame && !save_exists {
                    newselection = MainMenuSelection::NewGame;
                }
                MainMenuResult::NoSelection { selected: newselection }
            },
            MenuKey::Down => {
                let mut newselection = match selection {
                    MainMenuSelection::NewGame => MainMenuSelection::LoadGame,
                    MainMenuSelection::LoadGame => MainMenuSelection::SaveGame,
                    MainMenuSelection::SaveGame => MainMenuSelection::Options,
                    MainMenuSelection::Options => MainMenuSelection::Quit,
                    MainMenuSelection::Quit => MainMenuSelection::NewGame,
                };
                if newselection == MainMenuSelection::LoadGame && !save_exists {
                    newselection = MainMenuSelection::SaveGame;
                }
                if newselection == MainMenuSelection::SaveGame && !in_progress {
                    newselection = MainMenuSelection::Options;
                }
                MainMenuResult::NoSelection { selected: newselection }
            },
            MenuKey::Enter => MainMenuResult::Selected { selected: selection },
            _ => MainMenuResult::NoSelection { selected: selection },
        },
    }
}

/// A requested volume adjustment.
#[derive(Clone, Copy, PartialEq, Eq, Structural, Debug)]
pub enum VolumeChange {
    Increase,
    Decrease,
    Unchanged,
}

/// One entry of the options menu.
#[derive(Clone, Copy, PartialEq, Eq, Structural, Debug)]
pub enum OptionsMenuSelection {
    ToggleFps,
    ToggleMapVisualizer,
    ToggleCheatMenu,
    BackgroundVolume { change: VolumeChange },
    EffectsVolume { change: VolumeChange },
    Quit,
}

/// The options menu's decision: still browsing, or an entry activated.
#[derive(Clone, Copy, PartialEq, Eq, Structural, Debug)]
pub enum OptionsMenuResult {
    NoSelection { selected: OptionsMenuSelection },
    Selected { selected: OptionsMenuSelection },
}

/// The entry above the given one, wrapping at the top.
pub open spec fn options_menu_up(s: OptionsMenuSelection) -> OptionsMenuSelection {
    match s {
        OptionsMenuSelection::ToggleFps => OptionsMenuSelection::Quit,
        OptionsMenuSelection::ToggleMapVisualizer => OptionsMenuSelection::ToggleFps,
        OptionsMenuSelection::ToggleCheatMenu => OptionsMenuSelection::ToggleMapVisualizer,
        OptionsMenuSelection::BackgroundVolume { .. } => OptionsMenuSelection::ToggleCheatMenu,
        OptionsMenuSelection::EffectsVolume { .. } => OptionsMenuSelection::BackgroundVolume {
            change: VolumeChange::Unchanged,
        },
        OptionsMenuSelection::Quit => OptionsMenuSelection::EffectsVolume {
            change: VolumeChange::Unchanged,
        },
    }
}

/// The entry below the given one, wrapping at the bottom.
pub open spec fn options_menu_down(s: OptionsMenuSelection) -> OptionsMenuSelection {
    match s {
        OptionsMenuSelection::ToggleFps => OptionsMenuSelection::ToggleMapVisualizer,
        OptionsMenuSelection::ToggleMapVisualizer => OptionsMenuSelection::ToggleCheatMenu,
        OptionsMenuSelection::ToggleCheatMenu => OptionsMenuSelection::BackgroundVolume {
            change: VolumeChange::Unchanged,
        },
        OptionsMenuSelection::BackgroundVolume { .. } => OptionsMenuSelection::EffectsVolume {
            change: VolumeChange::Unchanged,
        },
        OptionsMenuSelection::EffectsVolume { .. } => OptionsMenuSelection::Quit,
        OptionsMenuSelection::Quit => OptionsMenuSelection::ToggleFps,
    }
}

/// The options menu's decision table: up and down move the cursor, left and
/// right adjust a volume entry, enter activates, escape backs out.
pub open spec fn options_menu_spec(
    selection: OptionsMenuSelection,
    key: Option<MenuKey>,
) -> OptionsMenuResult {
    match key {
        Option::None => OptionsMenuResult::NoSelection { selected: selection },
        Option::Some(k) => match k {
            MenuKey::Escape => OptionsMenuResult::NoSelection {
                selected: OptionsMenuSelection::Quit,
            },
            MenuKey::Up => OptionsMenuResult::NoSelection { selected: options_menu_up(selection) },
            MenuKey::Down => OptionsMenuResult::NoSelection {
                selected: options_menu_down(selection),
            },
            MenuKey::Left => match selection {
                OptionsMenuSelection::BackgroundVolume { .. } => OptionsMenuResult::Selected {
                    selected: OptionsMenuSelection::BackgroundVolume {
                        change: VolumeChange::Decrease,
                    },
                },
                OptionsMenuSelection::EffectsVolume { .. } => OptionsMenuResult::Selected {
                    selected: OptionsMenuSelection::EffectsVolume {
                        change: VolumeChange::Decrease,
                    },
                },
                _ => OptionsMenuResult::NoSelection { selected: selection },
            },
            MenuKey::Right => match selection {
                OptionsMenuSelection::BackgroundVolume { .. } => OptionsMenuResult::Selected {
                    selected: OptionsMenuSelection::BackgroundVolume {
                        change: VolumeChange::Increase,
                    },
                },
                OptionsMenuSelection::EffectsVolume { .. } => OptionsMenuResult::Selected {
                    selected: OptionsMenuSelection::EffectsVolume {
                        change: VolumeChange::Increase,
                    },
                },
                _ => OptionsMenuResult::NoSelection { selected: selection },
            },
            MenuKey::Enter => OptionsMenuResult::Selected { selected: selection },
            _ => OptionsMenuResult::NoSelection { selected: selection },
        },
    }
}

/// Decides the options menu's response to a keystroke.
pub fn options_menu(selection: OptionsMenuSelection, key: Option<MenuKey>) -> (r:
    OptionsMenuResult)
    ensures
        r == options_menu_spec(selection, key),
{
    match key {
        None => OptionsMenuResult::NoSelection { selected: selection },
        Some(k) => match k {
            MenuKey::Escape => OptionsMenuResult::NoSelection {
                selected: OptionsMenuSelection::Quit,
            },
            MenuKey::Up => {
                let newselection = match selection {
                    OptionsMenuSelection::ToggleFps => OptionsMenuSelection::Quit,
                    OptionsMenuSelection::ToggleMapVisualizer => OptionsMenuSelection::ToggleFps,
                    OptionsMenuSelection::ToggleCheatMenu => OptionsMenuSelection::ToggleMapVisualizer,
                    OptionsMenuSelection::BackgroundVolume { .. } => OptionsMenuSelection::ToggleCheatMenu,
                    OptionsMenuSelection::EffectsVolume { .. } => OptionsMenuSelection::BackgroundVolume {
                        change: VolumeChange::Unchanged,
                    },
                    OptionsMenuSelection::Quit => OptionsMenuSelection::EffectsVolume {
                        change: VolumeChange::Unchanged,
                    },
                };
                OptionsMenuResult::NoSelection { selected: newselection }
            },
            MenuKey::Down => {
                let newselection = match selection {
                    OptionsMenuSelection::ToggleFps => OptionsMenuSelection::ToggleMapVisualizer,
                    OptionsMenuSelection::ToggleMapVisualizer => OptionsMenuSelection::ToggleCheatMenu,
                    OptionsMenuSelection::ToggleCheatMenu => OptionsMenuSelection::BackgroundVolume {
                        change: VolumeChange::Unchanged,
                    },
                    OptionsMenuSelection::BackgroundVolume { .. } => OptionsMenuSelection::EffectsVolume {
                        change: VolumeChange::Unchanged,
                    },
                    OptionsMenuSelection::EffectsVolume { .. } => OptionsMenuSelection::Quit,
                    OptionsMenuSelection::Quit => OptionsMenuSelection::ToggleFps,
                };
                OptionsMenuResult::NoSelection { selected: newselection }
            },
            MenuKey::Left => {
                match selection {
                    OptionsMenuSelection::BackgroundVolume { .. } => OptionsMenuResult::Selected {
                        selected: OptionsMenuSelection::BackgroundVolume {
                            change: VolumeChange::Decrease,
                        },
                    },
                    OptionsMenuSelection::EffectsVolume { .. } => OptionsMenuResult::Selected {
                        selected: OptionsMenuSelection::EffectsVolume {
                            change: VolumeChange::Decrease,
                        },
                    },
                    _ => OptionsMenuResult::NoSelection { selected: selection },
                }
            },
            MenuKey::Right => {
                match selection {
                    OptionsMenuSelection::BackgroundVolume { .. } => OptionsMenuResult::Selected {
                        selected: OptionsMenuSelection::BackgroundVolume {
                            change: VolumeChange::Increase,
                        },
                    },
                    OptionsMenuSelection::EffectsVolume { .. } => OptionsMenuResult::Selected {
                        selected: OptionsMenuSelection::EffectsVolume {
                            change: VolumeChange::Increase,
                        },
                    },
                    _ => OptionsMenuResult::NoSelection { selected: selection },
                }
            },
            MenuKey::Enter => OptionsMenuResult::Selected { selected: selection },
            _ => OptionsMenuResult::NoSelection { selected: selection },
        },
    }
}

} // verus!
