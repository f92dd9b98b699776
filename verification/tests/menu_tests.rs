use mapgen::menu::{
    game_over, main_menu, options_menu, show_cheat_mode, CheatMenuResult, GameOverResult,
    MainMenuResult, MainMenuSelection, MenuKey, OptionsMenuResult, OptionsMenuSelection,
    VolumeChange,
};

#[test]
fn cheat_menu_maps_hotkeys() {
    assert_eq!(show_cheat_mode(true, Some(MenuKey::Char('t'))), CheatMenuResult::TeleportToExit);
    assert_eq!(show_cheat_mode(true, Some(MenuKey::Char('h'))), CheatMenuResult::Heal);
    assert_eq!(show_cheat_mode(true, Some(MenuKey::Char('r'))), CheatMenuResult::Reveal);
    assert_eq!(show_cheat_mode(true, Some(MenuKey::Char('g'))), CheatMenuResult::GodMode);
    assert_eq!(show_cheat_mode(true, Some(MenuKey::Char('s'))), CheatMenuResult::LearnSpells);
    assert_eq!(show_cheat_mode(true, Some(MenuKey::Char('i'))), CheatMenuResult::AllItems);
    assert_eq!(show_cheat_mode(true, Some(MenuKey::Escape)), CheatMenuResult::Cancel);
    assert_eq!(show_cheat_mode(true, Some(MenuKey::Char('z'))), CheatMenuResult::NoResponse);
    assert_eq!(show_cheat_mode(true, None), CheatMenuResult::NoResponse);
}

#[test]
fn cheat_menu_disallowed_always_cancels() {
    assert_eq!(show_cheat_mode(false, Some(MenuKey::Char('t'))), CheatMenuResult::Cancel);
    assert_eq!(show_cheat_mode(false, None), CheatMenuResult::Cancel);
}

#[test]
fn game_over_waits_for_a_key() {
    assert_eq!(game_over(false), GameOverResult::NoSelection);
    assert_eq!(game_over(true), GameOverResult::QuitToMenu);
}

#[test]
fn main_menu_down_skips_missing_entries() {
    // no save file and no game in progress: down from new-game lands on options
    let r = main_menu(MainMenuSelection::NewGame, Some(MenuKey::Down), false, false);
    assert_eq!(r, MainMenuResult::NoSelection { selected: MainMenuSelection::Options });
    // with a save file: down from new-game lands on load-game
    let r = main_menu(MainMenuSelection::NewGame, Some(MenuKey::Down), true, false);
    assert_eq!(r, MainMenuResult::NoSelection { selected: MainMenuSelection::LoadGame });
    // with a game in progress but no save: load-game is skipped to save-game
    let r = main_menu(MainMenuSelection::NewGame, Some(MenuKey::Down), false, true);
    assert_eq!(r, MainMenuResult::NoSelection { selected: MainMenuSelection::SaveGame });
}

#[test]
fn main_menu_up_skips_missing_entries() {
    let r = main_menu(MainMenuSelection::Options, Some(MenuKey::Up), false, false);
    assert_eq!(r, MainMenuResult::NoSelection { selected: MainMenuSelection::NewGame });
    let r = main_menu(MainMenuSelection::Options, Some(MenuKey::Up), true, false);
    assert_eq!(r, MainMenuResult::NoSelection { selected: MainMenuSelection::LoadGame });
    let r = main_menu(MainMenuSelection::NewGame, Some(MenuKey::Up), false, false);
    assert_eq!(r, MainMenuResult::NoSelection { selected: MainMenuSelection::Quit });
}

#[test]
fn main_menu_enter_selects_and_escape_quits() {
    let r = main_menu(MainMenuSelection::Options, Some(MenuKey::Enter), true, true);
    assert_eq!(r, MainMenuResult::Selected { selected: MainMenuSelection::Options });
    let r = main_menu(MainMenuSelection::NewGame, Some(MenuKey::Escape), true, true);
    assert_eq!(r, MainMenuResult::NoSelection { selected: MainMenuSelection::Quit });
    let r = main_menu(MainMenuSelection::NewGame, None, true, true);
    assert_eq!(r, MainMenuResult::NoSelection { selected: MainMenuSelection::NewGame });
}

#[test]
fn options_menu_wraps_around() {
    let r = options_menu(OptionsMenuSelection::ToggleFps, Some(MenuKey::Up));
    assert_eq!(r, OptionsMenuResult::NoSelection { selected: OptionsMenuSelection::Quit });
    let r = options_menu(OptionsMenuSelection::Quit, Some(MenuKey::Down));
    assert_eq!(r, OptionsMenuResult::NoSelection { selected: OptionsMenuSelection::ToggleFps });
}

#[test]
fn options_menu_adjusts_volume_with_arrows() {
    let sel = OptionsMenuSelection::BackgroundVolume { change: VolumeChange::Unchanged };
    let r = options_menu(sel, Some(MenuKey::Left));
    assert_eq!(
        r,
        OptionsMenuResult::Selected {
            selected: OptionsMenuSelection::BackgroundVolume { change: VolumeChange::Decrease },
        },
    );
    let sel = OptionsMenuSelection::EffectsVolume { change: VolumeChange::Unchanged };
    let r = options_menu(sel, Some(MenuKey::Right));
    assert_eq!(
        r,
        OptionsMenuResult::Selected {
            selected: OptionsMenuSelection::EffectsVolume { change: VolumeChange::Increase },
        },
    );
    // arrows on a toggle entry do nothing
    let r = options_menu(OptionsMenuSelection::ToggleFps, Some(MenuKey::Left));
    assert_eq!(r, OptionsMenuResult::NoSelection { selected: OptionsMenuSelection::ToggleFps });
}

#[test]
fn options_menu_enter_and_escape() {
    let r = options_menu(OptionsMenuSelection::ToggleCheatMenu, Some(MenuKey::Enter));
    assert_eq!(
        r,
        OptionsMenuResult::Selected { selected: OptionsMenuSelection::ToggleCheatMenu },
    );
    let r = options_menu(OptionsMenuSelection::ToggleFps, Some(MenuKey::Escape));
    assert_eq!(r, OptionsMenuResult::NoSelection { selected: OptionsMenuSelection::Quit });
}
