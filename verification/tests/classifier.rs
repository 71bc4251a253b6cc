//! The classifier: indicator matching, case insensitivity, and the
//! elevation path marker.

use procsnipe::classify::{is_game_process, temp_path_is_user_local};

fn name(s: &str) -> Vec<u8> {
    s.as_bytes().to_vec()
}

#[test]
fn classify_known_game_names() {
    assert!(is_game_process(&name("Steam.exe")));
    assert!(is_game_process(&name("steam.exe")));
    assert!(is_game_process(&name("VALORANT-Win64-Shipping.exe")));
    assert!(is_game_process(&name("LeagueClient.exe")));
    assert!(is_game_process(&name("Minecraft Launcher")));
    assert!(is_game_process(&name("dota2.exe")));
    assert!(is_game_process(&name("EpicGamesLauncher.exe")));
}

#[test]
fn classify_plain_names() {
    assert!(!is_game_process(&name("notepad.exe")));
    assert!(!is_game_process(&name("explorer.exe")));
    assert!(!is_game_process(&name("svchost.exe")));
    assert!(!is_game_process(&name("")));
}

#[test]
fn classify_is_case_insensitive() {
    assert!(is_game_process(&name("GaMe_overlay.dll")));
    assert!(is_game_process(&name("STEAMWEBHELPER")));
    assert!(is_game_process(&name("FORTNITEClient")));
}

#[test]
fn classify_indicator_in_the_middle() {
    assert!(is_game_process(&name("my_steam_helper.exe")));
    assert!(is_game_process(&name("launcher-vulkan-1")));
}

#[test]
fn temp_path_marker() {
    assert!(temp_path_is_user_local(&name(
        "C:\\Users\\someone\\AppData\\Local\\Temp"
    )));
    assert!(!temp_path_is_user_local(&name("C:\\Windows\\Temp")));
    assert!(!temp_path_is_user_local(&name("appdata\\local")));
}
