use protonup::launcher::Launcher;

#[test]
fn launcher_names() {
    assert_eq!(Launcher::Steam.to_string(), "Steam");
    assert_eq!(Launcher::Lutris.to_string(), "Lutris");
    assert_eq!(Launcher::Steam.as_str(), "Steam");
    assert_eq!(Launcher::Lutris.as_str(), "Lutris");
}

#[test]
fn launcher_token_round_trip() {
    assert_eq!(Launcher::from_token(Launcher::Steam.as_str()), Launcher::Steam);
    assert_eq!(Launcher::from_token(Launcher::Lutris.as_str()), Launcher::Lutris);
}

#[test]
fn launcher_unknown_token_reads_as_lutris() {
    assert_eq!(Launcher::from_token("steam"), Launcher::Lutris);
    assert_eq!(Launcher::from_token(""), Launcher::Lutris);
    assert_eq!(Launcher::from_token("Steam "), Launcher::Lutris);
}

#[test]
fn launcher_setting_keys() {
    assert_eq!(Launcher::Steam.setting_key(), "steam_path");
    assert_eq!(Launcher::Lutris.setting_key(), "lutris_path");
}

#[test]
fn launcher_default_subpaths() {
    assert_eq!(Launcher::Steam.default_subpath(), ".steam/root/compatibilitytools.d");
    assert_eq!(Launcher::Lutris.default_subpath(), ".local/share/lutris/runners/wine");
}

#[test]
fn launcher_equality_and_copy() {
    let a = Launcher::Steam;
    let b = a;
    assert_eq!(a, b);
    assert_ne!(Launcher::Steam, Launcher::Lutris);
    assert_eq!(a.clone(), Launcher::Steam);
}
