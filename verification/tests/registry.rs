use protonup::launcher::Launcher;
use protonup::registry::{
    installed_runners, is_recorded, record_installed, record_removed, set_path_override,
    store_dir_path, store_file_path, RegistryChange, StoredRunner,
};

#[test]
fn install_record_change() {
    assert_eq!(
        record_installed("GE-Proton9-7", Launcher::Steam),
        RegistryChange::RecordInstalled {
            version: "GE-Proton9-7".to_string(),
            launcher: Launcher::Steam
        }
    );
}

#[test]
fn removal_record_change() {
    assert_eq!(
        record_removed("wine-ge-8", Launcher::Lutris),
        RegistryChange::RecordRemoved { version: "wine-ge-8".to_string(), launcher: Launcher::Lutris }
    );
}

#[test]
fn override_is_put_under_the_launchers_key() {
    assert_eq!(
        set_path_override(Launcher::Steam, Some("/games/compat")),
        RegistryChange::PutSetting {
            key: "steam_path".to_string(),
            value: "/games/compat".to_string()
        }
    );
    assert_eq!(
        set_path_override(Launcher::Lutris, Some("/games/wine")),
        RegistryChange::PutSetting { key: "lutris_path".to_string(), value: "/games/wine".to_string() }
    );
}

#[test]
fn clearing_an_override_deletes_the_key() {
    assert_eq!(
        set_path_override(Launcher::Steam, None),
        RegistryChange::DeleteSetting { key: "steam_path".to_string() }
    );
    assert_eq!(
        set_path_override(Launcher::Lutris, None),
        RegistryChange::DeleteSetting { key: "lutris_path".to_string() }
    );
}

#[test]
fn counts_above_zero_mean_recorded() {
    assert!(is_recorded(1));
    assert!(is_recorded(2));
    assert!(!is_recorded(0));
    assert!(!is_recorded(-1));
}

#[test]
fn stored_rows_read_back_as_records() {
    let rows = vec![
        StoredRunner { version: "GE-Proton9-7".to_string(), launcher: "Steam".to_string() },
        StoredRunner { version: "wine-ge-8".to_string(), launcher: "Lutris".to_string() },
        StoredRunner { version: "odd".to_string(), launcher: "Heroic".to_string() },
    ];
    let records = installed_runners(&rows);
    assert_eq!(records.len(), 3);
    assert_eq!(records[0].version, "GE-Proton9-7");
    assert_eq!(records[0].launcher, Launcher::Steam);
    assert_eq!(records[1].version, "wine-ge-8");
    assert_eq!(records[1].launcher, Launcher::Lutris);
    assert_eq!(records[2].version, "odd");
    assert_eq!(records[2].launcher, Launcher::Lutris);
    assert!(installed_runners(&vec![]).is_empty());
}

#[test]
fn store_lies_below_the_configuration_directory() {
    let config = b"/home/u/.config".to_vec();
    assert_eq!(store_dir_path(&config), b"/home/u/.config/com.github.Mar0xy.ProtonUpGTK");
    assert_eq!(
        store_file_path(&config),
        b"/home/u/.config/com.github.Mar0xy.ProtonUpGTK/settings.db"
    );
    assert_eq!(store_file_path(&b"/c/".to_vec()), b"/c/com.github.Mar0xy.ProtonUpGTK/settings.db");
}
