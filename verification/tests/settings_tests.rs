use sea_lantern::probe::JavaInfo;
use sea_lantern::settings::{
    default_console_font, default_log_lines, default_max_memory, default_min_memory, default_port,
    default_true, get_data_dir, load_settings, needs_first_save, save_outcome, settings_file_name,
    AppSettings, ConfigEntry, SaveFailure, ServerProperties, SettingsManager, StoredSettings,
};

fn custom() -> AppSettings {
    AppSettings {
        close_servers_on_exit: false,
        auto_accept_eula: true,
        default_max_memory: 4096,
        default_min_memory: 1024,
        default_port: 25570,
        default_java_path: "/usr/bin/java".to_string(),
        default_jvm_args: "-XX:+UseG1GC".to_string(),
        console_font_size: 15,
        max_log_lines: 100,
        cached_java_list: vec![JavaInfo {
            path: "/usr/bin/java".to_string(),
            version: "17.0.2".to_string(),
            vendor: "openjdk".to_string(),
            is_64bit: true,
            major_version: 17,
        }],
    }
}

fn assert_same(a: &AppSettings, b: &AppSettings) {
    assert_eq!(a.close_servers_on_exit, b.close_servers_on_exit);
    assert_eq!(a.auto_accept_eula, b.auto_accept_eula);
    assert_eq!(a.default_max_memory, b.default_max_memory);
    assert_eq!(a.default_min_memory, b.default_min_memory);
    assert_eq!(a.default_port, b.default_port);
    assert_eq!(a.default_java_path, b.default_java_path);
    assert_eq!(a.default_jvm_args, b.default_jvm_args);
    assert_eq!(a.console_font_size, b.console_font_size);
    assert_eq!(a.max_log_lines, b.max_log_lines);
    assert_eq!(a.cached_java_list.len(), b.cached_java_list.len());
    for (x, y) in a.cached_java_list.iter().zip(b.cached_java_list.iter()) {
        assert_eq!(x.path, y.path);
        assert_eq!(x.version, y.version);
        assert_eq!(x.vendor, y.vendor);
        assert_eq!(x.is_64bit, y.is_64bit);
        assert_eq!(x.major_version, y.major_version);
    }
}

#[test]
fn defaults_of_a_fresh_installation() {
    let d = AppSettings::default();
    assert!(d.close_servers_on_exit);
    assert!(d.auto_accept_eula);
    assert_eq!(d.default_max_memory, 2048);
    assert_eq!(d.default_min_memory, 512);
    assert_eq!(d.default_port, 25565);
    assert_eq!(d.default_java_path, "");
    assert_eq!(d.default_jvm_args, "");
    assert_eq!(d.console_font_size, 13);
    assert_eq!(d.max_log_lines, 5000);
    assert!(d.cached_java_list.is_empty());
}

#[test]
fn field_defaults() {
    assert!(default_true());
    assert_eq!(default_max_memory(), 2048);
    assert_eq!(default_min_memory(), 512);
    assert_eq!(default_port(), 25565);
    assert_eq!(default_console_font(), 13);
    assert_eq!(default_log_lines(), 5000);
}

#[test]
fn settings_clone_is_equal() {
    let s = custom();
    assert_same(&s.clone(), &s);
}

#[test]
fn loading_takes_the_file_or_the_defaults() {
    assert_same(&load_settings(StoredSettings::Loaded(custom())), &custom());
    assert_same(&load_settings(StoredSettings::Missing), &AppSettings::default());
    assert_same(&load_settings(StoredSettings::Unreadable), &AppSettings::default());
    assert_same(&load_settings(StoredSettings::Malformed), &AppSettings::default());
}

#[test]
fn only_a_missing_file_is_created() {
    assert!(needs_first_save(&StoredSettings::Missing));
    assert!(!needs_first_save(&StoredSettings::Unreadable));
    assert!(!needs_first_save(&StoredSettings::Malformed));
    assert!(!needs_first_save(&StoredSettings::Loaded(custom())));
}

#[test]
fn manager_begins_with_stored_settings() {
    let m = SettingsManager::new("/data".to_string(), StoredSettings::Loaded(custom()));
    assert_eq!(m.data_dir, "/data");
    assert_same(&m.get(), &custom());
    let fresh = SettingsManager::new(".".to_string(), StoredSettings::Missing);
    assert_same(&fresh.get(), &AppSettings::default());
}

#[test]
fn manager_update_then_get() {
    let mut m = SettingsManager::new("/data".to_string(), StoredSettings::Missing);
    let to_write = m.update(custom());
    assert_same(&to_write, &custom());
    assert_same(&m.get(), &custom());
    assert_eq!(m.data_dir, "/data");
}

#[test]
fn manager_reset_goes_back_to_defaults() {
    let mut m = SettingsManager::new("/data".to_string(), StoredSettings::Loaded(custom()));
    let d = m.reset();
    assert_same(&d, &AppSettings::default());
    assert_same(&m.get(), &AppSettings::default());
    assert_eq!(m.data_dir, "/data");
}

#[test]
fn save_outcomes() {
    assert_eq!(save_outcome(None), Ok(()));
    assert_eq!(
        save_outcome(Some(SaveFailure::Write("disk full".to_string()))),
        Err("Failed to save settings: disk full".to_string())
    );
    assert_eq!(
        save_outcome(Some(SaveFailure::Serialize("bad key".to_string()))),
        Err("Failed to serialize settings: bad key".to_string())
    );
}

#[test]
fn data_directory_and_file_name() {
    assert_eq!(get_data_dir(Some("/opt/app".to_string())), "/opt/app");
    assert_eq!(get_data_dir(None), ".");
    assert_eq!(settings_file_name(), "sea_lantern_settings.json");
}

#[test]
fn server_properties_hold_entries_and_raw_pairs() {
    let entry = ConfigEntry {
        key: "server-port".to_string(),
        value: "25565".to_string(),
        description: "Port".to_string(),
        value_type: "number".to_string(),
        default_value: "25565".to_string(),
        category: "network".to_string(),
    };
    let mut raw = std::collections::HashMap::new();
    raw.insert("server-port".to_string(), "25565".to_string());
    let props = ServerProperties { entries: vec![entry], raw };
    assert_eq!(props.entries[0].key, "server-port");
    assert_eq!(props.raw.get("server-port").map(String::as_str), Some("25565"));
}
