use pro_audio_config::paths::{backup_subdir_path, config_backup_dir};
use pro_audio_config::paths::{
    basic_config_files, config_dir_path, config_file_path, exclusive_config_files, exclusive_markers,
    legacy_lua_path, main_config_path, needs_privileges, old_fragment_files, owned_config_files,
    quantum_cleanup_commands, recovery_config_files, ConfigDir, HIGH_PRIORITY_FILE,
};

#[test]
fn directories_of_both_scopes() {
    assert_eq!(config_dir_path(ConfigDir::PipeWireFragments, true, "ann"), "/etc/pipewire/pipewire.conf.d");
    assert_eq!(
        config_dir_path(ConfigDir::WirePlumberFragments, false, "ann"),
        "/home/ann/.config/wireplumber/wireplumber.conf.d"
    );
    assert_eq!(
        config_file_path(ConfigDir::PipeWireFragments, false, "ann", HIGH_PRIORITY_FILE),
        "/home/ann/.config/pipewire/pipewire.conf.d/99-pro-audio-high-priority.conf"
    );
    assert_eq!(main_config_path(false, "ann"), "/home/ann/.config/pipewire/pipewire.conf");
    assert_eq!(main_config_path(true, "ann"), "/etc/pipewire/pipewire.conf");
}

#[test]
fn privileges_for_system_paths() {
    assert!(needs_privileges("/etc/pipewire/x.conf"));
    assert!(!needs_privileges("/home/ann/.config/x.conf"));
}

#[test]
fn legacy_scripts() {
    assert_eq!(legacy_lua_path("ann", "output"), "/home/ann/.config/wireplumber/main.lua.d/50-pro-audio-output.lua");
    assert_eq!(legacy_lua_path("ann", "input"), "/home/ann/.config/wireplumber/main.lua.d/50-pro-audio-input.lua");
}

#[test]
fn cleanup_lists() {
    let owned = owned_config_files("ann");
    assert_eq!(owned.len(), 11);
    assert!(owned.contains(&"/home/ann/.local/share/pipewire/pipewire.conf.d/99-pro-audio.conf".to_string()));
    assert!(owned.contains(&legacy_lua_path("ann", "output")));
    assert_eq!(basic_config_files("/d"), vec!["/d/99-pro-audio-high-priority.conf", "/d/99-pro-audio.conf", "/d/50-pro-audio.conf"]);
    assert_eq!(old_fragment_files("/d"), vec!["/d/99-pro-audio.conf", "/d/50-pro-audio.conf"]);
    let excl = exclusive_config_files("ann");
    let recovery = recovery_config_files("ann");
    let markers = exclusive_markers("ann");
    for f in &excl {
        assert!(recovery.contains(f));
        assert!(markers.contains(f));
    }
    assert_eq!(markers[0], "/etc/pipewire/pipewire.conf.d/99-pro-audio-exclusive.conf");
    assert_eq!(
        quantum_cleanup_commands(true, "ann"),
        vec!["rm -f /etc/pipewire/pipewire.conf.d/*pro-audio*.conf", "rm -f /etc/pipewire/pipewire.conf.d/*quantum*.conf"]
    );
}

#[test]
fn backup_locations() {
    assert_eq!(
        config_backup_dir("/home/ann/.config/pipewire", "20240101_120000"),
        Some("/home/ann/.config/pipewire/backup_20240101_120000".to_string())
    );
    assert_eq!(config_backup_dir("/etc/pipewire", "20240101_120000"), None);
    assert_eq!(backup_subdir_path("/tmp/b", "/home/ann/.config"), "/tmp/b/_home_ann_.config");
}
