use pro_audio_config::inspector::{
    filename_from_value, is_active_by_content, is_active_by_name, is_active_in_properties,
    is_config_file_name, main_config_files, scan_directories,
};

#[test]
fn config_file_names() {
    assert!(is_config_file_name("99-x.conf"));
    assert!(is_config_file_name("rules.lua"));
    assert!(is_config_file_name("my-quantum-file"));
    assert!(!is_config_file_name("README.md"));
}

#[test]
fn active_files() {
    assert!(is_active_by_name("99-anything.conf"));
    assert!(is_active_by_name("50-pro-audio.conf"));
    assert!(!is_active_by_name("10-other.conf"));
    assert!(is_active_by_content("x\n  audio.rate = 48000\n"));
    assert!(!is_active_by_content("context.modules = []"));
    let props = vec![("pro-audio.files".to_string(), vec!["99-pro-audio.conf".to_string()])];
    assert!(is_active_in_properties("99-pro-audio.conf", &props));
    assert!(is_active_in_properties("pro-audio", &props));
    assert!(!is_active_in_properties("10-other.conf", &props));
}

#[test]
fn file_names_from_values() {
    assert_eq!(filename_from_value("/etc/pipewire/pipewire.conf.d/99-a.conf"), Some("99-a.conf".to_string()));
    assert_eq!(filename_from_value("local.conf"), Some("local.conf".to_string()));
    assert_eq!(filename_from_value("/usr/lib/x.so"), None);
}

#[test]
fn scanned_locations() {
    let user = scan_directories(false, "ann");
    assert_eq!(user.len(), 7);
    assert_eq!(user[0].path, "/home/ann/.config/pipewire");
    assert_eq!(user[6].label, "User WirePlumber Local Config");
    let system = scan_directories(true, "ann");
    assert_eq!(system[5].path, "/usr/share/pipewire");
    assert_eq!(main_config_files(false, "ann"), vec!["/home/ann/.config/pipewire/pipewire.conf", "/home/ann/.config/wireplumber/wireplumber.conf"]);
}

use pro_audio_config::inspector::{
    active_config_properties, active_properties_of_dump, config_display_name, edit_script, extract_properties, first_lines_summary,
    listing_order, manual_instructions, scan_report, summary_can_be_cut, try_first_lines_summary, JsonValue,
    PropertyFiles,
};

fn text(s: &str) -> JsonValue {
    JsonValue::Text(s.to_string())
}

fn fields(entries: Vec<(&str, JsonValue)>) -> JsonValue {
    JsonValue::Fields(entries.into_iter().map(|(k, v)| (k.to_string(), v)).collect())
}

#[test]
fn marked_properties_are_collected() {
    let props = fields(vec![
        ("pro-audio.config", text("/etc/pipewire/pipewire.conf.d/99-pro-audio.conf")),
        ("node.name", text("alsa_output")),
        ("nested", fields(vec![("ProAudio.rules", text("/w/50-pro-audio.conf"))])),
        ("pro-audio.config", text("/home/ann/99-pro-audio.conf")),
        ("99-count", JsonValue::Other),
    ]);
    let mut acc: PropertyFiles = Vec::new();
    extract_properties(&props, &mut acc);
    assert_eq!(
        acc,
        vec![
            ("pro-audio.config".to_string(), vec!["99-pro-audio.conf".to_string()]),
            ("ProAudio.rules".to_string(), vec!["50-pro-audio.conf".to_string()]),
            ("99-count".to_string(), vec![]),
        ]
    );
}

#[test]
fn dump_properties_read_from_info_props() {
    let object = fields(vec![(
        "info",
        fields(vec![("props", fields(vec![("pro-audio.file", text("/x/99-a.conf"))]))]),
    )]);
    let without_info = fields(vec![("id", JsonValue::Other)]);
    let dump = JsonValue::Items(vec![object, without_info]);
    assert_eq!(
        active_config_properties(&dump),
        vec![("pro-audio.file".to_string(), vec!["99-a.conf".to_string()])]
    );
    assert!(active_config_properties(&text("not a list")).is_empty());
}

#[test]
fn file_summaries() {
    let content = "# comment\ncontext.properties = {\n\n  default.clock.rate = 48000\n";
    assert!(summary_can_be_cut(content));
    assert_eq!(first_lines_summary(content), "context.properties = {");
    let long = "aaaaaaaaaaaaaaaaaaaaaaaaaaaaaa\nbbbbbbbbbbbbbbbbbbbbbbbbbbbbbb\n";
    assert_eq!(
        try_first_lines_summary(long),
        Some("aaaaaaaaaaaaaaaaaaaaaaaaaaaaaa | bbbbbbbbbbbbbbbbb...".to_string())
    );
    let multibyte = "aééééééééééééééééééééééééééééééé\né\n";
    assert_eq!(try_first_lines_summary(multibyte), None);
}

#[test]
fn editing_texts() {
    let script = edit_script("/etc/pipewire/pipewire.conf");
    assert!(script.starts_with("#!/bin/bash"));
    assert!(script.contains("/etc/pipewire/pipewire.conf"));
    let manual = manual_instructions("/etc/x.conf");
    assert_eq!(
        manual,
        "SYSTEM FILE EDITING INSTRUCTIONS\n\nFile: /etc/x.conf\n\nTo edit this system configuration file:\n\nOPTION 1 - Recommended:\n• Open a terminal and run:\nsudoedit /etc/x.conf\n\nOPTION 2 - Alternative:\n• Open a terminal and run:\nsudo nano /etc/x.conf\n"
    );
    assert_eq!(config_display_name("99-a.conf", true), "✓ 99-a.conf");
    assert_eq!(config_display_name("10-b.conf", false), "  10-b.conf");
}

#[test]
fn scan_reports() {
    let (status, dialog) = scan_report(2, 3);
    assert_eq!(status, "Scan complete: 2 user configs, 3 system configs (5 total)");
    assert_eq!(
        dialog,
        Some("Configuration scan complete!\n\nFound 5 configuration files:\n• 2 user files\n• 3 system files\n\nDouble-click any file to open it.".to_string())
    );
    let (status, dialog) = scan_report(0, 0);
    assert_eq!(status, "No configuration files found. This may be normal if PipeWire/WirePlumber use default settings.");
    assert_eq!(dialog, None);
}

#[test]
fn listing_newest_first_once_per_path() {
    let entries = vec![
        ("/a".to_string(), 5u64),
        ("/b".to_string(), 7u64),
        ("/a".to_string(), 9u64),
        ("/c".to_string(), 7u64),
    ];
    assert_eq!(listing_order(&entries), vec![2, 1, 3]);
    assert!(listing_order(&Vec::new()).is_empty());
    let same = vec![("/x".to_string(), 1u64), ("/x".to_string(), 1u64)];
    assert_eq!(listing_order(&same), vec![0]);
}

#[test]
fn dump_text_is_parsed_for_properties() {
    let text = r#"[{"id": 30, "info": {"props": {"pro-audio.config": "/etc/pipewire/pipewire.conf.d/99-pro-audio.conf", "node.name": "x"}}}, {"id": 31}]"#;
    assert_eq!(
        active_properties_of_dump(text),
        vec![("pro-audio.config".to_string(), vec!["99-pro-audio.conf".to_string()])]
    );
    assert!(active_properties_of_dump("not json").is_empty());
    assert!(active_properties_of_dump("{\"info\": 1}").is_empty());
}
