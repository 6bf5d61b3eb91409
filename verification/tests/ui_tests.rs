use pro_audio_config::ui::{clock_sources, devices_for_tab, max_buffer_sizes, min_buffer_sizes, resampler_qualities, thread_priorities};
use pro_audio_config::ui::{apply_plan, ApplyRoute};
use pro_audio_config::audio::{AudioDevice, AudioSettings, DeviceType};
use pro_audio_config::ui::{
    actual_device_for, advanced_result_messages, bit_depths, buffer_sizes, categorize_device,
    choice_or, clean_device_description, clean_device_display, clean_display_text, config_mode_view,
    config_modes, device_combo_entries, device_entry_text, device_selection, error_display_message,
    exclusive_buffer_sizes, exclusive_request, extract_actual_device_name, parse_or,
    professional_request, sample_rates, settings_from_choices, AdvancedAction, AppPreferences,
    DeviceGroup, Selection, TabType,
};

fn device(name: &str, description: &str, id: &str, device_type: DeviceType) -> AudioDevice {
    AudioDevice {
        name: name.to_string(),
        description: description.to_string(),
        id: id.to_string(),
        device_type,
        available: true,
    }
}

#[test]
fn test_ui_combo_box_simulation() {
    let sample_rates = sample_rates();
    let bit_depths = bit_depths();
    let buffer_sizes = buffer_sizes();
    assert_eq!(&sample_rates[..4], &[
        (44100, "44.1 kHz - CD Quality"),
        (48000, "48 kHz - Standard Audio"),
        (96000, "96 kHz - High Resolution"),
        (192000, "192 kHz - Studio Quality"),
    ]);
    assert_eq!(bit_depths, vec![
        (16, "16 bit - CD Quality"),
        (24, "24 bit - High Resolution"),
        (32, "32 bit - Studio Quality"),
    ]);
    assert_eq!(&buffer_sizes[..4], &[
        (128, "128 samples (2.7ms @48kHz)"),
        (256, "256 samples (5.3ms @48kHz)"),
        (512, "512 samples (10.7ms @48kHz)"),
        (1024, "1024 samples (21.3ms @48kHz)"),
    ]);
    let default_sample_rate = 48000;
    let default_bit_depth = 24;
    let default_buffer_size = 512;
    assert!(sample_rates.iter().any(|(rate, _)| *rate == default_sample_rate));
    assert!(bit_depths.iter().any(|(depth, _)| *depth == default_bit_depth));
    assert!(buffer_sizes.iter().any(|(size, _)| *size == default_buffer_size));
    let sample_rate = parse_or("48000", 44100);
    let bit_depth = parse_or("24", 16);
    let buffer_size = parse_or("512", 256);
    assert_eq!(sample_rate, 48000);
    assert_eq!(bit_depth, 24);
    assert_eq!(buffer_size, 512);
}

#[test]
fn test_ui_fallback_mechanisms() {
    let test_cases = vec![("48000", 44100, 48000), ("invalid", 44100, 44100), ("", 44100, 44100), ("not_a_number", 48000, 48000)];
    for (input, fallback, expected) in test_cases {
        let result = parse_or(input, fallback);
        assert_eq!(result, expected, "Failed for input '{}' with fallback {}", input, fallback);
    }
}

#[test]
fn test_error_handling_patterns() {
    let error_result: Result<(), String> = Err("Test error message".to_string());
    match error_result {
        Ok(()) => {
            let status_message = "Settings applied successfully";
            assert!(!status_message.is_empty());
        }
        Err(e) => {
            assert!(e.contains("Test error message"));
            let error_display = error_display_message(&e);
            assert!(!error_display.is_empty());
            assert_eq!(error_display, "Test error message");
        }
    }
}

#[test]
fn test_dialog_functions() {
    let error_message = "Test error";
    let success_message = "Test success";
    let display_message = error_display_message(error_message);
    assert_eq!(display_message, "Test error");
    assert!(!success_message.is_empty());
}

#[test]
fn script_failure_shows_middle_part() {
    assert_eq!(error_display_message("Script failed\n\nPermission denied\n\nexit 1"), "Permission denied");
    assert_eq!(error_display_message("Script failed\n\nonly this"), "only this");
    assert_eq!(error_display_message("Script failed without details"), "Script failed without details");
}

#[test]
fn test_tab_type_methods() {
    assert_eq!(TabType::Output.title(), "Output");
    assert_eq!(TabType::Input.title(), "Input");
    assert_eq!(TabType::Output.device_label(), "Output Audio Device");
    assert_eq!(TabType::Input.device_label(), "Input Audio Device");
    assert_eq!(TabType::Output.apply_button_label(), "Apply Output Audio Settings");
    assert_eq!(TabType::Input.apply_button_label(), "Apply Input Audio Settings");
}

#[test]
fn tab_labels() {
    assert_eq!(TabType::Input.settings_label(), "Input Audio Settings");
    assert_eq!(TabType::Output.actions_label(), "Output Actions");
    assert_eq!(TabType::Input.selection_prefix(), "Selected Input");
    assert_eq!(TabType::Output.current_device_prefix(), "Current Default Output Device");
    assert_eq!(TabType::Input.stream_type(), "input");
    assert_eq!(
        TabType::Output.applying_status(true),
        "Applying system-wide output settings... (May prompt for admin password)"
    );
    assert_eq!(TabType::Input.applying_status(false), "Applying user input settings...");
    assert_eq!(
        TabType::Output.result_messages(&Ok(())),
        (
            "Output settings applied successfully!".to_string(),
            "Output audio settings applied successfully. The audio system will restart.".to_string()
        )
    );
    assert_eq!(
        TabType::Input.result_messages(&Err("boom".to_string())),
        ("Failed to apply input settings".to_string(), "Failed to apply input settings: boom".to_string())
    );
}

#[test]
fn test_clean_device_description() {
    assert_eq!(clean_device_description("PipeWire s32le 4ch 192000Hz SUSPENDED"), "PipeWire s32le 4ch 192000Hz");
    assert_eq!(clean_device_description("SUSPENDED PipeWire Device"), "PipeWire Device");
    assert_eq!(clean_device_description("Device - RUNNING"), "Device");
    assert_eq!(clean_device_description("Normal Device Description"), "Normal Device Description");
}

#[test]
fn test_clean_display_text() {
    assert_eq!(clean_display_text("🔊 Output alsa_device - SUSPENDED"), "🔊 Output alsa_device");
    assert_eq!(clean_display_text("🔄 Duplex device - RUNNING"), "🔄 Duplex device");
}

#[test]
fn test_clean_device_display() {
    assert_eq!(
        clean_device_display("PipeWire: alsa_output.usb-PreSonus_Studio_26c_0142446A-00.analog-surround-40"),
        "alsa_output.usb-PreSonus_Studio_26c_0142446A-00.analog-surround-40"
    );
    assert_eq!(clean_device_display("PulseAudio: default_sink"), "default_sink");
}

#[test]
fn test_ui_string_operations() {
    let test_cases = vec![
        ("PipeWire Device SUSPENDED", "PipeWire Device"),
        ("ALSA Output - RUNNING", "ALSA Output"),
        ("USB Audio - IDLE", "USB Audio"),
        ("Normal Device", "Normal Device"),
        ("Complex - Device - RUNNING", "Complex - Device"),
    ];
    for (input, expected) in test_cases {
        let cleaned = clean_device_description(input);
        assert_eq!(cleaned, expected, "Failed to clean: '{}'", input);
    }
    let settings = AudioSettings::new(96000, 32, 1024, "alsa:usb_device".to_string());
    let status_text = format!(
        "Configured: {}Hz, {}bit, {} samples on {}",
        settings.sample_rate, settings.bit_depth, settings.buffer_size, settings.device_id
    );
    assert!(status_text.contains("96000"));
    assert!(status_text.contains("32"));
    assert!(status_text.contains("1024"));
    assert!(status_text.contains("usb_device"));
}

#[test]
fn test_audio_settings_from_ui() {
    let sample_rate = parse_or("48000", 44100);
    let bit_depth = parse_or("24", 16);
    let buffer_size = parse_or("512", 256);
    assert_eq!(sample_rate, 48000);
    assert_eq!(bit_depth, 24);
    assert_eq!(buffer_size, 512);
}

#[test]
fn test_fallback_parsing() {
    let invalid_rate = parse_or("invalid", 48000);
    let invalid_depth = parse_or("invalid", 24);
    let invalid_size = parse_or("invalid", 512);
    assert_eq!(invalid_rate, 48000);
    assert_eq!(invalid_depth, 24);
    assert_eq!(invalid_size, 512);
}

#[test]
fn ui_test_audio_settings_struct() {
    let settings = AudioSettings { sample_rate: 96000, bit_depth: 32, buffer_size: 1024, device_id: "default".to_string() };
    assert_eq!(settings.sample_rate, 96000);
    assert_eq!(settings.bit_depth, 32);
    assert_eq!(settings.buffer_size, 1024);
    assert_eq!(settings.device_id, "default");
}

#[test]
fn choices_with_fallbacks() {
    let s = settings_from_choices(Some("96000"), None, Some("x"), Some("alsa:front"));
    assert_eq!((s.sample_rate, s.bit_depth, s.buffer_size), (96000, 24, 512));
    assert_eq!(s.device_id, "alsa:front");
    assert_eq!(choice_or(None, 7), 7);
    let p = professional_request(None, None, None, None, Some("64"), None, None, true, false, true, false, None, Some("realtime"));
    assert_eq!(p.min_buffer, 64);
    assert_eq!(p.max_buffer, 2048);
    assert_eq!(p.thread_priority, "high");
    assert_eq!(p.resampler_quality, "high");
    assert_eq!(p.clock_source, "realtime");
    assert!(p.memory_lock && p.disable_remixing && !p.prevent_suspend);
    let e = exclusive_request(None, Some("256"), None, "Reaper", "");
    assert_eq!(e.device_pattern, "default");
    assert_eq!(e.buffer_size, 256);
    assert_eq!(e.sample_rate, 48000);
    assert_eq!(e.app_name.as_deref(), Some("Reaper"));
    assert_eq!(e.process_name, None);
}

#[test]
fn test_device_grouping_logic() {
    let usb_device = device("usb-device", "USB Audio Device", "alsa:usb", DeviceType::Output);
    let hdmi_device = device("hdmi-device", "HDMI Output", "alsa:hdmi", DeviceType::Output);
    let pci_device = device("pci-device", "PCI Sound Card", "alsa:pci", DeviceType::Output);
    assert_eq!(categorize_device(&usb_device), DeviceGroup::Usb);
    assert_eq!(categorize_device(&hdmi_device), DeviceGroup::Hdmi);
    assert_eq!(categorize_device(&pci_device), DeviceGroup::Pci);
}

#[test]
fn test_device_categorization_logic() {
    let test_devices = vec![
        device("usb-audio", "USB Audio Device", "alsa:usb", DeviceType::Output),
        device("hdmi-output", "HDMI Audio Output", "alsa:hdmi", DeviceType::Output),
        device("pci-card", "PCI Sound Card", "alsa:pci", DeviceType::Output),
        device("analog-input", "Analog Input", "alsa:analog", DeviceType::Input),
    ];
    let expected = [DeviceGroup::Usb, DeviceGroup::Hdmi, DeviceGroup::Pci, DeviceGroup::Other];
    for (d, g) in test_devices.iter().zip(expected.iter()) {
        assert_eq!(categorize_device(d), *g);
    }
}

#[test]
fn test_device_categorization_integration() {
    let devices = vec![
        device("usb-audio", "USB Audio Interface", "alsa:usb", DeviceType::Output),
        device("hdmi-output", "HDMI Audio", "alsa:hdmi", DeviceType::Output),
    ];
    for d in &devices {
        match categorize_device(d) {
            DeviceGroup::Usb => assert!(d.description.to_lowercase().contains("usb")),
            DeviceGroup::Hdmi => assert!(d.description.to_lowercase().contains("hdmi")),
            _ => {}
        }
    }
}

#[test]
fn device_lists_are_grouped() {
    let devices = vec![
        device("hdmi-out", "HDMI 1", "alsa:hdmi", DeviceType::Output),
        device("USB Mic", "USB - RUNNING", "alsa:usbmic", DeviceType::Input),
        device("card", "", "pulse:1", DeviceType::Unknown),
    ];
    let entries = device_combo_entries(&devices, "", TabType::Input, false);
    let view: Vec<(String, String)> = entries.into_iter().map(|e| (e.id, e.text)).collect();
    assert_eq!(
        view,
        vec![
            ("default".to_string(), "Default System Device".to_string()),
            ("separator1".to_string(), "--- USB Audio Devices ---".to_string()),
            ("alsa:usbmic".to_string(), "🎤 Input USB Mic - USB".to_string()),
            ("separator4".to_string(), "--- Other Audio Devices ---".to_string()),
            ("pulse:1".to_string(), "🎤 Input card".to_string()),
        ]
    );
    let entries = device_combo_entries(&devices, "Speakers", TabType::Output, true);
    assert_eq!(entries[0].text, "Default: Speakers");
    assert_eq!(entries.len(), 7);
    assert_eq!(entries[3].id, "separator3");
    assert_eq!(device_entry_text(&devices[2], TabType::Output), "🔊 Output card");
}

#[test]
fn test_device_selection_handling() {
    match device_selection("default", TabType::Output, "", "") {
        Selection::Show(t) => {
            assert_eq!(t, "Selected: Default Output Device");
            assert!(t.contains("Selected"));
        }
        Selection::ResetToDefault => panic!("default is selectable"),
    }
    match device_selection("alsa:x", TabType::Output, "", "🔊 Output test device - IDLE") {
        Selection::Show(t) => assert_eq!(t, "Selected Output: 🔊 Output test device"),
        _ => panic!("device is selectable"),
    }
    match device_selection("default", TabType::Input, "Mic", "") {
        Selection::Show(t) => assert_eq!(t, "Selected: Default Input Device (Mic)"),
        _ => panic!("default is selectable"),
    }
    assert!(matches!(device_selection("separator2", TabType::Input, "", ""), Selection::ResetToDefault));
    assert!(matches!(device_selection("no_devices", TabType::Input, "", ""), Selection::ResetToDefault));
}

#[test]
fn actual_device_names() {
    assert_eq!(extract_actual_device_name("PipeWire: alsa_output.x"), Some("alsa_output.x".to_string()));
    assert_eq!(extract_actual_device_name("ALSA:   "), None);
    assert_eq!(actual_device_for("alsa:x", None), Some("alsa:x".to_string()));
    assert_eq!(actual_device_for("default", Some(Ok("PipeWire: sink".to_string()))), Some("sink".to_string()));
    assert_eq!(actual_device_for("default", Some(Ok("PipeWire: Unknown Output Audio Device".to_string()))), None);
    assert_eq!(actual_device_for("default", Some(Err("x".to_string()))), None);
}

#[test]
fn modes_and_results() {
    let g = config_mode_view("global");
    assert_eq!(g.apply_label, Some("Apply Advanced Global Settings"));
    assert_eq!(g.global_visible, Some(true));
    let other = config_mode_view("x");
    assert_eq!(other.description, "Select a configuration mode above");
    assert_eq!(other.apply_label, None);
    assert_eq!(config_modes()[1].0, "exclusive");
    assert_eq!(exclusive_buffer_sizes()[0].0, 64);
    assert_eq!(
        advanced_result_messages(AdvancedAction::Exclusive, &Err("e".to_string())).1,
        "Failed to apply exclusive mode settings: e"
    );
    assert_eq!(
        advanced_result_messages(AdvancedAction::DisableExclusive, &Ok(())),
        (String::new(), "Exclusive mode disabled. Standard shared audio mode restored.".to_string())
    );
}

#[test]
fn preferences_default_to_user_scope() {
    assert!(!AppPreferences::default().system_wide_config);
}

#[test]
fn apply_button_plan() {
    let plan = apply_plan(TabType::Input, true, Some("96000"), Some("x"), None, Some("alsa:usb"));
    assert_eq!(plan.route, ApplyRoute::Authenticated(TabType::Input));
    assert_eq!(
        (plan.settings.sample_rate, plan.settings.bit_depth, plan.settings.buffer_size),
        (96000, 24, 512)
    );
    assert_eq!(plan.settings.device_id, "alsa:usb");
    let user = apply_plan(TabType::Output, false, None, None, Some("256"), None);
    assert_eq!(user.route, ApplyRoute::User(TabType::Output));
    assert_eq!(user.settings.buffer_size, 256);
    assert_eq!(user.settings.device_id, "default");
}

fn tab_device(id: &str, t: DeviceType) -> AudioDevice {
    AudioDevice { name: id.to_string(), description: String::new(), id: id.to_string(), device_type: t, available: true }
}

#[test]
fn tab_device_lists_follow_direction() {
    let devices = vec![
        tab_device("out", DeviceType::Output),
        tab_device("in", DeviceType::Input),
        tab_device("both", DeviceType::Duplex),
        tab_device("unknown", DeviceType::Unknown),
    ];
    let ids = |v: Vec<AudioDevice>| v.into_iter().map(|d| d.id).collect::<Vec<_>>();
    assert_eq!(ids(devices_for_tab(&devices, TabType::Output)), vec!["out", "both"]);
    assert_eq!(ids(devices_for_tab(&devices, TabType::Input)), vec!["in", "both"]);
}

#[test]
fn professional_option_lists() {
    assert_eq!(min_buffer_sizes()[1], (128, "128 samples (2.7ms @48kHz)"));
    assert_eq!(max_buffer_sizes().len(), 5);
    assert_eq!(max_buffer_sizes()[2].0, 2048);
    assert_eq!(thread_priorities()[2], ("realtime", "Real-time Priority (-20 nice, 99 RT)"));
    assert_eq!(resampler_qualities().len(), 5);
    assert_eq!(clock_sources()[1].0, "monotonic");
}
