use pro_audio_config::audio::AudioSettings;
use pro_audio_config::config::{
    advanced_fragment_content, edit_main_pipewire_config, extract_number_from_line,
    generate_legacy_wireplumber_config, generate_wireplumber_config, pipewire_exclusive_content,
    pipewire_fragment_content, raise_quantum_floor, thread_priority_levels,
    wireplumber_device_content, wireplumber_exclusive_content, wireplumber_rules_content,
};

fn settings(rate: u32, depth: u32, buffer: u32, id: &str) -> AudioSettings {
    AudioSettings { sample_rate: rate, bit_depth: depth, buffer_size: buffer, device_id: id.to_string() }
}

#[test]
fn config_test_audio_settings_struct() {
    let settings = AudioSettings {
        sample_rate: 96000,
        bit_depth: 24,
        buffer_size: 512,
        device_id: "test-device".to_string(),
    };
    assert_eq!(settings.sample_rate, 96000);
    assert_eq!(settings.bit_depth, 24);
    assert_eq!(settings.buffer_size, 512);
}

#[test]
fn test_wireplumber_config_generation() {
    let settings = settings(192000, 32, 256, "test-device");
    let config = generate_wireplumber_config(&settings, "output");
    assert!(config.contains("192000"));
    assert!(config.contains("256"));
    assert!(config.contains("S32LE"));
    assert!(config.contains("test-device"));
}

#[test]
fn test_legacy_wireplumber_config_generation() {
    let settings = settings(48000, 16, 1024, "default");
    let config = generate_legacy_wireplumber_config(&settings, "input");
    assert!(config.contains("48000"));
    assert!(config.contains("1024"));
    assert!(config.contains("alsa.*"));
    assert!(config.contains("S16LE"));
    assert!(config.contains("Lua"));
}

#[test]
fn test_default_device_config() {
    let settings = settings(48000, 16, 1024, "default");
    let config = generate_wireplumber_config(&settings, "input");
    assert!(config.contains("48000"));
    assert!(config.contains("1024"));
    assert!(config.contains("~alsa.*"));
    assert!(config.contains("S16LE"));
}

#[test]
fn test_exclusive_mode_config_safety() {
    let config_content = pipewire_exclusive_content(true, true, 128, 48000);
    assert!(config_content.contains("nice.level = -11"));
    assert!(config_content.contains("rt.prio = 80"));
    assert!(config_content.contains("rt.time.soft = 200000"));
    assert!(config_content.contains("rt.time.hard = 200000"));
    assert!(!config_content.contains("nice.level = -20"));
    assert!(!config_content.contains("rt.prio = 88"));
    assert!(!config_content.contains("rt.time.soft = 100000"));
    assert!(!config_content.contains("rt.time.hard = 100000"));
}

#[test]
fn test_extract_number_from_line() {
    assert_eq!(extract_number_from_line(r#"default.clock.rate = "48000""#), Some(48000));
    assert_eq!(extract_number_from_line(r#"default.clock.quantum = "1024""#), Some(1024));
    assert_eq!(extract_number_from_line("not a number line"), None);
    assert_eq!(extract_number_from_line("default.clock.rate = invalid"), None);
}

#[test]
fn starred_property_lines_are_read() {
    assert_eq!(extract_number_from_line("*\t\tdefault.clock.rate = \"96000\""), Some(96000));
    assert_eq!(extract_number_from_line("default.clock.quantum = 256"), Some(256));
    assert_eq!(extract_number_from_line("default.clock.rate = \"+44100\""), Some(44100));
    assert_eq!(extract_number_from_line("default.clock.rate = \"4294967296\""), None);
    assert_eq!(extract_number_from_line("a = 7 = 9"), Some(7));
}

#[test]
fn property_line_round_trip() {
    for n in [0u32, 7, 48000, 4294967295] {
        let line = format!("default.clock.rate = \"{}\"", n);
        assert_eq!(extract_number_from_line(&line), Some(n));
    }
}

#[test]
fn legacy_rules_name_the_stream_and_device() {
    let config = generate_legacy_wireplumber_config(&settings(44100, 24, 256, "my-card"), "output");
    assert!(config.starts_with("-- Pro Audio Config Legacy Lua Configuration"));
    assert!(config.contains("Auto-generated for output settings"));
    assert!(config.contains("{ \"device.name\", \"matches\", \"my-card\" }"));
    assert!(config.contains("[\"audio.format\"] = \"S24LE\""));
    assert!(config.contains("[\"audio.rate\"] = 44100,"));
    assert!(config.contains("[\"api.alsa.period-size\"] = 256,"));
}

#[test]
fn fragment_forces_rate_and_quantum() {
    let config = pipewire_fragment_content(&settings(96000, 24, 512, "default"));
    assert!(config.contains("default.clock.rate = 96000"));
    assert!(config.contains("default.clock.quantum = 512"));
    assert!(config.contains("default.clock.allowed-rates = [ 96000 ]"));
    assert!(config.contains("default.clock.force-quantum = 512"));
    assert!(config.contains("default.clock.force-rate = 96000"));
}

#[test]
fn advanced_fragment_scales_limits() {
    let config = advanced_fragment_content(
        &settings(48000, 24, 256, "default"),
        64,
        4096,
        "realtime",
        true,
        true,
        false,
        true,
        "very-high",
        "monotonic",
    );
    assert!(config.contains("default.clock.quantum-floor = 256"));
    assert!(config.contains("default.clock.min-quantum = 64"));
    assert!(config.contains("default.clock.max-quantum = 4096"));
    assert!(config.contains("default.clock.quantum-limit = 1024"));
    assert!(config.contains("default.clock.source = \"monotonic\""));
    assert!(config.contains("mem.warn-mlock = false"));
    assert!(config.contains("mem.allow-mlock = true"));
    assert!(config.contains("resample.quality = \"very-high\""));
    assert!(config.contains("session.suspend-timeout-seconds = 0"));
    assert!(config.contains("stream.dont-remix = false"));
    assert!(config.contains("stream.dont-resample = true"));
    assert!(config.contains("nice.level = -20"));
    assert!(config.contains("rt.prio = 99"));
    assert!(config.contains("node.name        = \"quantum-test-256\""));
    assert!(config.contains("audio.format     = \"S24LE\""));
}

#[test]
fn thread_priorities() {
    assert_eq!(thread_priority_levels("normal"), (-11, 88));
    assert_eq!(thread_priority_levels("high"), (-15, 90));
    assert_eq!(thread_priority_levels("realtime"), (-20, 99));
    assert_eq!(thread_priority_levels("other"), (-15, 90));
}

#[test]
fn exclusive_configs() {
    let direct = pipewire_exclusive_content(true, false, 128, 96000);
    assert!(direct.contains("audio.format = \"S24LE\""));
    assert!(direct.contains("default.clock.rate = 96000"));
    let shared = pipewire_exclusive_content(false, true, 256, 48000);
    assert!(shared.contains("nice.level = -15"));
    assert!(shared.contains("api.alsa.headroom = 128"));
    let wp = wireplumber_exclusive_content(true, 256, 48000);
    assert!(wp.contains("\"api.alsa.headroom\": 128,"));
    assert!(wp.contains("\"api.alsa.disable-batch\": true,"));
}

#[test]
fn wireplumber_rule_files() {
    let s = settings(44100, 32, 1024, "default");
    let rules = wireplumber_rules_content(&s);
    assert!(rules.contains("\"audio.rate\": 44100,"));
    assert!(rules.contains("\"audio.allowed-rates\": [ 44100 ],"));
    assert!(rules.contains("\"api.alsa.period-size\": 1024"));
    let device = wireplumber_device_content(&s);
    assert!(device.contains("\"audio.format\": \"S32LE\","));
    assert!(device.contains("\"api.alsa.period-size\": 1024,"));
}

#[test]
fn main_config_clock_lines_are_replaced() {
    let s = settings(96000, 24, 256, "default");
    let content = "context.properties = {\n    #default.clock.rate          = 48000\n    #default.clock.quantum       = 1024\n}\n";
    let edited = edit_main_pipewire_config(content, &s).unwrap();
    assert_eq!(
        edited,
        "context.properties = {\n    default.clock.rate          = 96000\n    default.clock.quantum       = 256\n}\n"
    );
    assert_eq!(edit_main_pipewire_config("nothing to change\n", &s), None);
}

#[test]
fn quantum_floor_is_replaced_or_inserted() {
    let replaced = raise_quantum_floor("a\n  default.clock.quantum-floor = 4\nb", 512);
    assert_eq!(replaced, "a\n    default.clock.quantum-floor = 512\nb\n");
    let inserted = raise_quantum_floor("x\n  default.clock.quantum = 1024\ny\n", 128);
    assert_eq!(
        inserted,
        "x\n  default.clock.quantum = 1024\n    default.clock.quantum-floor = 128\n    default.clock.min-quantum = 128\ny\n"
    );
    assert_eq!(raise_quantum_floor("nothing\n", 64), "nothing\n");
}

#[test]
fn wireplumber_rules_are_json() {
    for (rate, depth, buffer, id) in [(48000, 24, 512, "default"), (96000, 16, 128, "alsa_output.usb-Focusrite")] {
        let config = generate_wireplumber_config(&settings(rate, depth, buffer, id), "output");
        assert!(serde_json::from_str::<serde_json::Value>(&config).is_ok(), "{}", config);
    }
}
