use pro_audio_config::audio::settings_from_pw_info;
use pro_audio_config::audio::describe_default_sink;
use pro_audio_config::audio::{script_failure_message, settings_script};
use pro_audio_config::audio::{
    audio_format, audio_system_name, collect_audio_devices, extract_device_pattern, extract_id,
    is_real_hardware_device, parse_alsa_output, parse_pipewire_devices, parse_pulse_output,
    AudioDevice, AudioSettings, DeviceCapabilities, DeviceType,
};

fn create_custom_settings(sample_rate: u32, bit_depth: u32, buffer_size: u32, device_id: &str) -> AudioSettings {
    AudioSettings::new(sample_rate, bit_depth, buffer_size, device_id.to_string())
}

fn create_test_audio_device(name: &str, description: &str, device_type: DeviceType) -> AudioDevice {
    AudioDevice {
        name: name.to_string(),
        description: description.to_string(),
        id: format!("alsa:{}", name.to_lowercase().replace(' ', "_")),
        device_type,
        available: true,
    }
}

#[test]
fn test_audio_settings_creation() {
    let settings = AudioSettings::new(48000, 24, 512, "default".to_string());
    assert_eq!(settings.sample_rate, 48000);
    assert_eq!(settings.bit_depth, 24);
    assert_eq!(settings.buffer_size, 512);
    assert_eq!(settings.device_id, "default");
}

#[test]
fn test_audio_settings_default_values() {
    let settings = AudioSettings::new(44100, 16, 1024, "alsa:default".to_string());
    assert_ne!(settings.sample_rate, 48000);
    assert_ne!(settings.bit_depth, 24);
    assert_ne!(settings.buffer_size, 512);
    assert_eq!(settings.device_id, "alsa:default");
}

#[test]
fn test_format_selection() {
    let test_cases = vec![(16, "S16LE"), (24, "S24LE"), (32, "S32LE"), (8, "S24LE")];
    for (bit_depth, expected_format) in test_cases {
        assert_eq!(audio_format(bit_depth), expected_format);
    }
}

#[test]
fn test_audio_settings_serialization() {
    let settings = AudioSettings::new(192000, 32, 2048, "pipewire:123".to_string());
    let description = format!("{:?}", settings);
    assert!(description.contains("192000"));
    assert!(description.contains("32"));
    assert!(description.contains("2048"));
    assert!(description.contains("pipewire:123"));
}

#[test]
fn test_device_capabilities_structure() {
    let capabilities = DeviceCapabilities {
        sample_rates: vec![44100, 48000, 96000],
        formats: vec!["S16LE".to_string(), "S24LE".to_string()],
        buffer_sizes: vec![64, 128, 256],
        min_buffer_size: 64,
        max_buffer_size: 4096,
        period_sizes: vec![32, 64, 128],
    };
    assert_eq!(capabilities.sample_rates.len(), 3);
    assert_eq!(capabilities.formats.len(), 2);
    assert_eq!(capabilities.buffer_sizes.len(), 3);
    assert_eq!(capabilities.min_buffer_size, 64);
    assert_eq!(capabilities.max_buffer_size, 4096);
}

#[test]
fn test_audio_device_struct() {
    let device = AudioDevice {
        name: "Test Device".to_string(),
        description: "Test Description".to_string(),
        id: "test:id".to_string(),
        device_type: DeviceType::Output,
        available: true,
    };
    let cloned = device.clone();
    assert_eq!(device.name, cloned.name);
    assert_eq!(device.device_type, cloned.device_type);
    let debug_output = format!("{:?}", device);
    assert!(debug_output.contains("Test Device"));
    assert!(debug_output.contains("Output"));
}

#[test]
fn test_custom_settings_creation() {
    let settings = create_custom_settings(96000, 32, 1024, "alsa:custom");
    assert_eq!(settings.sample_rate, 96000);
    assert_eq!(settings.bit_depth, 32);
    assert_eq!(settings.buffer_size, 1024);
    assert_eq!(settings.device_id, "alsa:custom");
}

#[test]
fn test_test_audio_device_creation() {
    let device = create_test_audio_device("test-device", "Test USB Audio", DeviceType::Output);
    assert_eq!(device.name, "test-device");
    assert_eq!(device.description, "Test USB Audio");
    assert_eq!(device.device_type, DeviceType::Output);
    assert!(device.available);
}

#[test]
fn test_audio_settings_edge_cases() {
    let test_cases = vec![
        (44100, 16, 128, "alsa:default"),
        (384000, 32, 8192, "pipewire:123"),
        (8000, 24, 64, "pulse:0"),
        (48000, 24, 512, "default"),
        (48000, 24, 512, "alsa:usb-device"),
        (48000, 24, 512, "pipewire:42"),
        (48000, 24, 512, "pulse:1"),
    ];
    for (sample_rate, bit_depth, buffer_size, device_id) in test_cases {
        let settings = AudioSettings::new(sample_rate, bit_depth, buffer_size, device_id.to_string());
        assert_eq!(settings.sample_rate, sample_rate);
        assert_eq!(settings.bit_depth, bit_depth);
        assert_eq!(settings.buffer_size, buffer_size);
        assert_eq!(settings.device_id, device_id);
    }
}

#[test]
fn test_audio_settings_ui_data_flow() {
    let settings = AudioSettings::new(48000, 24, 512, "default".to_string());
    let settings_for_ui = settings.clone();
    let settings_for_worker = settings.clone();
    assert_eq!(settings.sample_rate, settings_for_ui.sample_rate);
    assert_eq!(settings.sample_rate, settings_for_worker.sample_rate);
    let display_text = format!(
        "{} Hz / {} bit / {} samples",
        settings.sample_rate, settings.bit_depth, settings.buffer_size
    );
    assert!(!display_text.is_empty());
    assert!(display_text.contains("48000"));
    assert!(display_text.contains("24"));
    assert!(display_text.contains("512"));
}

#[test]
fn test_multiple_audio_settings() {
    let test_cases = vec![(44100, 16, 256), (48000, 24, 512), (96000, 32, 1024), (192000, 24, 2048)];
    for (sample_rate, bit_depth, buffer_size) in test_cases {
        let settings = AudioSettings::new(sample_rate, bit_depth, buffer_size, "default".to_string());
        assert_eq!(settings.sample_rate, sample_rate);
        assert_eq!(settings.bit_depth, bit_depth);
        assert_eq!(settings.buffer_size, buffer_size);
    }
}

#[test]
fn hardware_filter_skips_virtual_devices() {
    let mut d = create_test_audio_device("Virtual Sink", "virtual", DeviceType::Output);
    assert!(!is_real_hardware_device(&d));
    d = create_test_audio_device("front", "ALSA Output", DeviceType::Output);
    assert!(is_real_hardware_device(&d));
    d.name = "dmix:CARD=PCH".to_string();
    assert!(!is_real_hardware_device(&d));
}

#[test]
fn alsa_listing_keeps_hardware_lines() {
    let out = "default\n    Default ALSA Output\nfront:CARD=PCH,DEV=0\n    HDA Intel PCH, ALC\nhw:CARD=PCH,DEV=0\nsysdefault:CARD=PCH\n";
    let devices = parse_alsa_output(out, DeviceType::Output);
    let names: Vec<&str> = devices.iter().map(|d| d.name.as_str()).collect();
    assert_eq!(names, vec!["front:CARD=PCH,DEV=0", "sysdefault:CARD=PCH"]);
    assert_eq!(devices[0].id, "alsa:front:CARD=PCH,DEV=0");
    assert_eq!(devices[0].description, "ALSA Output");
}

#[test]
fn pulse_listing_reads_fields() {
    let out = "0\talsa_output.pci-0000_00_1f.3.analog-stereo\tPipeWire\ts32le 2ch 48000Hz\tSUSPENDED\n1\tauto_null\tmodule-null-sink.c\n";
    let devices = parse_pulse_output(out, DeviceType::Output);
    assert_eq!(devices.len(), 1);
    assert_eq!(devices[0].name, "alsa_output.pci-0000_00_1f.3.analog-stereo");
    assert_eq!(devices[0].description, "PipeWire s32le 2ch 48000Hz SUSPENDED");
    assert_eq!(devices[0].id, "pulse:0");
}

#[test]
fn pipewire_listing_reads_nodes() {
    let out = b"id: 45, object: Node\n  node.name = \"usb_headset_out\"\n  node.description = \"USB Headset\"\n  media.class = \"Audio/Sink\"\nid: 46, object: Node\n  node.name = \"null-sink\"\n";
    let parsed = parse_pipewire_devices(out).unwrap();
    assert_eq!(parsed.len(), 1);
    assert_eq!(parsed[0].name, "usb_headset_out");
    assert_eq!(parsed[0].description, "USB Headset");
    assert_eq!(parsed[0].id, "pipewire:45");
    assert_eq!(parsed[0].device_type, DeviceType::Output);
    assert!(parsed.iter().all(|d| is_real_hardware_device(d)));
}

#[test]
fn object_ids_are_prefixed() {
    assert_eq!(extract_id("id: 123, object: Node"), "pipewire:123");
}

#[test]
fn device_patterns_map_ids() {
    assert_eq!(extract_device_pattern("default"), "alsa.*");
    assert_eq!(extract_device_pattern("alsa:front"), "front");
    assert_eq!(extract_device_pattern("pipewire:42"), "alsa_card.42");
    assert_eq!(extract_device_pattern("pulse:sink"), "alsa_output.sink");
    assert_eq!(extract_device_pattern("other"), "other");
}

#[test]
fn sound_system_names() {
    assert_eq!(audio_system_name(true, false, true, false), "PipeWire");
    assert_eq!(audio_system_name(false, false, false, true), "PulseAudio");
    assert_eq!(audio_system_name(false, false, false, false), "Audio System");
}

#[test]
fn collected_devices_follow_listing_order() {
    let aplay: &[u8] = b"front:CARD=A\n";
    let sinks: &[u8] = b"3\tspeakers\tPipeWire\n";
    let devices = collect_audio_devices(None, Some(aplay), None, Some(sinks), None);
    assert_eq!(devices.len(), 2);
    assert_eq!(devices[0].id, "alsa:front:CARD=A");
    assert_eq!(devices[1].id, "pulse:3");
}

#[test]
fn current_settings_from_pw_info() {
    let defaults = settings_from_pw_info(None);
    assert_eq!((defaults.sample_rate, defaults.bit_depth, defaults.buffer_size), (48000, 24, 512));
    assert_eq!(defaults.device_id, "default");
    let info = b"  * default.clock.rate = \"96000\"\n  * audio.format = \"S32LE\"\n  * default.clock.quantum = \"256\"\n  * default.clock.min-quantum = \"32\"\n";
    let s = settings_from_pw_info(Some(info));
    assert_eq!((s.sample_rate, s.bit_depth, s.buffer_size), (96000, 32, 256));
    let partial = settings_from_pw_info(Some(b"default.clock.rate = \"fast\"\naudio.format = \"S16LE\"\n"));
    assert_eq!((partial.sample_rate, partial.bit_depth, partial.buffer_size), (48000, 16, 512));
}

#[test]
fn default_sink_description() {
    assert_eq!(
        describe_default_sink("PipeWire", Some(b"Server Name: x\nDefault Sink: alsa_output.usb \nDefault Source: y\n")),
        "PipeWire: alsa_output.usb"
    );
    assert_eq!(describe_default_sink("PulseAudio", Some(b"Server Name: x\n")), "PulseAudio: Unknown Audio Device");
    assert_eq!(describe_default_sink("Audio System", None), "Audio System: Unknown Audio Device");
}

#[test]
fn settings_script_and_failures() {
    let settings = AudioSettings::new(96000, 32, 256, "alsa:usb-Focusrite".to_string());
    let script = settings_script("ann", &settings);
    assert!(script.starts_with("#!/bin/bash\nset -e\n"));
    assert!(script.contains("clock.force-quantum 256"));
    assert!(script.contains("echo \"  Sample Rate: 96000 Hz\""));
    assert!(script.contains("echo \"  Target Device: alsa:usb-Focusrite\""));
    assert_eq!(script_failure_message(Some(2), b"", b""), "Script failed with exit code: 2");
    assert_eq!(
        script_failure_message(None, b"1\n2\n3\n4\n5\n6\n", b"boom"),
        "Script failed with exit code: -1\n\nError output:\nboom\n\nLast output:\n2\n3\n4\n5\n6"
    );
}

#[test]
fn pipewire_nodes_are_available_with_pipewire_ids() {
    let listing = b"object: id: 42, type PipeWire:Interface:Node/3\n  node.name = \"alsa_output.usb\"\n  media.class = \"Audio/Sink\"\nobject: Node without id\n  node.name = \"alsa_input.pci\"\n  media.class = \"Audio/Source\"\n";
    let devices = parse_pipewire_devices(listing).unwrap();
    for d in &devices {
        assert!(d.available);
        assert!(d.id == "unknown" || d.id.starts_with("pipewire:"));
    }
}

#[test]
fn detected_settings_stay_in_range() {
    let low = settings_from_pw_info(Some(b"default.clock.rate = \"4000\"\ndefault.clock.quantum = \"16384\"\n"));
    assert_eq!((low.sample_rate, low.bit_depth, low.buffer_size), (48000, 24, 512));
    let kept = settings_from_pw_info(Some(
        b"default.clock.rate = \"96000\"\ndefault.clock.rate = \"500000\"\ndefault.clock.quantum = \"64\"\ndefault.clock.quantum = \"32\"\n",
    ));
    assert_eq!((kept.sample_rate, kept.buffer_size), (96000, 64));
    assert!(!kept.device_id.is_empty());
}
