use pro_audio_config::links::try_plan_monitor_links;
use pro_audio_config::links::{
    active_configuration_text, active_sink_name, device_info_text, manual_connect_result,
    monitor_connect_result, monitor_listing_plannable, plan_manual_links, plan_monitor_links,
    reconnect_messages, status_blink, status_message_action, MonitorNotice, StatusAction,
};
use pro_audio_config::audio::AudioSettings;
use pro_audio_config::monitor::PipeWireMonitor;

#[test]
fn test_monitor_creation() {
    let monitor = PipeWireMonitor::new(false);
    assert_eq!(monitor.get_monitoring_mode(), "Simulation Mode (PipeWire not detected)");
    let live = PipeWireMonitor::new(true);
    assert_eq!(live.get_monitoring_mode(), "Real-time PipeWire Monitoring");
    assert!(true);
}

#[test]
fn monitor_flag() {
    let monitor = PipeWireMonitor::new(true);
    assert!(!monitor.is_running());
    monitor.mark_running();
    assert!(monitor.is_running());
    let _flag = monitor.running_flag();
    monitor.stop();
    assert!(!monitor.is_running());
}

#[test]
fn monitor_plan_picks_active_sink() {
    let listing = b"alsa_output.usb:monitor_FL\nalsa_output.usb:monitor_FR\nalsa_output.pci:monitor_FL\npro_audio_config:monitor_x\nother:capture_1\n";
    assert!(monitor_listing_plannable(listing));
    let plan = plan_monitor_links(listing, "pci").unwrap();
    assert_eq!(plan.device, "alsa_output.pci");
    assert_eq!(plan.links, vec![("alsa_output.pci:monitor_FL".to_string(), "pro_audio_config:input_FL".to_string())]);
    let plan = plan_monitor_links(listing, "").unwrap();
    assert_eq!(plan.device, "alsa_output.usb");
    assert_eq!(plan.links.len(), 2);
    assert_eq!(plan.links[1].1, "pro_audio_config:input_FR");
    assert_eq!(
        plan_monitor_links(b"nothing\n", "").err(),
        Some("No monitor ports found. Make sure audio is playing or an output device is active.".to_string())
    );
    assert!(!monitor_listing_plannable(b"monitor_FL\n"));
    assert_eq!(monitor_connect_result(0), Err("Failed to connect any audio channels".to_string()));
    assert_eq!(monitor_connect_result(2), Ok(()));
}

#[test]
fn manual_plan_matches_inputs() {
    let outputs = b"sink:monitor_FL\nsink:monitor_FR\n";
    let inputs: Result<Vec<u8>, String> = Ok(b"pro_audio_config:input_FL\n".to_vec());
    let links = plan_manual_links(outputs, &inputs).unwrap();
    assert_eq!(links.len(), 1);
    assert_eq!(links[0].port, "sink:monitor_FL");
    assert_eq!(links[0].target, "pro_audio_config:input_FL");
    assert_eq!(links[0].channel, "FL");
    let none: Result<Vec<u8>, String> = Ok(Vec::new());
    assert_eq!(
        plan_manual_links(outputs, &none).err(),
        Some("No pro_audio_config input ports found. Is the app running?".to_string())
    );
    let failed: Result<Vec<u8>, String> = Err("not found".to_string());
    assert_eq!(plan_manual_links(outputs, &failed).err(), Some("pw-link --input failed: not found".to_string()));
    assert_eq!(manual_connect_result(0, &vec![]), Err("Failed to connect any channels: No matching channels found".to_string()));
    assert_eq!(
        manual_connect_result(0, &vec!["Failed to connect FL".to_string(), "Failed to connect FR".to_string()]),
        Err("Failed to connect any channels: Failed to connect FL, Failed to connect FR".to_string())
    );
}

#[test]
fn active_sink_from_pactl() {
    assert_eq!(active_sink_name(b"Server Name: PulseAudio\nDefault Sink: alsa_output.pci \nDefault Source: x\n"), "alsa_output.pci");
    assert_eq!(active_sink_name(b"nothing\n"), "");
}

#[test]
fn reconnect_notices() {
    let v = reconnect_messages(&Err("a".to_string()), &Some(Err("b".to_string())));
    match (&v[0], &v[1]) {
        (MonitorNotice::Error(e), MonitorNotice::Status(s)) => {
            assert_eq!(e, "Manual reconnection failed: Manual connection also failed: b");
            assert_eq!(s, "BUTTON_RESET_ERROR:Manual connection also failed: b");
        }
        _ => panic!("unexpected notices"),
    }
    let ok = reconnect_messages(&Err("a".to_string()), &Some(Ok(())));
    assert!(matches!(&ok[1], MonitorNotice::Status(s) if s == "BUTTON_RESET"));
    match status_message_action("BUTTON_RESET_ERROR:boom") {
        StatusAction::ResetButton(Some(t)) => assert_eq!(t, "Failed to reconnect to PipeWire:\n\nboom"),
        _ => panic!("expected a dialog"),
    }
    assert!(matches!(status_message_action("BUTTON_RESET"), StatusAction::ResetButton(None)));
    assert!(matches!(status_message_action("Running"), StatusAction::Show(_)));
}

#[test]
fn monitoring_texts() {
    assert_eq!(status_blink("Mode", 8), "Mode ●");
    assert_eq!(status_blink("Mode", 9), "Mode ○");
    assert_eq!(
        device_info_text(&Ok("PipeWire: a".to_string()), &Err("none".to_string())),
        "Output: PipeWire: a\nInput: Error detecting input device: none"
    );
    assert_eq!(
        active_configuration_text(&AudioSettings::new(48000, 24, 512, "default".to_string())),
        "Active Configuration: 48000Hz, 24bit, 512 samples"
    );
}

#[test]
fn monitor_plan_only_where_plannable() {
    let listing = b"alsa_output.usb:monitor_FL\n";
    let plan = try_plan_monitor_links(listing, "").unwrap().unwrap();
    assert_eq!(plan.device, "alsa_output.usb");
    assert!(try_plan_monitor_links(b"monitor_FL\n", "").is_none());
    assert!(try_plan_monitor_links(b"", "").unwrap().is_err());
}

#[test]
fn running_flag_is_shared_with_the_monitor() {
    let monitor = PipeWireMonitor::new(false);
    let flag = monitor.running_flag();
    flag.store(true, std::sync::atomic::Ordering::SeqCst);
    assert!(monitor.is_running());
    monitor.stop();
    assert!(!flag.load(std::sync::atomic::Ordering::SeqCst));
}
