use pro_audio_config::apply::{after_service_check, aggressive_wait_policy, restart_wait_policy, WaitAction};
use pro_audio_config::apply::{privilege_next_step, start_services_by_hand, CommandOutcome, PrivilegeStep};
use pro_audio_config::apply::{
    advanced_audio_plan, advanced_diagnostic, advanced_settings_match,
    apply_input_audio_settings_with_auth_blocking, apply_output_audio_settings_with_auth_blocking,
    audio_services_report, auth_next_step, clock_readings, exclusive_next_step, quantum_verified,
    restart_commands, should_use_legacy_wireplumber_config, update_next_step, verify_settings_result,
    wireplumber_version_from, AdvancedAudioSettings, AdvancedPlan, AuthEvent, AuthStep, ClockReadings,
    ExclusiveStep, UpdateStep,
};
use pro_audio_config::audio::AudioSettings;

fn settings(rate: u32, depth: u32, buffer: u32) -> AudioSettings {
    AudioSettings::new(rate, depth, buffer, "default".to_string())
}

#[test]
fn test_advanced_audio_settings() {
    let advanced_settings = AdvancedAudioSettings {
        exclusive_mode: true,
        direct_hardware: true,
        low_latency: true,
        buffer_size: 128,
        sample_rate: 48000,
    };
    assert!(advanced_settings.exclusive_mode);
    assert!(advanced_settings.direct_hardware);
    assert!(advanced_settings.low_latency);
    assert_eq!(advanced_settings.buffer_size, 128);
    assert_eq!(advanced_settings.sample_rate, 48000);
}

#[test]
fn version_from_wireplumber_output() {
    let out = b"wireplumber\nCompiled with libpipewire 1.0.5\nLinked with libwireplumber 0.4.17\n";
    assert_eq!(wireplumber_version_from(Some(&out[..]), &vec![], false), Ok("0.4".to_string()));
    let out = b"WirePlumber v0.5.12\n";
    assert_eq!(wireplumber_version_from(Some(&out[..]), &vec![], false), Ok("0.5".to_string()));
}

#[test]
fn version_from_package_listing() {
    let listings = vec![None, Some(b"ii  wireplumber  0.4.13-1  amd64  session manager\n".to_vec())];
    assert_eq!(wireplumber_version_from(None, &listings, false), Ok("0.4".to_string()));
}

#[test]
fn version_fallbacks() {
    assert_eq!(wireplumber_version_from(Some(&b"nothing here\n"[..]), &vec![], true), Ok("0.5".to_string()));
    assert_eq!(
        wireplumber_version_from(None, &vec![None], false),
        Err("Could not detect WirePlumber version - WirePlumber may not be installed".to_string())
    );
}

#[test]
fn legacy_only_before_half() {
    assert!(should_use_legacy_wireplumber_config(&Ok("0.4".to_string())));
    assert!(!should_use_legacy_wireplumber_config(&Ok("0.5".to_string())));
    assert!(!should_use_legacy_wireplumber_config(&Ok("1.0".to_string())));
    assert!(!should_use_legacy_wireplumber_config(&Ok("0.10".to_string())));
    assert!(should_use_legacy_wireplumber_config(&Ok("0.4.17".to_string())));
    assert!(!should_use_legacy_wireplumber_config(&Ok("x.y".to_string())));
    assert!(!should_use_legacy_wireplumber_config(&Err("none".to_string())));
}

#[test]
fn auth_flow_falls_back_to_legacy() {
    let mut flow = apply_output_audio_settings_with_auth_blocking(settings(48000, 24, 512));
    assert_eq!(flow.stream_type, "output");
    assert!(matches!(flow.step, AuthStep::UpdateSystemWide));
    flow.advance(AuthEvent::Updated(Err("denied".to_string())));
    assert!(matches!(flow.step, AuthStep::CheckLegacy));
    flow.advance(AuthEvent::LegacyChecked(true));
    assert!(matches!(flow.step, AuthStep::ApplyLegacy));
    flow.advance(AuthEvent::LegacyApplied(Ok(())));
    assert!(matches!(flow.step, AuthStep::Done(Ok(()))));
}

#[test]
fn auth_flow_without_legacy_fails() {
    let mut flow = apply_input_audio_settings_with_auth_blocking(settings(44100, 16, 256));
    assert_eq!(flow.stream_type, "input");
    flow.advance(AuthEvent::Updated(Err("denied".to_string())));
    flow.advance(AuthEvent::LegacyChecked(false));
    match &flow.step {
        AuthStep::Done(Err(e)) => assert_eq!(
            e,
            "Legacy WirePlumber configuration not applicable for current WirePlumber version"
        ),
        _ => panic!("expected an error"),
    }
    let done = auth_next_step(&AuthStep::UpdateSystemWide, AuthEvent::Updated(Ok(())));
    assert!(matches!(done, AuthStep::Done(Ok(()))));
}

#[test]
fn update_flow_order() {
    let s = update_next_step(&UpdateStep::Cleanup, Ok(()));
    assert!(matches!(s, UpdateStep::WriteFragment));
    let s = update_next_step(&s, Err("no".to_string()));
    assert!(matches!(s, UpdateStep::WriteWirePlumber));
    let s = update_next_step(&s, Err("no".to_string()));
    assert!(matches!(s, UpdateStep::ModifyMainConfig));
    let failed = update_next_step(&s, Err("missing".to_string()));
    match failed {
        UpdateStep::Done(Err(e)) => assert_eq!(e, "All configuration approaches failed: missing"),
        _ => panic!("expected failure"),
    }
    let s = update_next_step(&s, Ok(()));
    assert!(matches!(s, UpdateStep::Restart));
    let s = update_next_step(&s, Ok(()));
    assert!(matches!(s, UpdateStep::Verify));
    let s = update_next_step(&s, Ok(()));
    assert!(matches!(s, UpdateStep::Done(Ok(()))));
}

#[test]
fn exclusive_flow_order() {
    let s = exclusive_next_step(&ExclusiveStep::WritePipeWire, Err("a".to_string()));
    assert!(matches!(s, ExclusiveStep::WriteWirePlumber));
    match exclusive_next_step(&s, Err("b".to_string())) {
        ExclusiveStep::Done(Err(e)) => assert_eq!(e, "All exclusive mode approaches failed: b"),
        _ => panic!("expected failure"),
    }
    let s = exclusive_next_step(&s, Ok(()));
    assert!(matches!(s, ExclusiveStep::Restart));
    assert!(matches!(exclusive_next_step(&s, Ok(())), ExclusiveStep::Done(Ok(()))));
    assert!(matches!(advanced_audio_plan(true), AdvancedPlan::Exclusive(ExclusiveStep::WritePipeWire)));
    assert!(matches!(advanced_audio_plan(false), AdvancedPlan::RestoreShared));
}

#[test]
fn settings_check() {
    let expected = settings(48000, 24, 512);
    assert_eq!(verify_settings_result(&expected, &Ok(settings(48000, 24, 700))), Ok(()));
    assert_eq!(
        verify_settings_result(&expected, &Ok(settings(44100, 24, 512))),
        Err("Sample rate not applied: expected 48000Hz, got 44100Hz".to_string())
    );
    assert_eq!(
        verify_settings_result(&expected, &Ok(settings(48000, 24, 1024))),
        Err("Buffer size significantly different: expected 512, got 1024".to_string())
    );
    assert_eq!(
        verify_settings_result(&expected, &Err("pw-cli missing".to_string())),
        Err("Failed to detect current settings for verification: pw-cli missing".to_string())
    );
}

#[test]
fn clock_readings_of_pw_cli() {
    let info = b"  * default.clock.rate = \"96000\"\n  * default.clock.quantum = \"256\"\n    default.clock.quantum-floor = \"4\"\n";
    let plain = clock_readings(info, false);
    assert_eq!(plain, ClockReadings { rate: Some(96000), quantum: Some(4) });
    let starred = clock_readings(info, true);
    assert_eq!(starred, ClockReadings { rate: Some(96000), quantum: Some(256) });
    let s = settings(96000, 24, 256);
    assert!(advanced_settings_match(&starred, &s));
    assert!(!quantum_verified(&plain, &s));
    assert!(quantum_verified(&starred, &s));
}

#[test]
fn diagnostic_lists_readings() {
    let readings = ClockReadings { rate: None, quantum: Some(128) };
    let text = advanced_diagnostic(&readings, &settings(48000, 24, 256), "/etc/pipewire/pipewire.conf.d", true);
    assert!(text.contains("- Sample Rate: 0Hz (expected: 48000Hz)"));
    assert!(text.contains("- Buffer Size: 128 samples (expected: 256 samples)"));
    assert!(text.contains("- System-wide: true"));
    assert!(text.contains("cat /etc/pipewire/pipewire.conf.d/99-pro-audio-advanced.conf"));
}

#[test]
fn restart_plans() {
    let sys = restart_commands(false, true, true, "ann");
    assert_eq!(sys.len(), 1);
    assert_eq!(sys[0].program, "sudo");
    assert_eq!(sys[0].args, vec!["-u", "ann", "systemctl", "--user", "restart", "pipewire", "pipewire-pulse", "wireplumber"]);
    assert_eq!(sys[0].failure.as_deref(), Some("Failed to restart user audio services via systemd"));
    let legacy = restart_commands(true, false, true, "ann");
    assert_eq!(legacy.len(), 3);
    assert_eq!(legacy[1].args, vec!["--user", "restart", "pipewire-pulse"]);
    assert_eq!(legacy[1].failure, None);
    let fallback = restart_commands(false, false, false, "ann");
    assert_eq!(fallback[0].program, "pkill");
    assert_eq!(fallback[1].args, vec!["-f", "wireplumber"]);
}

#[test]
fn services_report() {
    assert_eq!(audio_services_report(true, true, true), Ok(()));
    assert_eq!(
        audio_services_report(false, true, false),
        Err("Missing audio services: pipewire, wireplumber".to_string())
    );
}

#[test]
fn privilege_escalation_order() {
    let s = privilege_next_step(&PrivilegeStep::Pkexec, CommandOutcome::Ran(false));
    assert!(matches!(s, PrivilegeStep::Sudo));
    let s = privilege_next_step(&PrivilegeStep::Pkexec, CommandOutcome::Ran(true));
    assert!(matches!(s, PrivilegeStep::Done(Ok(()))));
    match privilege_next_step(&PrivilegeStep::Sudo, CommandOutcome::Ran(false)) {
        PrivilegeStep::Done(Err(e)) => {
            assert_eq!(e, "Privilege escalation failed. Please run as root or configure sudo/pkexec.")
        }
        _ => panic!("sudo failure must end the attempt"),
    }
    match privilege_next_step(&PrivilegeStep::Pkexec, CommandOutcome::NotStarted("missing".to_string())) {
        PrivilegeStep::Done(Err(e)) => {
            assert_eq!(e, "Failed to execute with pkexec: missing. Make sure pkexec is available.")
        }
        _ => panic!("a helper that cannot start ends the attempt"),
    }
    match privilege_next_step(&PrivilegeStep::Sudo, CommandOutcome::NotStarted("gone".to_string())) {
        PrivilegeStep::Done(Err(e)) => {
            assert_eq!(e, "Failed to execute with sudo: gone. Please run with administrator privileges.")
        }
        _ => panic!("a helper that cannot start ends the attempt"),
    }
    assert!(start_services_by_hand(0));
    assert!(!start_services_by_hand(1));
    assert!(!start_services_by_hand(2));
    assert!(start_services_by_hand(3));
}

#[test]
fn service_wait_policies() {
    let normal = restart_wait_policy();
    assert_eq!((normal.max_checks, normal.pause_ms, normal.start_by_hand), (20, 500, false));
    assert_eq!(after_service_check(&normal, 0, true), WaitAction::Running);
    assert_eq!(
        after_service_check(&normal, 2, false),
        WaitAction::Failed { failed: 3, pause_ms: 500, start_by_hand: false, give_up: false }
    );
    assert_eq!(
        after_service_check(&normal, 19, false),
        WaitAction::Failed { failed: 20, pause_ms: 500, start_by_hand: false, give_up: true }
    );
    let forced = aggressive_wait_policy();
    assert_eq!(
        after_service_check(&forced, 2, false),
        WaitAction::Failed { failed: 3, pause_ms: 1000, start_by_hand: true, give_up: false }
    );
    assert_eq!(
        after_service_check(&forced, 3, false),
        WaitAction::Failed { failed: 4, pause_ms: 1000, start_by_hand: false, give_up: false }
    );
    assert_eq!(
        after_service_check(&forced, 9, false),
        WaitAction::Failed { failed: 10, pause_ms: 1000, start_by_hand: false, give_up: true }
    );
}
