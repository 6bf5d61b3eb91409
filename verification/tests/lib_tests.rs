use pro_audio_config::audio::AudioSettings;

#[test]
fn test_module_structure() {
    let settings = AudioSettings::new(48000, 24, 512, "default".to_string());
    assert_eq!(settings.sample_rate, 48000);
    assert!(true, "Module structure should be valid");
}

#[test]
fn test_library_compiles_and_works() {
    let settings = AudioSettings::new(48000, 24, 512, "default".to_string());
    assert_eq!(settings.sample_rate, 48000);
    assert_eq!(settings.bit_depth, 24);
    assert_eq!(settings.buffer_size, 512);
}
