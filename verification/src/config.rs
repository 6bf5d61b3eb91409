//! Configuration files for PipeWire and WirePlumber: their text, the
//! choices made while applying settings, and the readings of what the
//! services report back.

use vstd::prelude::*;
use crate::audio::{AudioSettings, audio_format, format_of, dec_int, push_int, is_lit};
use crate::text::{
    Strip, chars_of, contains, contains_of, deep, eq_chars, lines, lines_of, replace, replace_of,
    copy_of, dec, parse_u32, parse_u32_of, push_chars, push_dec, push_str, split_by,
    split_of, string_of, trim, trim_matches, trim_matches_of, trim_of, trim_start_by,
    trim_start_of,
};

verus! {

broadcast use vstd::string::group_string_axioms;

/// The legacy `device.name` pattern: `alsa.*` for the default device,
/// otherwise the device id itself.
pub open spec fn legacy_pattern(id: Seq<char>) -> Seq<char> {
    if id == "default"@ {
        "alsa.*"@
    } else {
        id
    }
}

fn legacy_pattern_of(id: &String) -> (p: Vec<char>)
    ensures
        p@ == legacy_pattern(id@),
{
    let v = chars_of(id.as_str());
    if is_lit(&v, "default") {
        chars_of("alsa.*")
    } else {
        v
    }
}

/// The modern `device.name` pattern: the regular expression `~alsa.*` for
/// the default device, otherwise the device id itself.
pub open spec fn modern_pattern(id: Seq<char>) -> Seq<char> {
    if id == "default"@ {
        "~alsa.*"@
    } else {
        id
    }
}

fn modern_pattern_of(id: &String) -> (p: Vec<char>)
    ensures
        p@ == modern_pattern(id@),
{
    let v = chars_of(id.as_str());
    if is_lit(&v, "default") {
        chars_of("~alsa.*")
    } else {
        v
    }
}

/// `true` or `false`, as a configuration value.
pub open spec fn bool_text(b: bool) -> Seq<char> {
    if b {
        "true"@
    } else {
        "false"@
    }
}

pub(crate) fn push_bool(out: &mut Vec<char>, b: bool)
    ensures
        final(out)@ == old(out)@ + bool_text(b),
{
    if b {
        push_str(out, "true");
    } else {
        push_str(out, "false");
    }
}

/// Seconds of idle time before a node is suspended: none when suspension is
/// prevented, five otherwise.
pub open spec fn suspend_timeout(prevent_suspend: bool) -> Seq<char> {
    if prevent_suspend {
        "0"@
    } else {
        "5"@
    }
}

/// The nice level and real-time priority of a thread priority name:
/// `normal`, `high`, `realtime`, and `high` for any other name.
pub open spec fn priority_levels(thread_priority: Seq<char>) -> (int, int) {
    if thread_priority == "normal"@ {
        (-11, 88)
    } else if thread_priority == "realtime"@ {
        (-20, 99)
    } else {
        (-15, 90)
    }
}

pub fn thread_priority_levels(thread_priority: &str) -> (levels: (i32, i32))
    ensures
        levels.0 as int == priority_levels(thread_priority@).0,
        levels.1 as int == priority_levels(thread_priority@).1,
{
    let p = chars_of(thread_priority);
    if is_lit(&p, "normal") {
        (-11, 88)
    } else if is_lit(&p, "realtime") {
        (-20, 99)
    } else {
        (-15, 90)
    }
}

/// The sample format of the exclusive mode: 32 bit for low latency, 24 bit
/// otherwise.
pub open spec fn exclusive_format(low_latency: bool) -> Seq<char> {
    if low_latency {
        "S32LE"@
    } else {
        "S24LE"@
    }
}

pub const LEGACY_WP_0: &'static str = r#"-- Pro Audio Config Legacy Lua Configuration
-- For WirePlumber versions < 0.5
-- Auto-generated for "#;
pub const LEGACY_WP_1: &'static str = r#" settings

alsa_monitor.rules = {
  {
    matches = {
      {
        { "device.name", "matches", ""#;
pub const LEGACY_WP_2: &'static str = r#"" },
      },
    },
    apply_properties = {
      ["audio.format"] = ""#;
pub const LEGACY_WP_3: &'static str = r#"",
      ["audio.rate"] = "#;
pub const LEGACY_WP_4: &'static str = r#",
      ["api.alsa.period-size"] = "#;
pub const LEGACY_WP_5: &'static str = r#",
      ["api.alsa.period-num"] = 2,
      ["api.alsa.headroom"] = 8192,
    },
  }
}
"#;

/// The Lua rule file for WirePlumber before 0.5: the stream type in its
/// header, then the device pattern, format, rate and period size.
pub open spec fn legacy_wireplumber_text(settings: AudioSettings, stream_type: Seq<char>) -> Seq<char> {
    LEGACY_WP_0@
        + stream_type
        + LEGACY_WP_1@
        + legacy_pattern(settings.device_id@)
        + LEGACY_WP_2@
        + format_of(settings.bit_depth)
        + LEGACY_WP_3@
        + dec(settings.sample_rate as nat)
        + LEGACY_WP_4@
        + dec(settings.buffer_size as nat)
        + LEGACY_WP_5@
}

/// Builds [`legacy_wireplumber_text`].
pub fn generate_legacy_wireplumber_config(settings: &AudioSettings, stream_type: &str) -> (config: String)
    ensures
        config@ == legacy_wireplumber_text(*settings, stream_type@),
{
    let mut out: Vec<char> = Vec::new();
    let stream = chars_of(stream_type);
    let pattern = legacy_pattern_of(&settings.device_id);
    push_str(&mut out, LEGACY_WP_0);
    push_chars(&mut out, &stream);
    push_str(&mut out, LEGACY_WP_1);
    push_chars(&mut out, &pattern);
    push_str(&mut out, LEGACY_WP_2);
    push_str(&mut out, audio_format(settings.bit_depth));
    push_str(&mut out, LEGACY_WP_3);
    push_dec(&mut out, settings.sample_rate as u64);
    push_str(&mut out, LEGACY_WP_4);
    push_dec(&mut out, settings.buffer_size as u64);
    push_str(&mut out, LEGACY_WP_5);
    string_of(&out)
}

pub const MODERN_WP_0: &'static str = r#"{
  "alsa-monitor": {
    "rules": [
      {
        "matches": [
          {
            "device.name": ""#;
pub const MODERN_WP_1: &'static str = r#""
          }
        ],
        "actions": [
          {
            "update-props": {
              "audio.format": ""#;
pub const MODERN_WP_2: &'static str = r#"",
              "audio.rate": "#;
pub const MODERN_WP_3: &'static str = r#",
              "api.alsa.period-size": "#;
pub const MODERN_WP_4: &'static str = r#",
              "api.alsa.period-num": 2,
              "api.alsa.headroom": 8192
            }
          }
        ]
      }
    ]
  }
}"#;

/// The JSON rule file for WirePlumber 0.5 and later (the stream type does
/// not enter it).
pub open spec fn wireplumber_text(settings: AudioSettings) -> Seq<char> {
    MODERN_WP_0@
        + modern_pattern(settings.device_id@)
        + MODERN_WP_1@
        + format_of(settings.bit_depth)
        + MODERN_WP_2@
        + dec(settings.sample_rate as nat)
        + MODERN_WP_3@
        + dec(settings.buffer_size as nat)
        + MODERN_WP_4@
}

/// Builds [`wireplumber_text`].
pub fn generate_wireplumber_config(settings: &AudioSettings, stream_type: &str) -> (config: String)
    ensures
        config@ == wireplumber_text(*settings),
{
    let mut out: Vec<char> = Vec::new();
    let pattern = modern_pattern_of(&settings.device_id);
    push_str(&mut out, MODERN_WP_0);
    push_chars(&mut out, &pattern);
    push_str(&mut out, MODERN_WP_1);
    push_str(&mut out, audio_format(settings.bit_depth));
    push_str(&mut out, MODERN_WP_2);
    push_dec(&mut out, settings.sample_rate as u64);
    push_str(&mut out, MODERN_WP_3);
    push_dec(&mut out, settings.buffer_size as u64);
    push_str(&mut out, MODERN_WP_4);
    string_of(&out)
}

pub const FRAGMENT_0: &'static str = r#"# Pro Audio Config - High Priority Settings
# This file overrides default PipeWire settings

context.properties = {
    default.clock.rate = "#;
pub const FRAGMENT_1: &'static str = r#"
    default.clock.quantum = "#;
pub const FRAGMENT_2: &'static str = r#"
    default.clock.allowed-rates = [ "#;
pub const FRAGMENT_3: &'static str = r#" ]
    # Disable rate/quantum checking to ensure our settings are applied
    settings.check-quantum = false
    settings.check-rate = false
    # Force settings to be used
    default.clock.force-quantum = "#;
pub const FRAGMENT_4: &'static str = r#"
    default.clock.force-rate = "#;
pub const FRAGMENT_5: &'static str = r#"
}

context.modules = [
    {
        name = libpipewire-module-rt
        args = {
            nice.level = -11
            rt.prio = 88
            rt.time.soft = 200000
            rt.time.hard = 200000
        }
        flags = [ ifexists nofail ]
    }
]"#;

/// The high-priority PipeWire fragment that forces the rate and quantum.
pub open spec fn pipewire_fragment_text(settings: AudioSettings) -> Seq<char> {
    FRAGMENT_0@
        + dec(settings.sample_rate as nat)
        + FRAGMENT_1@
        + dec(settings.buffer_size as nat)
        + FRAGMENT_2@
        + dec(settings.sample_rate as nat)
        + FRAGMENT_3@
        + dec(settings.buffer_size as nat)
        + FRAGMENT_4@
        + dec(settings.sample_rate as nat)
        + FRAGMENT_5@
}

/// Builds [`pipewire_fragment_text`].
pub fn pipewire_fragment_content(settings: &AudioSettings) -> (config: String)
    ensures
        config@ == pipewire_fragment_text(*settings),
{
    let mut out: Vec<char> = Vec::new();
    push_str(&mut out, FRAGMENT_0);
    push_dec(&mut out, settings.sample_rate as u64);
    push_str(&mut out, FRAGMENT_1);
    push_dec(&mut out, settings.buffer_size as u64);
    push_str(&mut out, FRAGMENT_2);
    push_dec(&mut out, settings.sample_rate as u64);
    push_str(&mut out, FRAGMENT_3);
    push_dec(&mut out, settings.buffer_size as u64);
    push_str(&mut out, FRAGMENT_4);
    push_dec(&mut out, settings.sample_rate as u64);
    push_str(&mut out, FRAGMENT_5);
    string_of(&out)
}

pub const ADVANCED_0: &'static str = r#"# Pro Audio Config - Quantum Floor Override
# This OVERRIDES default.clock.quantum-floor = 4

context.properties = {
    # CORE SETTINGS - MUST override quantum-floor
    default.clock.rate = "#;
pub const ADVANCED_1: &'static str = r#"
    default.clock.quantum = "#;
pub const ADVANCED_2: &'static str = r#"
    default.clock.allowed-rates = [ "#;
pub const ADVANCED_3: &'static str = r#" ]

    # CRITICAL: Override the quantum-floor that's blocking our settings
    default.clock.quantum-floor = "#;
pub const ADVANCED_4: &'static str = r#"
    default.clock.min-quantum = "#;
pub const ADVANCED_5: &'static str = r#"
    default.clock.max-quantum = "#;
pub const ADVANCED_6: &'static str = r#"
    default.clock.quantum-limit = "#;
pub const ADVANCED_7: &'static str = r#"

    # Force settings (if supported by your PipeWire version)
    default.clock.force-quantum = "#;
pub const ADVANCED_8: &'static str = r#"
    default.clock.force-rate = "#;
pub const ADVANCED_9: &'static str = r#"

    # Clock source
    default.clock.source = ""#;
pub const ADVANCED_10: &'static str = r#""

    # DISABLE all quantum checking
    settings.check-quantum = false
    settings.check-rate = false
    settings.check-quantum-limit = false
    settings.check-quantum-floor = false

    # Memory settings
    mem.warn-mlock = "#;
pub const ADVANCED_11: &'static str = r#"
    mem.allow-mlock = "#;
pub const ADVANCED_12: &'static str = r#"

    # Resampler
    resample.quality = ""#;
pub const ADVANCED_13: &'static str = r#""

    # Thread settings
    cpu.zero.denormals = true

    # Session
    session.suspend-timeout-seconds = "#;
pub const ADVANCED_14: &'static str = r#"

    # Stream settings
    stream.dont-remix = "#;
pub const ADVANCED_15: &'static str = r#"
    stream.dont-resample = "#;
pub const ADVANCED_16: &'static str = r#"

    # Additional overrides
    link.max-buffers = 64
    core.daemon = true

    # DEBUG: Add properties to verify our config is loaded
    pro-audio-config.rate = "#;
pub const ADVANCED_17: &'static str = r#"
    pro-audio-config.quantum = "#;
pub const ADVANCED_18: &'static str = r#"
    pro-audio-config.version = "1.8"
}

# Real-time module
context.modules = [
    {
        name = libpipewire-module-rt
        args = {
            nice.level = "#;
pub const ADVANCED_19: &'static str = r#"
            rt.prio = "#;
pub const ADVANCED_20: &'static str = r#"
            rt.time.soft = 100000
            rt.time.hard = 100000
        }
        flags = [ ifexists nofail ]
    }
]

# Debug object to verify settings
context.objects = [
    {
        factory = adapter
        args = {
            factory.name     = support.null-audio-sink
            node.name        = "quantum-test-"#;
pub const ADVANCED_21: &'static str = r#""
            node.description = "Quantum Test: "#;
pub const ADVANCED_22: &'static str = r#" samples @ "#;
pub const ADVANCED_23: &'static str = r#"Hz"
            media.class      = "Audio/Sink"
            audio.rate       = "#;
pub const ADVANCED_24: &'static str = r#"
            audio.position   = [ FL, FR ]
            audio.channels   = 2
            audio.format     = "S"#;
pub const ADVANCED_25: &'static str = r#"LE"
            # High priority to ensure it's visible
            priority.session = 9999,
            # Add our quantum to node properties
            node.quantum = "#;
pub const ADVANCED_26: &'static str = r#",
            node.lock-quantum = true
        }
    }
]
"#;

/// The quantum-override fragment of the advanced settings: clock, limits
/// (the minimum and maximum quantum are the chosen buffer size range),
/// memory, resampler, suspend and stream properties, the real-time module at
/// the levels of the thread priority, and a test node.
pub open spec fn advanced_fragment_text(settings: AudioSettings, min_buffer: u32, max_buffer: u32, thread_priority: Seq<char>, memory_lock: bool, prevent_suspend: bool, disable_remixing: bool, disable_resampling: bool, resampler_quality: Seq<char>, clock_source: Seq<char>) -> Seq<char> {
    ADVANCED_0@
        + dec(settings.sample_rate as nat)
        + ADVANCED_1@
        + dec(settings.buffer_size as nat)
        + ADVANCED_2@
        + dec(settings.sample_rate as nat)
        + ADVANCED_3@
        + dec(settings.buffer_size as nat)
        + ADVANCED_4@
        + dec(min_buffer as nat)
        + ADVANCED_5@
        + dec(max_buffer as nat)
        + ADVANCED_6@
        + dec((settings.buffer_size * 4) as nat)
        + ADVANCED_7@
        + dec(settings.buffer_size as nat)
        + ADVANCED_8@
        + dec(settings.sample_rate as nat)
        + ADVANCED_9@
        + clock_source
        + ADVANCED_10@
        + bool_text(!memory_lock)
        + ADVANCED_11@
        + bool_text(memory_lock)
        + ADVANCED_12@
        + resampler_quality
        + ADVANCED_13@
        + suspend_timeout(prevent_suspend)
        + ADVANCED_14@
        + bool_text(disable_remixing)
        + ADVANCED_15@
        + bool_text(disable_resampling)
        + ADVANCED_16@
        + dec(settings.sample_rate as nat)
        + ADVANCED_17@
        + dec(settings.buffer_size as nat)
        + ADVANCED_18@
        + dec_int(priority_levels(thread_priority).0)
        + ADVANCED_19@
        + dec_int(priority_levels(thread_priority).1)
        + ADVANCED_20@
        + dec(settings.buffer_size as nat)
        + ADVANCED_21@
        + dec(settings.buffer_size as nat)
        + ADVANCED_22@
        + dec(settings.sample_rate as nat)
        + ADVANCED_23@
        + dec(settings.sample_rate as nat)
        + ADVANCED_24@
        + dec(settings.bit_depth as nat)
        + ADVANCED_25@
        + dec(settings.buffer_size as nat)
        + ADVANCED_26@
}

/// Builds [`advanced_fragment_text`] (the buffer size times four must fit in
/// `u32`, as the limits are computed in `u32`).
pub fn advanced_fragment_content(
    settings: &AudioSettings,
    min_buffer: u32,
    max_buffer: u32,
    thread_priority: &str,
    memory_lock: bool,
    prevent_suspend: bool,
    disable_remixing: bool,
    disable_resampling: bool,
    resampler_quality: &str,
    clock_source: &str,
) -> (config: String)
    requires
        settings.buffer_size * 4 <= u32::MAX,
    ensures
        config@ == advanced_fragment_text(
            *settings,
            min_buffer,
            max_buffer,
            thread_priority@,
            memory_lock,
            prevent_suspend,
            disable_remixing,
            disable_resampling,
            resampler_quality@,
            clock_source@,
        ),
{
    let mut out: Vec<char> = Vec::new();
    let clock = chars_of(clock_source);
    let resampler = chars_of(resampler_quality);
    let levels = thread_priority_levels(thread_priority);
    push_str(&mut out, ADVANCED_0);
    push_dec(&mut out, settings.sample_rate as u64);
    push_str(&mut out, ADVANCED_1);
    push_dec(&mut out, settings.buffer_size as u64);
    push_str(&mut out, ADVANCED_2);
    push_dec(&mut out, settings.sample_rate as u64);
    push_str(&mut out, ADVANCED_3);
    push_dec(&mut out, settings.buffer_size as u64);
    push_str(&mut out, ADVANCED_4);
    push_dec(&mut out, min_buffer as u64);
    push_str(&mut out, ADVANCED_5);
    push_dec(&mut out, max_buffer as u64);
    push_str(&mut out, ADVANCED_6);
    push_dec(&mut out, (settings.buffer_size as u64) * 4);
    push_str(&mut out, ADVANCED_7);
    push_dec(&mut out, settings.buffer_size as u64);
    push_str(&mut out, ADVANCED_8);
    push_dec(&mut out, settings.sample_rate as u64);
    push_str(&mut out, ADVANCED_9);
    push_chars(&mut out, &clock);
    push_str(&mut out, ADVANCED_10);
    push_bool(&mut out, !memory_lock);
    push_str(&mut out, ADVANCED_11);
    push_bool(&mut out, memory_lock);
    push_str(&mut out, ADVANCED_12);
    push_chars(&mut out, &resampler);
    push_str(&mut out, ADVANCED_13);
    push_str(&mut out, if prevent_suspend { "0" } else { "5" });
    push_str(&mut out, ADVANCED_14);
    push_bool(&mut out, disable_remixing);
    push_str(&mut out, ADVANCED_15);
    push_bool(&mut out, disable_resampling);
    push_str(&mut out, ADVANCED_16);
    push_dec(&mut out, settings.sample_rate as u64);
    push_str(&mut out, ADVANCED_17);
    push_dec(&mut out, settings.buffer_size as u64);
    push_str(&mut out, ADVANCED_18);
    push_int(&mut out, levels.0);
    push_str(&mut out, ADVANCED_19);
    push_int(&mut out, levels.1);
    push_str(&mut out, ADVANCED_20);
    push_dec(&mut out, settings.buffer_size as u64);
    push_str(&mut out, ADVANCED_21);
    push_dec(&mut out, settings.buffer_size as u64);
    push_str(&mut out, ADVANCED_22);
    push_dec(&mut out, settings.sample_rate as u64);
    push_str(&mut out, ADVANCED_23);
    push_dec(&mut out, settings.sample_rate as u64);
    push_str(&mut out, ADVANCED_24);
    push_dec(&mut out, settings.bit_depth as u64);
    push_str(&mut out, ADVANCED_25);
    push_dec(&mut out, settings.buffer_size as u64);
    push_str(&mut out, ADVANCED_26);
    string_of(&out)
}

pub const WP_RULES_0: &'static str = r#"{
  "monitor.alsa.rules": [
    {
      "matches": [
        {
          "node.name": "~alsa.*"
        }
      ],
      "actions": {
        "update-props": {
          "audio.rate": "#;
pub const WP_RULES_1: &'static str = r#",
          "audio.allowed-rates": [ "#;
pub const WP_RULES_2: &'static str = r#" ],
          "api.alsa.period-size": "#;
pub const WP_RULES_3: &'static str = r#"
        }
      }
    }
  ]
}"#;

/// The WirePlumber `monitor.alsa.rules` file that the fallback approach writes.
pub open spec fn wireplumber_rules_text(settings: AudioSettings) -> Seq<char> {
    WP_RULES_0@
        + dec(settings.sample_rate as nat)
        + WP_RULES_1@
        + dec(settings.sample_rate as nat)
        + WP_RULES_2@
        + dec(settings.buffer_size as nat)
        + WP_RULES_3@
}

/// Builds [`wireplumber_rules_text`].
pub fn wireplumber_rules_content(settings: &AudioSettings) -> (config: String)
    ensures
        config@ == wireplumber_rules_text(*settings),
{
    let mut out: Vec<char> = Vec::new();
    push_str(&mut out, WP_RULES_0);
    push_dec(&mut out, settings.sample_rate as u64);
    push_str(&mut out, WP_RULES_1);
    push_dec(&mut out, settings.sample_rate as u64);
    push_str(&mut out, WP_RULES_2);
    push_dec(&mut out, settings.buffer_size as u64);
    push_str(&mut out, WP_RULES_3);
    string_of(&out)
}

pub const WP_DEVICE_0: &'static str = r#"{
  "alsa-monitor": {
    "rules": [
      {
        "matches": [
          {
            "node.name": "~alsa.*"
          }
        ],
        "actions": {
          "update-props": {
            "api.alsa.period-size": "#;
pub const WP_DEVICE_1: &'static str = r#",
            "api.alsa.period-num": 2,
            "api.alsa.headroom": 4096,
            "api.alsa.disable-batch": true,
            "api.alsa.use-acp": true,
            "api.alsa.disable-mmap": false,
            "api.alsa.disable-tsched": false,
            "audio.format": "S"#;
pub const WP_DEVICE_2: &'static str = r#"LE",
            "audio.rate": "#;
pub const WP_DEVICE_3: &'static str = r#",
            "audio.allowed-rates": [ "#;
pub const WP_DEVICE_4: &'static str = r#" ],
            "audio.channels": 2,
            "audio.position": [ "FL", "FR" ],
            "priority.driver": 200,
            "priority.session": 200,
            "device.suspend-on-idle": false,
            "node.description": "Pro Audio Device (Configured)"
          }
        }
      }
    ]
  }
}"#;

/// The WirePlumber device rules for professional use.
pub open spec fn wireplumber_device_text(settings: AudioSettings) -> Seq<char> {
    WP_DEVICE_0@
        + dec(settings.buffer_size as nat)
        + WP_DEVICE_1@
        + dec(settings.bit_depth as nat)
        + WP_DEVICE_2@
        + dec(settings.sample_rate as nat)
        + WP_DEVICE_3@
        + dec(settings.sample_rate as nat)
        + WP_DEVICE_4@
}

/// Builds [`wireplumber_device_text`].
pub fn wireplumber_device_content(settings: &AudioSettings) -> (config: String)
    ensures
        config@ == wireplumber_device_text(*settings),
{
    let mut out: Vec<char> = Vec::new();
    push_str(&mut out, WP_DEVICE_0);
    push_dec(&mut out, settings.buffer_size as u64);
    push_str(&mut out, WP_DEVICE_1);
    push_dec(&mut out, settings.bit_depth as u64);
    push_str(&mut out, WP_DEVICE_2);
    push_dec(&mut out, settings.sample_rate as u64);
    push_str(&mut out, WP_DEVICE_3);
    push_dec(&mut out, settings.sample_rate as u64);
    push_str(&mut out, WP_DEVICE_4);
    string_of(&out)
}

pub const EXCL_DIRECT_0: &'static str = r#"# Pro Audio Config - Exclusive Direct Hardware Access
# This configuration enables ASIO-like exclusive mode

context.properties = {
    default.clock.rate = "#;
pub const EXCL_DIRECT_1: &'static str = r#"
    default.clock.quantum = "#;
pub const EXCL_DIRECT_2: &'static str = r#"
    default.clock.allowed-rates = [ "#;
pub const EXCL_DIRECT_3: &'static str = r#" ]
    # Use standard rate checking to avoid crashes
    settings.check-quantum = true
    settings.check-rate = true
    # Force our settings
    default.clock.force-quantum = "#;
pub const EXCL_DIRECT_4: &'static str = r#"
    default.clock.force-rate = "#;
pub const EXCL_DIRECT_5: &'static str = r#"
}

# Configure for low latency with safe defaults
context.modules = [
    {
        name = libpipewire-module-rt
        args = {
            nice.level = -11    # Reduced from -20 to avoid permission issues
            rt.prio = 80        # Reduced from 88 to avoid permission issues
            rt.time.soft = 200000  # Increased from 100000 for better compatibility
            rt.time.hard = 200000  # Increased from 100000 for better compatibility
        }
        flags = [ ifexists nofail ]
    }
]

# Node configuration for exclusive access
node.factory = {
    args = {
        node.name = "pro-audio-exclusive-node"
        node.description = "Pro Audio Exclusive Mode"
        media.class = "Audio/Sink"
        audio.format = ""#;
pub const EXCL_DIRECT_6: &'static str = r#""
        audio.rate = "#;
pub const EXCL_DIRECT_7: &'static str = r#"
        audio.allowed-rates = [ "#;
pub const EXCL_DIRECT_8: &'static str = r#" ]
        audio.channels = 2
        audio.position = [ FL, FR ]
        priority.driver = 100
        session.suspend-timeout-seconds = 10  # ADDED: Allow timeout for recovery
    }
}

# Add fallback mechanism
context.spa-libs = {
    # Ensure standard libraries are available
    api.alsa.* = alsa/libspa-alsa
    api.v4l2.* = v4l2/libspa-v4l2
}
"#;

/// The exclusive-mode fragment with direct hardware access.
pub open spec fn exclusive_direct_text(low_latency: bool, buffer_size: u32, sample_rate: u32) -> Seq<char> {
    EXCL_DIRECT_0@
        + dec(sample_rate as nat)
        + EXCL_DIRECT_1@
        + dec(buffer_size as nat)
        + EXCL_DIRECT_2@
        + dec(sample_rate as nat)
        + EXCL_DIRECT_3@
        + dec(buffer_size as nat)
        + EXCL_DIRECT_4@
        + dec(sample_rate as nat)
        + EXCL_DIRECT_5@
        + exclusive_format(low_latency)
        + EXCL_DIRECT_6@
        + dec(sample_rate as nat)
        + EXCL_DIRECT_7@
        + dec(sample_rate as nat)
        + EXCL_DIRECT_8@
}

fn exclusive_direct_content(low_latency: bool, buffer_size: u32, sample_rate: u32) -> (config: String)
    ensures
        config@ == exclusive_direct_text(low_latency, buffer_size, sample_rate),
{
    let mut out: Vec<char> = Vec::new();
    push_str(&mut out, EXCL_DIRECT_0);
    push_dec(&mut out, sample_rate as u64);
    push_str(&mut out, EXCL_DIRECT_1);
    push_dec(&mut out, buffer_size as u64);
    push_str(&mut out, EXCL_DIRECT_2);
    push_dec(&mut out, sample_rate as u64);
    push_str(&mut out, EXCL_DIRECT_3);
    push_dec(&mut out, buffer_size as u64);
    push_str(&mut out, EXCL_DIRECT_4);
    push_dec(&mut out, sample_rate as u64);
    push_str(&mut out, EXCL_DIRECT_5);
    push_str(&mut out, if low_latency { "S32LE" } else { "S24LE" });
    push_str(&mut out, EXCL_DIRECT_6);
    push_dec(&mut out, sample_rate as u64);
    push_str(&mut out, EXCL_DIRECT_7);
    push_dec(&mut out, sample_rate as u64);
    push_str(&mut out, EXCL_DIRECT_8);
    string_of(&out)
}

pub const EXCL_SHARED_0: &'static str = r#"# Pro Audio Config - Exclusive PipeWire Access
# This configuration enables exclusive mode with PipeWire processing

context.properties = {
    default.clock.rate = "#;
pub const EXCL_SHARED_1: &'static str = r#"
    default.clock.quantum = "#;
pub const EXCL_SHARED_2: &'static str = r#"
    default.clock.allowed-rates = [ "#;
pub const EXCL_SHARED_3: &'static str = r#" ]
    # Minimal processing for low latency
    settings.check-quantum = true
    settings.check-rate = true
    # Force our settings
    default.clock.force-quantum = "#;
pub const EXCL_SHARED_4: &'static str = r#"
    default.clock.force-rate = "#;
pub const EXCL_SHARED_5: &'static str = r#"
}

context.modules = [
    {
        name = libpipewire-module-rt
        args = {
            nice.level = -15
            rt.prio = 80
            rt.time.soft = 200000
            rt.time.hard = 200000
        }
        flags = [ ifexists nofail ]
    }
]

# Reserve device for exclusive use with specific pattern
device.rules = [
    {
        matches = [
            { "device.name", "matches", "alsa.*" }
        ],
        actions = {
            update-props = {
                device.profile = "pro-audio"
                api.alsa.disable-batch = true
                api.alsa.use-acp = false
                api.alsa.headroom = "#;
pub const EXCL_SHARED_6: &'static str = r#"
                session.suspend-timeout-seconds = 5  # ADDED: Allow shorter timeout
            }
        }
    }
]
"#;

/// The exclusive-mode fragment that keeps PipeWire processing.
pub open spec fn exclusive_shared_text(buffer_size: u32, sample_rate: u32) -> Seq<char> {
    EXCL_SHARED_0@
        + dec(sample_rate as nat)
        + EXCL_SHARED_1@
        + dec(buffer_size as nat)
        + EXCL_SHARED_2@
        + dec(sample_rate as nat)
        + EXCL_SHARED_3@
        + dec(buffer_size as nat)
        + EXCL_SHARED_4@
        + dec(sample_rate as nat)
        + EXCL_SHARED_5@
        + dec((buffer_size / 2) as nat)
        + EXCL_SHARED_6@
}

fn exclusive_shared_content(buffer_size: u32, sample_rate: u32) -> (config: String)
    ensures
        config@ == exclusive_shared_text(buffer_size, sample_rate),
{
    let mut out: Vec<char> = Vec::new();
    push_str(&mut out, EXCL_SHARED_0);
    push_dec(&mut out, sample_rate as u64);
    push_str(&mut out, EXCL_SHARED_1);
    push_dec(&mut out, buffer_size as u64);
    push_str(&mut out, EXCL_SHARED_2);
    push_dec(&mut out, sample_rate as u64);
    push_str(&mut out, EXCL_SHARED_3);
    push_dec(&mut out, buffer_size as u64);
    push_str(&mut out, EXCL_SHARED_4);
    push_dec(&mut out, sample_rate as u64);
    push_str(&mut out, EXCL_SHARED_5);
    push_dec(&mut out, (buffer_size / 2) as u64);
    push_str(&mut out, EXCL_SHARED_6);
    string_of(&out)
}

pub const WP_EXCL_0: &'static str = r#"{
  "monitor.alsa.rules": [
    {
      "matches": [
        {
          "device.name": "~alsa.*"
        }
      ],
      "actions": {
        "update-props": {
          "audio.rate": "#;
pub const WP_EXCL_1: &'static str = r#",
          "audio.allowed-rates": [ "#;
pub const WP_EXCL_2: &'static str = r#" ],
          "api.alsa.period-size": "#;
pub const WP_EXCL_3: &'static str = r#",
          "api.alsa.period-num": 2,
          "api.alsa.headroom": "#;
pub const WP_EXCL_4: &'static str = r#",
          "api.alsa.disable-batch": "#;
pub const WP_EXCL_5: &'static str = r#",
          "api.alsa.use-acp": false,
          "priority.driver": 200,
          "session.suspend-timeout-seconds": 5  # REDUCED: Allow timeout for recovery
        }
      }
    }
  ]
}"#;

/// The WirePlumber rules of the exclusive-mode fallback.
pub open spec fn wireplumber_exclusive_text(direct_hardware: bool, buffer_size: u32, sample_rate: u32) -> Seq<char> {
    WP_EXCL_0@
        + dec(sample_rate as nat)
        + WP_EXCL_1@
        + dec(sample_rate as nat)
        + WP_EXCL_2@
        + dec(buffer_size as nat)
        + WP_EXCL_3@
        + dec((buffer_size / 2) as nat)
        + WP_EXCL_4@
        + bool_text(direct_hardware)
        + WP_EXCL_5@
}

/// Builds [`wireplumber_exclusive_text`].
pub fn wireplumber_exclusive_content(direct_hardware: bool, buffer_size: u32, sample_rate: u32) -> (config: String)
    ensures
        config@ == wireplumber_exclusive_text(direct_hardware, buffer_size, sample_rate),
{
    let mut out: Vec<char> = Vec::new();
    push_str(&mut out, WP_EXCL_0);
    push_dec(&mut out, sample_rate as u64);
    push_str(&mut out, WP_EXCL_1);
    push_dec(&mut out, sample_rate as u64);
    push_str(&mut out, WP_EXCL_2);
    push_dec(&mut out, buffer_size as u64);
    push_str(&mut out, WP_EXCL_3);
    push_dec(&mut out, (buffer_size / 2) as u64);
    push_str(&mut out, WP_EXCL_4);
    push_bool(&mut out, direct_hardware);
    push_str(&mut out, WP_EXCL_5);
    string_of(&out)
}

/// The exclusive-mode PipeWire fragment: direct hardware access or shared
/// PipeWire processing.
pub open spec fn pipewire_exclusive_text(
    direct_hardware: bool,
    low_latency: bool,
    buffer_size: u32,
    sample_rate: u32,
) -> Seq<char> {
    if direct_hardware {
        exclusive_direct_text(low_latency, buffer_size, sample_rate)
    } else {
        exclusive_shared_text(buffer_size, sample_rate)
    }
}

/// Builds [`pipewire_exclusive_text`].
pub fn pipewire_exclusive_content(
    direct_hardware: bool,
    low_latency: bool,
    buffer_size: u32,
    sample_rate: u32,
) -> (config: String)
    ensures
        config@ == pipewire_exclusive_text(direct_hardware, low_latency, buffer_size, sample_rate),
{
    if direct_hardware {
        exclusive_direct_content(low_latency, buffer_size, sample_rate)
    } else {
        exclusive_shared_content(buffer_size, sample_rate)
    }
}

/// The number in a `key = "value"` line as `pw-cli info` prints it: leading
/// `*` and blanks dropped, the text after the first `=` trimmed of blanks
/// and quotes, then read as a `u32`.
pub open spec fn number_in_line(line: Seq<char>) -> Option<u32> {
    let l = trim(trim_start_by(line, Strip::Ch('*')));
    let parts = split_by(l, Strip::Ch('='));
    if parts.len() >= 2 {
        parse_u32(trim_matches(trim(parts[1]), '"'))
    } else {
        None
    }
}

pub fn extract_number_from_line(line: &str) -> (n: Option<u32>)
    ensures
        n == number_in_line(line@),
{
    let raw = chars_of(line);
    let l = trim_of(&trim_start_of(&raw, Strip::Ch('*')));
    let parts = split_of(&l, Strip::Ch('='));
    if parts.len() >= 2 {
        proof {
            assert(split_by(l@, Strip::Ch('='))[1] == parts@[1]@);
        }
        let value = trim_matches_of(&trim_of(&parts[1]), '"');
        parse_u32_of(&value)
    } else {
        None
    }
}

/// The rate line of the main configuration, set to `rate`.
pub open spec fn rate_line(rate: u32) -> Seq<char> {
    "default.clock.rate          = "@ + dec(rate as nat)
}

/// The quantum line of the main configuration, set to `quantum`.
pub open spec fn quantum_line(quantum: u32) -> Seq<char> {
    "default.clock.quantum       = "@ + dec(quantum as nat)
}

/// The allowed-rates line of the main configuration, reduced to `rate`.
pub open spec fn allowed_rates_line(rate: u32) -> Seq<char> {
    "default.clock.allowed-rates = [ "@ + dec(rate as nat) + " ]"@
}

/// The main `pipewire.conf` with the stock clock lines (commented out or
/// not) replaced by the rate and quantum of the settings, in this order.
pub open spec fn clock_edits(content: Seq<char>, settings: AudioSettings) -> Seq<char> {
    let rate = rate_line(settings.sample_rate);
    let quantum = quantum_line(settings.buffer_size);
    let a = replace(content, "#default.clock.rate          = 48000"@, rate);
    let b = replace(a, "#default.clock.rate          = 192000"@, rate);
    let c = replace(b, "default.clock.rate          = 48000"@, rate);
    let d = replace(c, "#default.clock.quantum       = 1024"@, quantum);
    let e = replace(d, "#default.clock.quantum       = 8192"@, quantum);
    let f = replace(e, "default.clock.quantum       = 1024"@, quantum);
    replace(
        f,
        "default.clock.allowed-rates = \\[ 44100, 48000, 96000, 192000 \\]"@,
        allowed_rates_line(settings.sample_rate),
    )
}

/// The new text of the main configuration, where the edits change it.
pub open spec fn main_config_update(content: Seq<char>, settings: AudioSettings) -> Option<Seq<char>> {
    if clock_edits(content, settings) == content {
        None
    } else {
        Some(clock_edits(content, settings))
    }
}

fn replace_lit(s: &Vec<char>, p: &str, r: &Vec<char>) -> (out: Vec<char>)
    requires
        p@.len() > 0,
    ensures
        out@ == replace(s@, p@, r@),
{
    replace_of(s, &chars_of(p), r)
}

/// Edits the main `pipewire.conf`: `None` where nothing would change.
pub fn edit_main_pipewire_config(content: &str, settings: &AudioSettings) -> (r: Option<String>)
    ensures
        match r {
            Some(t) => main_config_update(content@, *settings) == Some(t@),
            None => main_config_update(content@, *settings) is None,
        },
{
    let original = chars_of(content);
    let mut rate: Vec<char> = chars_of("default.clock.rate          = ");
    push_dec(&mut rate, settings.sample_rate as u64);
    let mut quantum: Vec<char> = chars_of("default.clock.quantum       = ");
    push_dec(&mut quantum, settings.buffer_size as u64);
    let mut rates: Vec<char> = chars_of("default.clock.allowed-rates = [ ");
    push_dec(&mut rates, settings.sample_rate as u64);
    push_str(&mut rates, " ]");
    proof {
        reveal_strlit("#default.clock.rate          = 48000");
        reveal_strlit("#default.clock.rate          = 192000");
        reveal_strlit("default.clock.rate          = 48000");
        reveal_strlit("#default.clock.quantum       = 1024");
        reveal_strlit("#default.clock.quantum       = 8192");
        reveal_strlit("default.clock.quantum       = 1024");
        reveal_strlit("default.clock.allowed-rates = \\[ 44100, 48000, 96000, 192000 \\]");
    }
    let a = replace_lit(&original, "#default.clock.rate          = 48000", &rate);
    let b = replace_lit(&a, "#default.clock.rate          = 192000", &rate);
    let c = replace_lit(&b, "default.clock.rate          = 48000", &rate);
    let d = replace_lit(&c, "#default.clock.quantum       = 1024", &quantum);
    let e = replace_lit(&d, "#default.clock.quantum       = 8192", &quantum);
    let f = replace_lit(&e, "default.clock.quantum       = 1024", &quantum);
    let g = replace_lit(
        &f,
        "default.clock.allowed-rates = \\[ 44100, 48000, 96000, 192000 \\]",
        &rates,
    );
    if eq_chars(&g, &original) {
        None
    } else {
        Some(string_of(&g))
    }
}

/// The quantum-floor line written into the main configuration.
pub open spec fn floor_line(buffer_size: u32) -> Seq<char> {
    "    default.clock.quantum-floor = "@ + dec(buffer_size as nat) + "\n"@
}

/// The minimum-quantum line written into the main configuration.
pub open spec fn min_quantum_line(buffer_size: u32) -> Seq<char> {
    "    default.clock.min-quantum = "@ + dec(buffer_size as nat) + "\n"@
}

/// The first pass over the lines of the main configuration: lines that set
/// the quantum floor or the minimum quantum are replaced by ours, every
/// other line is kept (each ended by a line feed); the flag tells whether a
/// line was replaced.
pub open spec fn floor_pass(ls: Seq<Seq<char>>, buffer_size: u32) -> (Seq<char>, bool)
    decreases ls.len(),
{
    if ls.len() == 0 {
        (Seq::empty(), false)
    } else {
        let prev = floor_pass(ls.drop_last(), buffer_size);
        let l = ls.last();
        let t = trim(l);
        if contains(t, "default.clock.quantum-floor"@) {
            (prev.0 + floor_line(buffer_size), true)
        } else if contains(t, "default.clock.min-quantum"@) {
            (prev.0 + min_quantum_line(buffer_size), true)
        } else {
            (prev.0 + l + "\n"@, prev.1)
        }
    }
}

/// The second pass, when no line was replaced: every line is kept, and our
/// two lines are inserted after the first line that mentions the quantum;
/// the flag tells whether they were.
pub open spec fn insert_pass(ls: Seq<Seq<char>>, buffer_size: u32) -> (Seq<char>, bool)
    decreases ls.len(),
{
    if ls.len() == 0 {
        (Seq::empty(), false)
    } else {
        let prev = insert_pass(ls.drop_last(), buffer_size);
        let l = ls.last();
        let kept = prev.0 + l + "\n"@;
        if !prev.1 && contains(trim(l), "default.clock.quantum"@) {
            (kept + floor_line(buffer_size) + min_quantum_line(buffer_size), true)
        } else {
            (kept, prev.1)
        }
    }
}

/// The main configuration with the quantum floor raised to the buffer size.
pub open spec fn quantum_floor_text(content: Seq<char>, buffer_size: u32) -> Seq<char> {
    let first = floor_pass(lines(content), buffer_size);
    if first.1 {
        first.0
    } else {
        insert_pass(lines(content), buffer_size).0
    }
}

/// Raises the quantum floor (and the minimum quantum) of the main
/// configuration to the buffer size.
pub fn raise_quantum_floor(content: &str, buffer_size: u32) -> (text: String)
    ensures
        text@ == quantum_floor_text(content@, buffer_size),
{
    let ls = lines_of(&chars_of(content));
    let ghost all = deep(ls@);
    let floor_key = chars_of("default.clock.quantum-floor");
    let min_key = chars_of("default.clock.min-quantum");
    let quantum_key = chars_of("default.clock.quantum");
    let mut floor: Vec<char> = chars_of("    default.clock.quantum-floor = ");
    push_dec(&mut floor, buffer_size as u64);
    push_str(&mut floor, "\n");
    let mut min: Vec<char> = chars_of("    default.clock.min-quantum = ");
    push_dec(&mut min, buffer_size as u64);
    push_str(&mut min, "\n");
    let mut out: Vec<char> = Vec::new();
    let mut updated = false;
    let mut i: usize = 0;
    proof {
        assert(all.take(0) =~= Seq::<Seq<char>>::empty());
    }
    while i < ls.len()
        invariant
            all == deep(ls@),
            all == lines(content@),
            i <= ls.len(),
            floor_key@ == "default.clock.quantum-floor"@,
            min_key@ == "default.clock.min-quantum"@,
            floor@ == floor_line(buffer_size),
            min@ == min_quantum_line(buffer_size),
            (out@, updated) == floor_pass(all.take(i as int), buffer_size),
        decreases ls.len() - i,
    {
        proof {
            assert(all.take(i + 1).drop_last() =~= all.take(i as int));
            assert(all.take(i + 1).last() == ls@[i as int]@);
        }
        let t = trim_of(&ls[i]);
        if contains_of(&t, &floor_key) {
            push_chars(&mut out, &floor);
            updated = true;
        } else if contains_of(&t, &min_key) {
            push_chars(&mut out, &min);
            updated = true;
        } else {
            push_chars(&mut out, &ls[i]);
            push_str(&mut out, "\n");
        }
        i += 1;
    }
    proof {
        assert(all.take(ls.len() as int) =~= all);
    }
    if updated {
        return string_of(&out);
    }
    let mut second: Vec<char> = Vec::new();
    let mut inserted = false;
    let mut j: usize = 0;
    while j < ls.len()
        invariant
            all == deep(ls@),
            all == lines(content@),
            j <= ls.len(),
            quantum_key@ == "default.clock.quantum"@,
            floor@ == floor_line(buffer_size),
            min@ == min_quantum_line(buffer_size),
            (second@, inserted) == insert_pass(all.take(j as int), buffer_size),
        decreases ls.len() - j,
    {
        proof {
            assert(all.take(j + 1).drop_last() =~= all.take(j as int));
            assert(all.take(j + 1).last() == ls@[j as int]@);
        }
        push_chars(&mut second, &ls[j]);
        push_str(&mut second, "\n");
        if !inserted && contains_of(&trim_of(&ls[j]), &quantum_key) {
            push_chars(&mut second, &floor);
            push_chars(&mut second, &min);
            inserted = true;
        }
        j += 1;
    }
    proof {
        assert(all.take(ls.len() as int) =~= all);
    }
    string_of(&second)
}

} // verus!
