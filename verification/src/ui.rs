//! What the configuration window shows and decides: cleaned device texts,
//! the labels of the output and input tabs, the option lists, the grouped
//! device lists, and the requests built from the user's choices.

use vstd::prelude::*;
use crate::audio::{AudioDevice, AudioSettings, DeviceType, DeviceView, contains_lit, is_lit, lower_chars};
use crate::text::{
    Strip, chars_of, contains, lowercase, occurs_at, occurs_at_of, parse_u32, parse_u32_of,
    push_chars, push_str, replace, replace_of, starts_with, starts_with_of, string_of, subvec,
    trim, trim_end_by, trim_end_of, trim_of,
};

verus! {

broadcast use vstd::string::group_string_axioms;

/// `s` without the status words `SUSPENDED`, `RUNNING` and `IDLE`.
pub open spec fn without_status_words(s: Seq<char>) -> Seq<char> {
    replace(
        replace(replace(s, "SUSPENDED"@, Seq::empty()), "RUNNING"@, Seq::empty()),
        "IDLE"@,
        Seq::empty(),
    )
}

/// A device description without status words, blanks and trailing dashes.
pub open spec fn cleaned_description(s: Seq<char>) -> Seq<char> {
    trim(trim_end_by(trim(without_status_words(s)), Strip::Ch('-')))
}

/// A device name without the `PipeWire:`, `PulseAudio:` and `ALSA:` prefixes
/// and surrounding blanks.
pub open spec fn cleaned_display(s: Seq<char>) -> Seq<char> {
    trim(
        replace(
            replace(replace(s, "PipeWire:"@, Seq::empty()), "PulseAudio:"@, Seq::empty()),
            "ALSA:"@,
            Seq::empty(),
        ),
    )
}

fn remove_lit(s: &Vec<char>, word: &str) -> (r: Vec<char>)
    requires
        word@.len() > 0,
    ensures
        r@ == replace(s@, word@, Seq::empty()),
{
    let empty: Vec<char> = Vec::new();
    proof {
        assert(empty@ =~= Seq::<char>::empty());
    }
    replace_of(s, &chars_of(word), &empty)
}

fn clean_status_words(text: &str) -> (r: String)
    ensures
        r@ == cleaned_description(text@),
{
    proof {
        reveal_strlit("SUSPENDED");
        reveal_strlit("RUNNING");
        reveal_strlit("IDLE");
    }
    let s = chars_of(text);
    let a = remove_lit(&s, "SUSPENDED");
    let b = remove_lit(&a, "RUNNING");
    let c = remove_lit(&b, "IDLE");
    let d = trim_of(&trim_end_of(&trim_of(&c), Strip::Ch('-')));
    string_of(&d)
}

/// Cleans a device description for display.
pub fn clean_device_description(description: &str) -> (r: String)
    ensures
        r@ == cleaned_description(description@),
{
    clean_status_words(description)
}

/// Cleans the text of the selected entry for the selection line.
pub fn clean_display_text(display_text: &str) -> (r: String)
    ensures
        r@ == cleaned_description(display_text@),
{
    clean_status_words(display_text)
}

/// Cleans a device name reported with its sound system.
pub fn clean_device_display(device_info: &str) -> (r: String)
    ensures
        r@ == cleaned_display(device_info@),
{
    proof {
        reveal_strlit("PipeWire:");
        reveal_strlit("PulseAudio:");
        reveal_strlit("ALSA:");
    }
    let s = chars_of(device_info);
    let a = remove_lit(&s, "PipeWire:");
    let b = remove_lit(&a, "PulseAudio:");
    let c = remove_lit(&b, "ALSA:");
    string_of(&trim_of(&c))
}

/// The device name in a `system: name` report, if there is one.
pub open spec fn actual_device_name(info: Seq<char>) -> Option<Seq<char>> {
    if cleaned_display(info).len() == 0 {
        None
    } else {
        Some(cleaned_display(info))
    }
}

pub fn extract_actual_device_name(device_info: &str) -> (r: Option<String>)
    ensures
        match r {
            Some(n) => actual_device_name(device_info@) == Some(n@),
            None => actual_device_name(device_info@) is None,
        },
{
    let c = clean_device_display(device_info);
    if c.as_str().is_empty() {
        None
    } else {
        Some(c)
    }
}

/// The output tab or the input tab.
#[derive(Clone, Copy, Debug, PartialEq, Eq, Structural)]
pub enum TabType {
    Output,
    Input,
}

impl TabType {
    pub open spec fn title_text(self) -> Seq<char> {
        match self {
            TabType::Output => "Output"@,
            TabType::Input => "Input"@,
        }
    }

    /// The stream type of the tab, as the configuration names it (the title
    /// in lower case).
    pub open spec fn stream_text(self) -> Seq<char> {
        match self {
            TabType::Output => "output"@,
            TabType::Input => "input"@,
        }
    }

    pub fn title(&self) -> (t: &'static str)
        ensures
            t@ == self.title_text(),
    {
        match self {
            TabType::Output => "Output",
            TabType::Input => "Input",
        }
    }

    pub fn stream_type(&self) -> (t: &'static str)
        ensures
            t@ == self.stream_text(),
    {
        match self {
            TabType::Output => "output",
            TabType::Input => "input",
        }
    }

    pub fn device_label(&self) -> (t: &'static str)
        ensures
            t@ == self.title_text() + " Audio Device"@,
    {
        proof {
            reveal_strlit("Output");
            reveal_strlit("Input");
            reveal_strlit(" Audio Device");
            reveal_strlit("Output Audio Device");
            reveal_strlit("Input Audio Device");
        }
        match self {
            TabType::Output => "Output Audio Device",
            TabType::Input => "Input Audio Device",
        }
    }

    pub fn settings_label(&self) -> (t: &'static str)
        ensures
            t@ == self.title_text() + " Audio Settings"@,
    {
        proof {
            reveal_strlit("Output");
            reveal_strlit("Input");
            reveal_strlit(" Audio Settings");
            reveal_strlit("Output Audio Settings");
            reveal_strlit("Input Audio Settings");
        }
        match self {
            TabType::Output => "Output Audio Settings",
            TabType::Input => "Input Audio Settings",
        }
    }

    pub fn actions_label(&self) -> (t: &'static str)
        ensures
            t@ == self.title_text() + " Actions"@,
    {
        proof {
            reveal_strlit("Output");
            reveal_strlit("Input");
            reveal_strlit(" Actions");
            reveal_strlit("Output Actions");
            reveal_strlit("Input Actions");
        }
        match self {
            TabType::Output => "Output Actions",
            TabType::Input => "Input Actions",
        }
    }

    pub fn apply_button_label(&self) -> (t: &'static str)
        ensures
            t@ == "Apply "@ + self.title_text() + " Audio Settings"@,
    {
        proof {
            reveal_strlit("Output");
            reveal_strlit("Input");
            reveal_strlit("Apply ");
            reveal_strlit(" Audio Settings");
            reveal_strlit("Apply Output Audio Settings");
            reveal_strlit("Apply Input Audio Settings");
        }
        match self {
            TabType::Output => "Apply Output Audio Settings",
            TabType::Input => "Apply Input Audio Settings",
        }
    }

    pub fn selection_prefix(&self) -> (t: &'static str)
        ensures
            t@ == "Selected "@ + self.title_text(),
    {
        proof {
            reveal_strlit("Output");
            reveal_strlit("Input");
            reveal_strlit("Selected ");
            reveal_strlit("Selected Output");
            reveal_strlit("Selected Input");
        }
        match self {
            TabType::Output => "Selected Output",
            TabType::Input => "Selected Input",
        }
    }

    pub fn current_device_prefix(&self) -> (t: &'static str)
        ensures
            t@ == "Current Default "@ + self.title_text() + " Device"@,
    {
        proof {
            reveal_strlit("Output");
            reveal_strlit("Input");
            reveal_strlit("Current Default ");
            reveal_strlit(" Device");
            reveal_strlit("Current Default Output Device");
            reveal_strlit("Current Default Input Device");
        }
        match self {
            TabType::Output => "Current Default Output Device",
            TabType::Input => "Current Default Input Device",
        }
    }
}

/// The user's preferences: whether settings are applied system-wide.
#[derive(Clone, Copy, Debug)]
pub struct AppPreferences {
    pub system_wide_config: bool,
}

impl Default for AppPreferences {
    fn default() -> (p: Self)
        ensures
            !p.system_wide_config,
    {
        AppPreferences { system_wide_config: false }
    }
}

/// A value of a settings list with its label.
pub type OptionList = Vec<(u32, &'static str)>;

pub open spec fn option_view(v: Seq<(u32, &'static str)>) -> Seq<(u32, Seq<char>)> {
    v.map_values(|o: (u32, &'static str)| (o.0, o.1@))
}

fn option_list(items: &[(u32, &'static str)]) -> (v: OptionList)
    ensures
        option_view(v@) == option_view(items@),
{
    let mut v: OptionList = Vec::new();
    let mut i: usize = 0;
    while i < items.len()
        invariant
            i <= items.len(),
            option_view(v@) == option_view(items@.take(i as int)),
        decreases items.len() - i,
    {
        let ghost before = option_view(v@);
        v.push(items[i]);
        proof {
            assert(option_view(v@) =~= before.push((items@[i as int].0, items@[i as int].1@)));
            assert(option_view(items@.take(i + 1)) =~= option_view(items@.take(i as int)).push(
                (items@[i as int].0, items@[i as int].1@),
            ));
        }
        i += 1;
    }
    proof {
        assert(items@.take(items.len() as int) =~= items@);
    }
    v
}

/// The sample rates offered, with their labels.
pub open spec fn sample_rate_list() -> Seq<(u32, Seq<char>)> {
    seq![
        (44100u32, "44.1 kHz - CD Quality"@),
        (48000u32, "48 kHz - Standard Audio"@),
        (96000u32, "96 kHz - High Resolution"@),
        (192000u32, "192 kHz - Studio Quality"@),
        (384000u32, "384 kHz - Ultra High Resolution"@),
    ]
}

pub fn sample_rates() -> (v: OptionList)
    ensures
        option_view(v@) == sample_rate_list(),
{
    let items = [
        (44100u32, "44.1 kHz - CD Quality"),
        (48000u32, "48 kHz - Standard Audio"),
        (96000u32, "96 kHz - High Resolution"),
        (192000u32, "192 kHz - Studio Quality"),
        (384000u32, "384 kHz - Ultra High Resolution"),
    ];
    proof {
        assert(option_view(items@) =~= sample_rate_list());
    }
    option_list(&items)
}

/// The bit depths offered, with their labels.
pub open spec fn bit_depth_list() -> Seq<(u32, Seq<char>)> {
    seq![
        (16u32, "16 bit - CD Quality"@),
        (24u32, "24 bit - High Resolution"@),
        (32u32, "32 bit - Studio Quality"@),
    ]
}

pub fn bit_depths() -> (v: OptionList)
    ensures
        option_view(v@) == bit_depth_list(),
{
    let items = [
        (16u32, "16 bit - CD Quality"),
        (24u32, "24 bit - High Resolution"),
        (32u32, "32 bit - Studio Quality"),
    ];
    proof {
        assert(option_view(items@) =~= bit_depth_list());
    }
    option_list(&items)
}

/// The buffer sizes offered, with their labels.
pub open spec fn buffer_size_list() -> Seq<(u32, Seq<char>)> {
    seq![
        (128u32, "128 samples (2.7ms @48kHz)"@),
        (256u32, "256 samples (5.3ms @48kHz)"@),
        (512u32, "512 samples (10.7ms @48kHz)"@),
        (1024u32, "1024 samples (21.3ms @48kHz)"@),
        (2048u32, "2048 samples (42.7ms @48kHz)"@),
        (4096u32, "4096 samples (85.3ms @48kHz)"@),
        (8192u32, "8192 samples (170.7ms @48kHz)"@),
    ]
}

pub fn buffer_sizes() -> (v: OptionList)
    ensures
        option_view(v@) == buffer_size_list(),
{
    let items = [
        (128u32, "128 samples (2.7ms @48kHz)"),
        (256u32, "256 samples (5.3ms @48kHz)"),
        (512u32, "512 samples (10.7ms @48kHz)"),
        (1024u32, "1024 samples (21.3ms @48kHz)"),
        (2048u32, "2048 samples (42.7ms @48kHz)"),
        (4096u32, "4096 samples (85.3ms @48kHz)"),
        (8192u32, "8192 samples (170.7ms @48kHz)"),
    ];
    proof {
        assert(option_view(items@) =~= buffer_size_list());
    }
    option_list(&items)
}

/// The buffer sizes offered for the exclusive mode, with their labels.
pub open spec fn exclusive_buffer_size_list() -> Seq<(u32, Seq<char>)> {
    seq![
        (64u32, "64 samples (1.3ms @48kHz) - Ultra Low Latency"@),
        (128u32, "128 samples (2.7ms @48kHz) - Low Latency"@),
        (256u32, "256 samples (5.3ms @48kHz) - Balanced"@),
        (512u32, "512 samples (10.7ms @48kHz) - Stable"@),
        (1024u32, "1024 samples (21.3ms @48kHz) - High Latency"@),
    ]
}

pub fn exclusive_buffer_sizes() -> (v: OptionList)
    ensures
        option_view(v@) == exclusive_buffer_size_list(),
{
    let items = [
        (64u32, "64 samples (1.3ms @48kHz) - Ultra Low Latency"),
        (128u32, "128 samples (2.7ms @48kHz) - Low Latency"),
        (256u32, "256 samples (5.3ms @48kHz) - Balanced"),
        (512u32, "512 samples (10.7ms @48kHz) - Stable"),
        (1024u32, "1024 samples (21.3ms @48kHz) - High Latency"),
    ];
    proof {
        assert(option_view(items@) =~= exclusive_buffer_size_list());
    }
    option_list(&items)
}

/// The configuration modes of the advanced tab: identifier and label.
pub open spec fn config_mode_list() -> Seq<(Seq<char>, Seq<char>)> {
    seq![
        ("global"@, "Global System Settings (All Applications)"@),
        ("exclusive"@, "Exclusive Mode (Single Application)"@),
    ]
}

pub fn config_modes() -> (v: Vec<(&'static str, &'static str)>)
    ensures
        v@.map_values(|m: (&'static str, &'static str)| (m.0@, m.1@)) == config_mode_list(),
{
    let mut v: Vec<(&'static str, &'static str)> = Vec::new();
    v.push(("global", "Global System Settings (All Applications)"));
    v.push(("exclusive", "Exclusive Mode (Single Application)"));
    proof {
        assert(v@.map_values(|m: (&'static str, &'static str)| (m.0@, m.1@)) =~= config_mode_list());
    }
    v
}

/// The smallest buffer sizes offered for the professional buffer range.
pub open spec fn min_buffer_list() -> Seq<(u32, Seq<char>)> {
    seq![
        (64u32, "64 samples (1.3ms @48kHz)"@),
        (128u32, "128 samples (2.7ms @48kHz)"@),
        (256u32, "256 samples (5.3ms @48kHz)"@),
        (512u32, "512 samples (10.7ms @48kHz)"@),
        (1024u32, "1024 samples (21.3ms @48kHz)"@),
    ]
}

pub fn min_buffer_sizes() -> (v: OptionList)
    ensures
        option_view(v@) == min_buffer_list(),
{
    let items = [
        (64u32, "64 samples (1.3ms @48kHz)"),
        (128u32, "128 samples (2.7ms @48kHz)"),
        (256u32, "256 samples (5.3ms @48kHz)"),
        (512u32, "512 samples (10.7ms @48kHz)"),
        (1024u32, "1024 samples (21.3ms @48kHz)"),
    ];
    proof {
        assert(option_view(items@) =~= min_buffer_list());
    }
    option_list(&items)
}

/// The largest buffer sizes offered for the professional buffer range.
pub open spec fn max_buffer_list() -> Seq<(u32, Seq<char>)> {
    seq![
        (512u32, "512 samples (10.7ms @48kHz)"@),
        (1024u32, "1024 samples (21.3ms @48kHz)"@),
        (2048u32, "2048 samples (42.7ms @48kHz)"@),
        (4096u32, "4096 samples (85.3ms @48kHz)"@),
        (8192u32, "8192 samples (170.7ms @48kHz)"@),
    ]
}

pub fn max_buffer_sizes() -> (v: OptionList)
    ensures
        option_view(v@) == max_buffer_list(),
{
    let items = [
        (512u32, "512 samples (10.7ms @48kHz)"),
        (1024u32, "1024 samples (21.3ms @48kHz)"),
        (2048u32, "2048 samples (42.7ms @48kHz)"),
        (4096u32, "4096 samples (85.3ms @48kHz)"),
        (8192u32, "8192 samples (170.7ms @48kHz)"),
    ];
    proof {
        assert(option_view(items@) =~= max_buffer_list());
    }
    option_list(&items)
}

/// The real-time thread priorities offered: identifier and label.
pub open spec fn thread_priority_list() -> Seq<(Seq<char>, Seq<char>)> {
    seq![
        ("normal"@, "Normal Priority (-11 nice, 88 RT)"@),
        ("high"@, "High Priority (-15 nice, 90 RT)"@),
        ("realtime"@, "Real-time Priority (-20 nice, 99 RT)"@),
    ]
}

pub fn thread_priorities() -> (v: Vec<(&'static str, &'static str)>)
    ensures
        v@.map_values(|m: (&'static str, &'static str)| (m.0@, m.1@)) == thread_priority_list(),
{
    let mut v: Vec<(&'static str, &'static str)> = Vec::new();
    v.push(("normal", "Normal Priority (-11 nice, 88 RT)"));
    v.push(("high", "High Priority (-15 nice, 90 RT)"));
    v.push(("realtime", "Real-time Priority (-20 nice, 99 RT)"));
    proof {
        assert(v@.map_values(|m: (&'static str, &'static str)| (m.0@, m.1@)) =~= thread_priority_list());
    }
    v
}

/// The resampler qualities offered: identifier and label.
pub open spec fn resampler_quality_list() -> Seq<(Seq<char>, Seq<char>)> {
    seq![
        ("fastest"@, "Fastest (lowest quality, lowest CPU)"@),
        ("low"@, "Low quality"@),
        ("medium"@, "Medium (balanced)"@),
        ("high"@, "High quality"@),
        ("highest"@, "Highest (best quality, highest CPU)"@),
    ]
}

pub fn resampler_qualities() -> (v: Vec<(&'static str, &'static str)>)
    ensures
        v@.map_values(|m: (&'static str, &'static str)| (m.0@, m.1@)) == resampler_quality_list(),
{
    let mut v: Vec<(&'static str, &'static str)> = Vec::new();
    v.push(("fastest", "Fastest (lowest quality, lowest CPU)"));
    v.push(("low", "Low quality"));
    v.push(("medium", "Medium (balanced)"));
    v.push(("high", "High quality"));
    v.push(("highest", "Highest (best quality, highest CPU)"));
    proof {
        assert(v@.map_values(|m: (&'static str, &'static str)| (m.0@, m.1@)) =~= resampler_quality_list());
    }
    v
}

/// The clock sources offered: identifier and label.
pub open spec fn clock_source_list() -> Seq<(Seq<char>, Seq<char>)> {
    seq![
        ("default"@, "Default (system clock)"@),
        ("monotonic"@, "Monotonic (more stable)"@),
        ("realtime"@, "Real-time (most accurate)"@),
    ]
}

pub fn clock_sources() -> (v: Vec<(&'static str, &'static str)>)
    ensures
        v@.map_values(|m: (&'static str, &'static str)| (m.0@, m.1@)) == clock_source_list(),
{
    let mut v: Vec<(&'static str, &'static str)> = Vec::new();
    v.push(("default", "Default (system clock)"));
    v.push(("monotonic", "Monotonic (more stable)"));
    v.push(("realtime", "Real-time (most accurate)"));
    proof {
        assert(v@.map_values(|m: (&'static str, &'static str)| (m.0@, m.1@)) =~= clock_source_list());
    }
    v
}

/// The section of the device lists that a device belongs to.
#[derive(Clone, Copy, Debug, PartialEq, Eq, Structural)]
pub enum DeviceGroup {
    Usb,
    Pci,
    Hdmi,
    Other,
}

/// USB when `usb` occurs in the lower-case description, name or id; else
/// HDMI/DisplayPort when `hdmi` or `displayport` occurs in the description
/// or name; else PCI when `pci` occurs in the name, id or description; else
/// other.
pub open spec fn device_group(d: DeviceView) -> DeviceGroup {
    let desc = lowercase(d.description);
    let name = lowercase(d.name);
    let id = lowercase(d.id);
    if contains(desc, "usb"@) || contains(name, "usb"@) || contains(id, "usb"@) {
        DeviceGroup::Usb
    } else if contains(desc, "hdmi"@) || contains(name, "hdmi"@) || contains(desc, "displayport"@)
        || contains(name, "displayport"@) {
        DeviceGroup::Hdmi
    } else if contains(name, "pci"@) || contains(id, "pci"@) || contains(desc, "pci"@) {
        DeviceGroup::Pci
    } else {
        DeviceGroup::Other
    }
}

pub fn categorize_device(device: &AudioDevice) -> (g: DeviceGroup)
    ensures
        g == device_group(device@),
{
    let desc = lower_chars(&device.description);
    let name = lower_chars(&device.name);
    let id = lower_chars(&device.id);
    if contains_lit(&desc, "usb") || contains_lit(&name, "usb") || contains_lit(&id, "usb") {
        DeviceGroup::Usb
    } else if contains_lit(&desc, "hdmi") || contains_lit(&name, "hdmi") || contains_lit(
        &desc,
        "displayport",
    ) || contains_lit(&name, "displayport") {
        DeviceGroup::Hdmi
    } else if contains_lit(&name, "pci") || contains_lit(&id, "pci") || contains_lit(&desc, "pci") {
        DeviceGroup::Pci
    } else {
        DeviceGroup::Other
    }
}

/// The icon and word for a device's direction; a device of unknown
/// direction takes that of `unknown_as`.
pub open spec fn type_label(t: DeviceType, unknown_as: TabType) -> Seq<char> {
    match t {
        DeviceType::Input => "🎤 Input"@,
        DeviceType::Output => "🔊 Output"@,
        DeviceType::Duplex => "🔄 Duplex"@,
        DeviceType::Unknown => match unknown_as {
            TabType::Input => "🎤 Input"@,
            TabType::Output => "🔊 Output"@,
        },
    }
}

fn type_label_of(t: DeviceType, unknown_as: TabType) -> (l: &'static str)
    ensures
        l@ == type_label(t, unknown_as),
{
    match t {
        DeviceType::Input => "🎤 Input",
        DeviceType::Output => "🔊 Output",
        DeviceType::Duplex => "🔄 Duplex",
        DeviceType::Unknown => match unknown_as {
            TabType::Input => "🎤 Input",
            TabType::Output => "🔊 Output",
        },
    }
}

/// The text of a device in a device list: direction, name, and the cleaned
/// description where one is left.
pub open spec fn entry_text(d: DeviceView, unknown_as: TabType) -> Seq<char> {
    let c = cleaned_description(d.description);
    if c.len() == 0 {
        type_label(d.device_type, unknown_as) + " "@ + d.name
    } else {
        type_label(d.device_type, unknown_as) + " "@ + d.name + " - "@ + c
    }
}

pub fn device_entry_text(device: &AudioDevice, unknown_as: TabType) -> (t: String)
    ensures
        t@ == entry_text(device@, unknown_as),
{
    let c = clean_device_description(device.description.as_str());
    let mut out = chars_of(type_label_of(device.device_type, unknown_as));
    push_str(&mut out, " ");
    push_str(&mut out, device.name.as_str());
    if !c.as_str().is_empty() {
        push_str(&mut out, " - ");
        push_str(&mut out, c.as_str());
    }
    string_of(&out)
}

/// An entry of a device list: identifier and text.
pub struct ComboEntry {
    pub id: String,
    pub text: String,
}

impl View for ComboEntry {
    type V = (Seq<char>, Seq<char>);

    open spec fn view(&self) -> (Seq<char>, Seq<char>) {
        (self.id@, self.text@)
    }
}

pub open spec fn entries_view(v: Seq<ComboEntry>) -> Seq<(Seq<char>, Seq<char>)> {
    v.map_values(|e: ComboEntry| e@)
}

/// The entries of the devices of one group, in the order of the list.
pub open spec fn group_entries(ds: Seq<DeviceView>, g: DeviceGroup, unknown_as: TabType) -> Seq<(Seq<char>, Seq<char>)>
    decreases ds.len(),
{
    if ds.len() == 0 {
        Seq::empty()
    } else {
        let prev = group_entries(ds.drop_last(), g, unknown_as);
        let d = ds.last();
        if device_group(d) == g {
            prev.push((d.id, entry_text(d, unknown_as)))
        } else {
            prev
        }
    }
}

/// A group's section: a separator, then its devices; nothing for an empty
/// group.
pub open spec fn section(
    ds: Seq<DeviceView>,
    g: DeviceGroup,
    separator_id: Seq<char>,
    separator: Seq<char>,
    unknown_as: TabType,
) -> Seq<(Seq<char>, Seq<char>)> {
    let e = group_entries(ds, g, unknown_as);
    if e.len() == 0 {
        Seq::empty()
    } else {
        seq![(separator_id, separator)] + e
    }
}

/// The label of the default entry: the stored name of the default device,
/// where one was detected.
pub open spec fn default_entry_text(stored_default: Seq<char>) -> Seq<char> {
    if stored_default.len() == 0 {
        "Default System Device"@
    } else {
        "Default: "@ + stored_default
    }
}

/// A device list: the default entry, then the USB, PCI, HDMI/DisplayPort
/// (where shown) and other devices, each group under its separator.
pub open spec fn combo_entries(
    ds: Seq<DeviceView>,
    stored_default: Seq<char>,
    unknown_as: TabType,
    include_hdmi: bool,
) -> Seq<(Seq<char>, Seq<char>)> {
    seq![("default"@, default_entry_text(stored_default))]
        + section(ds, DeviceGroup::Usb, "separator1"@, "--- USB Audio Devices ---"@, unknown_as)
        + section(ds, DeviceGroup::Pci, "separator2"@, "--- PCI Audio Devices ---"@, unknown_as)
        + (if include_hdmi {
            section(ds, DeviceGroup::Hdmi, "separator3"@, "--- HDMI/DisplayPort Audio ---"@, unknown_as)
        } else {
            Seq::empty()
        })
        + section(ds, DeviceGroup::Other, "separator4"@, "--- Other Audio Devices ---"@, unknown_as)
}

fn push_entry(v: &mut Vec<ComboEntry>, id: String, text: String)
    ensures
        entries_view(final(v)@) == entries_view(old(v)@).push((id@, text@)),
{
    let ghost before = entries_view(v@);
    let e = ComboEntry { id, text };
    let ghost ev = e@;
    v.push(e);
    proof {
        assert(entries_view(v@) =~= before.push(ev));
    }
}

fn group_section(
    out: &mut Vec<ComboEntry>,
    devices: &Vec<AudioDevice>,
    g: DeviceGroup,
    separator_id: &str,
    separator: &str,
    unknown_as: TabType,
)
    ensures
        entries_view(final(out)@) == entries_view(old(out)@) + section(
            crate::audio::devices_view(devices@),
            g,
            separator_id@,
            separator@,
            unknown_as,
        ),
{
    let ghost ds = crate::audio::devices_view(devices@);
    let mut found: Vec<ComboEntry> = Vec::new();
    let mut i: usize = 0;
    proof {
        assert(ds.take(0) =~= Seq::<DeviceView>::empty());
    }
    while i < devices.len()
        invariant
            ds == crate::audio::devices_view(devices@),
            i <= devices.len(),
            entries_view(found@) == group_entries(ds.take(i as int), g, unknown_as),
        decreases devices.len() - i,
    {
        proof {
            assert(ds.take(i + 1).drop_last() =~= ds.take(i as int));
            assert(ds.take(i + 1).last() == devices@[i as int]@);
        }
        let d = &devices[i];
        if categorize_device(d) == g {
            let text = device_entry_text(d, unknown_as);
            push_entry(&mut found, d.id.clone(), text);
        }
        i += 1;
    }
    proof {
        assert(ds.take(devices.len() as int) =~= ds);
    }
    if found.len() > 0 {
        let ghost before = entries_view(out@);
        let ghost fv = entries_view(found@);
        push_entry(out, separator_id.to_string(), separator.to_string());
        let ghost mid = entries_view(out@);
        out.append(&mut found);
        proof {
            assert(entries_view(out@) =~= mid + fv);
            assert(mid + fv =~= before + (seq![(separator_id@, separator@)] + fv));
        }
    } else {
        proof {
            assert(entries_view(old(out)@) + Seq::<(Seq<char>, Seq<char>)>::empty() =~= entries_view(
                out@,
            ));
        }
    }
}

/// The entries of a device list (see [`combo_entries`]).
pub fn device_combo_entries(
    devices: &Vec<AudioDevice>,
    stored_default: &str,
    unknown_as: TabType,
    include_hdmi: bool,
) -> (v: Vec<ComboEntry>)
    ensures
        entries_view(v@) == combo_entries(
            crate::audio::devices_view(devices@),
            stored_default@,
            unknown_as,
            include_hdmi,
        ),
{
    let mut v: Vec<ComboEntry> = Vec::new();
    let default_text = if stored_default.is_empty() {
        "Default System Device".to_string()
    } else {
        let mut t = chars_of("Default: ");
        push_str(&mut t, stored_default);
        string_of(&t)
    };
    push_entry(&mut v, "default".to_string(), default_text);
    let ghost e0 = entries_view(v@);
    group_section(&mut v, devices, DeviceGroup::Usb, "separator1", "--- USB Audio Devices ---", unknown_as);
    group_section(&mut v, devices, DeviceGroup::Pci, "separator2", "--- PCI Audio Devices ---", unknown_as);
    let ghost e2 = entries_view(v@);
    if include_hdmi {
        group_section(
            &mut v,
            devices,
            DeviceGroup::Hdmi,
            "separator3",
            "--- HDMI/DisplayPort Audio ---",
            unknown_as,
        );
    } else {
        proof {
            assert(e2 + Seq::<(Seq<char>, Seq<char>)>::empty() =~= e2);
        }
    }
    group_section(&mut v, devices, DeviceGroup::Other, "separator4", "--- Other Audio Devices ---", unknown_as);
    proof {
        let ds = crate::audio::devices_view(devices@);
        assert(entries_view(v@) =~= combo_entries(ds, stored_default@, unknown_as, include_hdmi));
    }
    v
}

/// The first place at or after `i` where `p` occurs in `s`.
pub open spec fn find_from(s: Seq<char>, p: Seq<char>, i: int) -> Option<int>
    decreases s.len() - i,
{
    if i < 0 || i + p.len() > s.len() {
        None
    } else if p.len() == 0 || occurs_at(s, p, i) {
        Some(i)
    } else {
        find_from(s, p, i + 1)
    }
}

/// The second piece of `s` split at the (non-empty) text `p`, if `p` occurs.
pub open spec fn second_piece(s: Seq<char>, p: Seq<char>) -> Option<Seq<char>> {
    match find_from(s, p, 0) {
        None => None,
        Some(i) => {
            let rest = s.skip(i + p.len());
            match find_from(rest, p, 0) {
                None => Some(rest),
                Some(j) => Some(rest.take(j)),
            }
        },
    }
}

fn find_from_of(s: &Vec<char>, p: &Vec<char>, start: usize) -> (r: Option<usize>)
    requires
        p.len() > 0,
    ensures
        match r {
            Some(i) => find_from(s@, p@, start as int) == Some(i as int) && i + p.len() <= s.len(),
            None => find_from(s@, p@, start as int) is None,
        },
{
    let mut i = start;
    while i <= s.len() && p.len() <= s.len() - i
        invariant
            p.len() > 0,
            start <= i,
            find_from(s@, p@, start as int) == find_from(s@, p@, i as int),
        decreases s.len() + 1 - i,
    {
        if occurs_at_of(s, p, i) {
            return Some(i);
        }
        i += 1;
    }
    None
}

/// The text an error dialog shows: for a failed script, the part between
/// the first and the second blank line, where there is one; otherwise the
/// whole message.
pub open spec fn error_display(message: Seq<char>) -> Seq<char> {
    if contains(message, "Script failed"@) {
        match second_piece(message, "\n\n"@) {
            Some(part) => part,
            None => message,
        }
    } else {
        message
    }
}

pub fn error_display_message(message: &str) -> (r: String)
    ensures
        r@ == error_display(message@),
{
    let m = chars_of(message);
    if !contains_lit(&m, "Script failed") {
        return message.to_string();
    }
    let sep = chars_of("\n\n");
    proof {
        reveal_strlit("\n\n");
    }
    match find_from_of(&m, &sep, 0) {
        None => message.to_string(),
        Some(i) => {
            let rest = subvec(&m, i + sep.len(), m.len());
            proof {
                assert(rest@ =~= m@.skip(i + sep@.len()));
            }
            match find_from_of(&rest, &sep, 0) {
                None => string_of(&rest),
                Some(j) => {
                    let part = subvec(&rest, 0, j);
                    proof {
                        assert(part@ =~= rest@.take(j as int));
                    }
                    string_of(&part)
                },
            }
        },
    }
}

/// What selecting an entry of a device list does.
pub enum Selection {
    /// Separators and placeholders cannot be chosen: the default entry is
    /// selected instead.
    ResetToDefault,
    /// The line that describes the selection.
    Show(String),
}

pub enum SelectionView {
    ResetToDefault,
    Show(Seq<char>),
}

impl View for Selection {
    type V = SelectionView;

    open spec fn view(&self) -> SelectionView {
        match self {
            Selection::ResetToDefault => SelectionView::ResetToDefault,
            Selection::Show(t) => SelectionView::Show(t@),
        }
    }
}

/// The reaction to selecting the entry `active_id` (shown as `active_text`)
/// on a tab, given the stored name of the default device.
pub open spec fn selection_of(
    active_id: Seq<char>,
    tab: TabType,
    stored_default: Seq<char>,
    active_text: Seq<char>,
) -> SelectionView {
    if starts_with(active_id, "separator"@) || active_id == "no_devices"@ {
        SelectionView::ResetToDefault
    } else if active_id == "default"@ {
        if stored_default.len() == 0 {
            SelectionView::Show("Selected: Default "@ + tab.title_text() + " Device"@)
        } else {
            SelectionView::Show(
                "Selected: Default "@ + tab.title_text() + " Device ("@ + stored_default + ")"@,
            )
        }
    } else {
        SelectionView::Show(
            "Selected "@ + tab.title_text() + ": "@ + cleaned_description(active_text),
        )
    }
}

pub fn device_selection(active_id: &str, tab: TabType, stored_default: &str, active_text: &str) -> (r: Selection)
    ensures
        r@ == selection_of(active_id@, tab, stored_default@, active_text@),
{
    let id = chars_of(active_id);
    if starts_with_of(&id, &chars_of("separator")) || is_lit(&id, "no_devices") {
        return Selection::ResetToDefault;
    }
    let mut out: Vec<char> = Vec::new();
    if is_lit(&id, "default") {
        push_str(&mut out, "Selected: Default ");
        push_str(&mut out, tab.title());
        if stored_default.is_empty() {
            push_str(&mut out, " Device");
        } else {
            push_str(&mut out, " Device (");
            push_str(&mut out, stored_default);
            push_str(&mut out, ")");
        }
    } else {
        push_str(&mut out, "Selected ");
        push_str(&mut out, tab.title());
        push_str(&mut out, ": ");
        let clean = clean_display_text(active_text);
        push_str(&mut out, clean.as_str());
    }
    Selection::Show(string_of(&out))
}

/// A choice read as a number, or the fallback where there is none or it is
/// not a number.
pub open spec fn choice(id: Option<Seq<char>>, fallback: u32) -> u32 {
    match id {
        Some(s) => match parse_u32(s) {
            Some(v) => v,
            None => fallback,
        },
        None => fallback,
    }
}

/// `text.parse::<u32>().ok().unwrap_or(fallback)`.
pub fn parse_or(text: &str, fallback: u32) -> (v: u32)
    ensures
        v == choice(Some(text@), fallback),
{
    match parse_u32_of(&chars_of(text)) {
        Some(v) => v,
        None => fallback,
    }
}

pub open spec fn opt_str(o: Option<&str>) -> Option<Seq<char>> {
    match o {
        Some(s) => Some(s@),
        None => None,
    }
}

/// The identifier of a choice read as a number, with a fallback.
pub fn choice_or(id: Option<&str>, fallback: u32) -> (v: u32)
    ensures
        v == choice(opt_str(id), fallback),
{
    match id {
        Some(t) => parse_or(t, fallback),
        None => fallback,
    }
}

/// A chosen text, or the fallback where nothing was chosen.
pub open spec fn text_choice(id: Option<Seq<char>>, fallback: Seq<char>) -> Seq<char> {
    match id {
        Some(s) => s,
        None => fallback,
    }
}

fn text_or(id: Option<&str>, fallback: &str) -> (s: String)
    ensures
        s@ == text_choice(opt_str(id), fallback@),
{
    match id {
        Some(t) => t.to_string(),
        None => fallback.to_string(),
    }
}

/// The settings of a tab's choices: 48000 Hz, 24 bit, 512 samples and the
/// default device where a choice is missing or unreadable.
pub fn settings_from_choices(
    rate_id: Option<&str>,
    depth_id: Option<&str>,
    buffer_id: Option<&str>,
    device_id: Option<&str>,
) -> (s: AudioSettings)
    ensures
        s.sample_rate == choice(opt_str(rate_id), 48000),
        s.bit_depth == choice(opt_str(depth_id), 24),
        s.buffer_size == choice(opt_str(buffer_id), 512),
        s.device_id@ == text_choice(opt_str(device_id), "default"@),
{
    AudioSettings {
        sample_rate: choice_or(rate_id, 48000),
        bit_depth: choice_or(depth_id, 24),
        buffer_size: choice_or(buffer_id, 512),
        device_id: text_or(device_id, "default"),
    }
}

pub open spec fn opt_result(r: Option<Result<String, String>>) -> Option<Result<Seq<char>, Seq<char>>> {
    match r {
        Some(Ok(s)) => Some(Ok(s@)),
        Some(Err(e)) => Some(Err(e@)),
        None => None,
    }
}

/// The device name that the device rules are written for: the selected
/// device itself, or for the default entry the detected default device
/// (cleaned), unless it could not be detected or is unknown.
pub open spec fn apply_device_name(
    device_id: Seq<char>,
    detected: Option<Result<Seq<char>, Seq<char>>>,
) -> Option<Seq<char>> {
    if device_id == "default"@ {
        match detected {
            Some(Ok(info)) => {
                let c = cleaned_display(info);
                if c.len() == 0 || c == "Unknown Output Audio Device"@ || c == "Unknown Input Audio Device"@ {
                    None
                } else {
                    Some(c)
                }
            },
            _ => None,
        }
    } else {
        Some(device_id)
    }
}

/// See [`apply_device_name`]; `detected` is the detection of the default
/// device, which is only made for the default entry.
pub fn actual_device_for(device_id: &str, detected: Option<Result<String, String>>) -> (r: Option<String>)
    ensures
        match r {
            Some(n) => apply_device_name(device_id@, opt_result(detected)) == Some(n@),
            None => apply_device_name(device_id@, opt_result(detected)) is None,
        },
{
    if !is_lit(&chars_of(device_id), "default") {
        return Some(device_id.to_string());
    }
    match detected {
        Some(Ok(info)) => {
            let c = clean_device_display(info.as_str());
            let cv = chars_of(c.as_str());
            if c.as_str().is_empty() || is_lit(&cv, "Unknown Output Audio Device") || is_lit(
                &cv,
                "Unknown Input Audio Device",
            ) {
                None
            } else {
                Some(c)
            }
        },
        _ => None,
    }
}

impl TabType {
    /// The status line while the tab's settings are applied.
    pub open spec fn applying_text(self, system_wide: bool) -> Seq<char> {
        if system_wide {
            "Applying system-wide "@ + self.stream_text()
                + " settings... (May prompt for admin password)"@
        } else {
            "Applying user "@ + self.stream_text() + " settings..."@
        }
    }

    pub fn applying_status(&self, system_wide: bool) -> (t: String)
        ensures
            t@ == self.applying_text(system_wide),
    {
        let mut out: Vec<char> = Vec::new();
        if system_wide {
            push_str(&mut out, "Applying system-wide ");
            push_str(&mut out, self.stream_type());
            push_str(&mut out, " settings... (May prompt for admin password)");
        } else {
            push_str(&mut out, "Applying user ");
            push_str(&mut out, self.stream_type());
            push_str(&mut out, " settings...");
        }
        string_of(&out)
    }

    /// The status line and the dialog text after applying the tab's
    /// settings.
    pub open spec fn result_texts(self, result: Result<(), Seq<char>>) -> (Seq<char>, Seq<char>) {
        match result {
            Ok(()) => (
                self.title_text() + " settings applied successfully!"@,
                self.title_text() + " audio settings applied successfully. The audio system will restart."@,
            ),
            Err(e) => (
                "Failed to apply "@ + self.stream_text() + " settings"@,
                "Failed to apply "@ + self.stream_text() + " settings: "@ + e,
            ),
        }
    }

    pub fn result_messages(&self, result: &Result<(), String>) -> (m: (String, String))
        ensures
            (m.0@, m.1@) == self.result_texts(crate::apply::outcome(*result)),
    {
        let mut status: Vec<char> = Vec::new();
        let mut dialog: Vec<char> = Vec::new();
        match result {
            Ok(()) => {
                push_str(&mut status, self.title());
                push_str(&mut status, " settings applied successfully!");
                push_str(&mut dialog, self.title());
                push_str(&mut dialog, " audio settings applied successfully. The audio system will restart.");
            },
            Err(e) => {
                push_str(&mut status, "Failed to apply ");
                push_str(&mut status, self.stream_type());
                push_str(&mut status, " settings");
                push_str(&mut dialog, "Failed to apply ");
                push_str(&mut dialog, self.stream_type());
                push_str(&mut dialog, " settings: ");
                push_str(&mut dialog, e.as_str());
            },
        }
        (string_of(&status), string_of(&dialog))
    }
}

/// How the advanced tab presents a configuration mode.
pub struct ModeView {
    /// The explanation shown for the mode.
    pub description: &'static str,
    /// The label of the apply button, where the mode sets one.
    pub apply_label: Option<&'static str>,
    /// Whether the global settings (rather than the exclusive ones) are
    /// shown, where the mode decides it.
    pub global_visible: Option<bool>,
}

pub open spec fn global_description() -> Seq<char> {
    "Global System Settings: Configure audio settings system-wide for ALL applications. This is the standard approach for general audio configuration."@
}

pub open spec fn exclusive_description() -> Seq<char> {
    "Exclusive Mode: Provide direct hardware access to a SINGLE application, bypassing mixing and processing. Similar to ASIO/WASAPI exclusive mode for low-latency professional audio work."@
}

/// The presentation of a mode: `global` and `exclusive` show their settings
/// and label the apply button; any other mode only asks for a choice.
pub open spec fn mode_presentation(mode: Seq<char>) -> (Seq<char>, Option<Seq<char>>, Option<bool>) {
    if mode == "global"@ {
        (global_description(), Some("Apply Advanced Global Settings"@), Some(true))
    } else if mode == "exclusive"@ {
        (exclusive_description(), Some("Apply Exclusive Mode Settings"@), Some(false))
    } else {
        ("Select a configuration mode above"@, None, None)
    }
}

pub fn config_mode_view(mode: &str) -> (v: ModeView)
    ensures
        v.description@ == mode_presentation(mode@).0,
        opt_str(v.apply_label) == mode_presentation(mode@).1,
        v.global_visible == mode_presentation(mode@).2,
{
    let m = chars_of(mode);
    if is_lit(&m, "global") {
        ModeView {
            description: "Global System Settings: Configure audio settings system-wide for ALL applications. This is the standard approach for general audio configuration.",
            apply_label: Some("Apply Advanced Global Settings"),
            global_visible: Some(true),
        }
    } else if is_lit(&m, "exclusive") {
        ModeView {
            description: "Exclusive Mode: Provide direct hardware access to a SINGLE application, bypassing mixing and processing. Similar to ASIO/WASAPI exclusive mode for low-latency professional audio work.",
            apply_label: Some("Apply Exclusive Mode Settings"),
            global_visible: Some(false),
        }
    } else {
        ModeView { description: "Select a configuration mode above", apply_label: None, global_visible: None }
    }
}

/// The professional settings chosen on the advanced tab.
pub struct ProfessionalRequest {
    pub settings: AudioSettings,
    pub min_buffer: u32,
    pub max_buffer: u32,
    pub thread_priority: String,
    pub memory_lock: bool,
    pub prevent_suspend: bool,
    pub disable_remixing: bool,
    pub disable_resampling: bool,
    pub resampler_quality: String,
    pub clock_source: String,
}

/// The professional settings of the advanced tab's choices: the basic
/// fallbacks, then 128 and 2048 samples for the buffer limits, `high`
/// thread priority and resampler quality, and the `monotonic` clock.
pub fn professional_request(
    rate_id: Option<&str>,
    depth_id: Option<&str>,
    buffer_id: Option<&str>,
    device_id: Option<&str>,
    min_buffer_id: Option<&str>,
    max_buffer_id: Option<&str>,
    thread_priority_id: Option<&str>,
    memory_lock: bool,
    prevent_suspend: bool,
    disable_remixing: bool,
    disable_resampling: bool,
    resampler_id: Option<&str>,
    clock_id: Option<&str>,
) -> (r: ProfessionalRequest)
    ensures
        r.settings.sample_rate == choice(opt_str(rate_id), 48000),
        r.settings.bit_depth == choice(opt_str(depth_id), 24),
        r.settings.buffer_size == choice(opt_str(buffer_id), 512),
        r.settings.device_id@ == text_choice(opt_str(device_id), "default"@),
        r.min_buffer == choice(opt_str(min_buffer_id), 128),
        r.max_buffer == choice(opt_str(max_buffer_id), 2048),
        r.thread_priority@ == text_choice(opt_str(thread_priority_id), "high"@),
        r.memory_lock == memory_lock,
        r.prevent_suspend == prevent_suspend,
        r.disable_remixing == disable_remixing,
        r.disable_resampling == disable_resampling,
        r.resampler_quality@ == text_choice(opt_str(resampler_id), "high"@),
        r.clock_source@ == text_choice(opt_str(clock_id), "monotonic"@),
{
    ProfessionalRequest {
        settings: settings_from_choices(rate_id, depth_id, buffer_id, device_id),
        min_buffer: choice_or(min_buffer_id, 128),
        max_buffer: choice_or(max_buffer_id, 2048),
        thread_priority: text_or(thread_priority_id, "high"),
        memory_lock,
        prevent_suspend,
        disable_remixing,
        disable_resampling,
        resampler_quality: text_or(resampler_id, "high"),
        clock_source: text_or(clock_id, "monotonic"),
    }
}

/// The exclusive-mode settings chosen on the advanced tab.
pub struct ExclusiveRequest {
    pub device_pattern: String,
    pub buffer_size: u32,
    pub sample_rate: u32,
    pub app_name: Option<String>,
    pub process_name: Option<String>,
}

pub open spec fn named(text: Seq<char>) -> Option<Seq<char>> {
    if text.len() == 0 {
        None
    } else {
        Some(text)
    }
}

pub open spec fn opt_string(o: Option<String>) -> Option<Seq<char>> {
    match o {
        Some(s) => Some(s@),
        None => None,
    }
}

fn named_of(text: &str) -> (r: Option<String>)
    ensures
        opt_string(r) == named(text@),
{
    if text.is_empty() {
        None
    } else {
        Some(text.to_string())
    }
}

/// The exclusive-mode settings of the choices: the default device, 128
/// samples and 48000 Hz where a choice is missing or unreadable; an empty
/// application or process name is no name.
pub fn exclusive_request(
    device_id: Option<&str>,
    buffer_id: Option<&str>,
    rate_id: Option<&str>,
    app_name: &str,
    process_name: &str,
) -> (r: ExclusiveRequest)
    ensures
        r.device_pattern@ == text_choice(opt_str(device_id), "default"@),
        r.buffer_size == choice(opt_str(buffer_id), 128),
        r.sample_rate == choice(opt_str(rate_id), 48000),
        opt_string(r.app_name) == named(app_name@),
        opt_string(r.process_name) == named(process_name@),
{
    ExclusiveRequest {
        device_pattern: text_or(device_id, "default"),
        buffer_size: choice_or(buffer_id, 128),
        sample_rate: choice_or(rate_id, 48000),
        app_name: named_of(app_name),
        process_name: named_of(process_name),
    }
}

/// The actions of the advanced tab.
#[derive(Clone, Copy, Debug, PartialEq, Eq, Structural)]
pub enum AdvancedAction {
    /// Apply the professional global settings.
    Global,
    /// Apply the exclusive mode.
    Exclusive,
    /// Leave the exclusive mode.
    DisableExclusive,
}

/// The status line and dialog text after an action of the advanced tab (the
/// status line is empty where the action shows none).
pub open spec fn advanced_result_texts(a: AdvancedAction, result: Result<(), Seq<char>>) -> (Seq<char>, Seq<char>) {
    match (a, result) {
        (AdvancedAction::Global, Ok(())) => (
            "Global settings applied successfully!"@,
            "Global audio settings applied successfully."@,
        ),
        (AdvancedAction::Global, Err(e)) => (
            "Failed to apply advanced settings"@,
            "Failed to apply advanced settings: "@ + e,
        ),
        (AdvancedAction::Exclusive, Ok(())) => (
            "Exclusive mode settings applied successfully!"@,
            "Exclusive mode settings applied successfully."@,
        ),
        (AdvancedAction::Exclusive, Err(e)) => (
            "Failed to apply exclusive mode settings"@,
            "Failed to apply exclusive mode settings: "@ + e,
        ),
        (AdvancedAction::DisableExclusive, Ok(())) => (
            Seq::empty(),
            "Exclusive mode disabled. Standard shared audio mode restored."@,
        ),
        (AdvancedAction::DisableExclusive, Err(e)) => (Seq::empty(), "Failed to disable exclusive mode: "@ + e),
    }
}

pub fn advanced_result_messages(action: AdvancedAction, result: &Result<(), String>) -> (m: (String, String))
    ensures
        (m.0@, m.1@) == advanced_result_texts(action, crate::apply::outcome(*result)),
{
    let mut status: Vec<char> = Vec::new();
    let mut dialog: Vec<char> = Vec::new();
    match (action, result) {
        (AdvancedAction::Global, Ok(())) => {
            push_str(&mut status, "Global settings applied successfully!");
            push_str(&mut dialog, "Global audio settings applied successfully.");
        },
        (AdvancedAction::Global, Err(e)) => {
            push_str(&mut status, "Failed to apply advanced settings");
            push_str(&mut dialog, "Failed to apply advanced settings: ");
            push_str(&mut dialog, e.as_str());
        },
        (AdvancedAction::Exclusive, Ok(())) => {
            push_str(&mut status, "Exclusive mode settings applied successfully!");
            push_str(&mut dialog, "Exclusive mode settings applied successfully.");
        },
        (AdvancedAction::Exclusive, Err(e)) => {
            push_str(&mut status, "Failed to apply exclusive mode settings");
            push_str(&mut dialog, "Failed to apply exclusive mode settings: ");
            push_str(&mut dialog, e.as_str());
        },
        (AdvancedAction::DisableExclusive, Ok(())) => {
            push_str(&mut dialog, "Exclusive mode disabled. Standard shared audio mode restored.");
        },
        (AdvancedAction::DisableExclusive, Err(e)) => {
            push_str(&mut dialog, "Failed to disable exclusive mode: ");
            push_str(&mut dialog, e.as_str());
        },
    }
    proof {
        assert(Seq::<char>::empty() =~= Seq::<char>::empty());
    }
    (string_of(&status), string_of(&dialog))
}

/// How a tab's settings are applied: system-wide through the authenticated
/// apply of the tab, or for the user alone.
#[derive(Clone, Copy, Debug, PartialEq, Eq, Structural)]
pub enum ApplyRoute {
    Authenticated(TabType),
    User(TabType),
}

/// What the apply button of a tab does: the settings of its choices (see
/// [`settings_from_choices`]), applied by the route that the preference for
/// system-wide configuration selects.
pub struct ApplyPlan {
    pub route: ApplyRoute,
    pub settings: AudioSettings,
}

pub fn apply_plan(
    tab: TabType,
    system_wide: bool,
    rate_id: Option<&str>,
    depth_id: Option<&str>,
    buffer_id: Option<&str>,
    device_id: Option<&str>,
) -> (p: ApplyPlan)
    ensures
        p.route == (if system_wide {
            ApplyRoute::Authenticated(tab)
        } else {
            ApplyRoute::User(tab)
        }),
        p.settings.sample_rate == choice(opt_str(rate_id), 48000),
        p.settings.bit_depth == choice(opt_str(depth_id), 24),
        p.settings.buffer_size == choice(opt_str(buffer_id), 512),
        p.settings.device_id@ == text_choice(opt_str(device_id), "default"@),
{
    let route = if system_wide {
        ApplyRoute::Authenticated(tab)
    } else {
        ApplyRoute::User(tab)
    };
    ApplyPlan { route, settings: settings_from_choices(rate_id, depth_id, buffer_id, device_id) }
}

/// Whether a device of this direction is listed on a tab: outputs and
/// duplex devices on the output tab, inputs and duplex devices on the input
/// tab.
pub open spec fn serves_tab(t: DeviceType, tab: TabType) -> bool {
    match tab {
        TabType::Output => t == DeviceType::Output || t == DeviceType::Duplex,
        TabType::Input => t == DeviceType::Input || t == DeviceType::Duplex,
    }
}

/// The devices of a tab, in the order of the list.
pub open spec fn tab_devices(ds: Seq<DeviceView>, tab: TabType) -> Seq<DeviceView>
    decreases ds.len(),
{
    if ds.len() == 0 {
        Seq::empty()
    } else {
        let prev = tab_devices(ds.drop_last(), tab);
        if serves_tab(ds.last().device_type, tab) {
            prev.push(ds.last())
        } else {
            prev
        }
    }
}

fn copy_device(d: &AudioDevice) -> (r: AudioDevice)
    ensures
        r@ == d@,
{
    AudioDevice {
        name: d.name.clone(),
        description: d.description.clone(),
        id: d.id.clone(),
        device_type: d.device_type,
        available: d.available,
    }
}

/// The devices that a tab lists (see [`tab_devices`]).
pub fn devices_for_tab(devices: &Vec<AudioDevice>, tab: TabType) -> (r: Vec<AudioDevice>)
    ensures
        crate::audio::devices_view(r@) == tab_devices(crate::audio::devices_view(devices@), tab),
{
    let ghost ds = crate::audio::devices_view(devices@);
    let mut r: Vec<AudioDevice> = Vec::new();
    let mut i: usize = 0;
    proof {
        assert(ds.take(0) =~= Seq::<DeviceView>::empty());
        assert(crate::audio::devices_view(r@) =~= Seq::<DeviceView>::empty());
    }
    while i < devices.len()
        invariant
            ds == crate::audio::devices_view(devices@),
            i <= devices.len(),
            crate::audio::devices_view(r@) == tab_devices(ds.take(i as int), tab),
        decreases devices.len() - i,
    {
        proof {
            assert(ds.take(i + 1).drop_last() =~= ds.take(i as int));
            assert(ds.take(i + 1).last() == devices@[i as int]@);
        }
        let d = &devices[i];
        let keep = match (tab, d.device_type) {
            (TabType::Output, DeviceType::Output) => true,
            (TabType::Input, DeviceType::Input) => true,
            (_, DeviceType::Duplex) => true,
            _ => false,
        };
        if keep {
            let ghost before = crate::audio::devices_view(r@);
            let c = copy_device(d);
            r.push(c);
            proof {
                assert(crate::audio::devices_view(r@) =~= before.push(devices@[i as int]@));
            }
        }
        i += 1;
    }
    proof {
        assert(ds.take(devices.len() as int) =~= ds);
    }
    r
}

} // verus!
