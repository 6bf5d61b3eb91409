//! Audio devices and settings: the device lists that the PipeWire, ALSA and
//! PulseAudio tools print, the filter that keeps real hardware, and the
//! values that the settings scripts are built from.

use vstd::prelude::*;
use crate::text::{
    Strip, chars_of, contains, contains_of, copy_of, deep, join, join_of, lines, lines_of,
    lowercase, occurs_at_of, second_field, second_field_of, skip_parts, split_by, split_of,
    split_whitespace, split_whitespace_of, starts_with, starts_with_of, string_of, subvec, trim,
    trim_matches, trim_matches_of, trim_of, to_lowercase_of, lossy_utf8, utf8_lossy_of,
    trim_start_str, trim_start_str_of, replace, replace_of, parse_u32, parse_u32_of, push_str,
    push_chars, push_dec, dec,
};

verus! {

broadcast use vstd::string::group_string_axioms;

/// The direction of an audio device.
#[derive(Clone, Copy, Debug, PartialEq, Eq)]
pub enum DeviceType {
    Input,
    Output,
    Duplex,
    Unknown,
}

/// An audio device as one of the sound systems reports it.
#[derive(Clone, Debug)]
pub struct AudioDevice {
    pub name: String,
    pub description: String,
    pub id: String,
    pub device_type: DeviceType,
    pub available: bool,
}

/// The abstract value of an [`AudioDevice`].
pub struct DeviceView {
    pub name: Seq<char>,
    pub description: Seq<char>,
    pub id: Seq<char>,
    pub device_type: DeviceType,
    pub available: bool,
}

impl View for AudioDevice {
    type V = DeviceView;

    open spec fn view(&self) -> DeviceView {
        DeviceView {
            name: self.name@,
            description: self.description@,
            id: self.id@,
            device_type: self.device_type,
            available: self.available,
        }
    }
}

/// The views of a list of devices.
pub open spec fn devices_view(v: Seq<AudioDevice>) -> Seq<DeviceView> {
    v.map_values(|d: AudioDevice| d@)
}

/// What a device supports: its sample rates, formats, buffer sizes and
/// period sizes, and its buffer limits.
#[derive(Clone, Debug)]
pub struct DeviceCapabilities {
    pub sample_rates: Vec<u32>,
    pub formats: Vec<String>,
    pub buffer_sizes: Vec<u32>,
    pub min_buffer_size: u32,
    pub max_buffer_size: u32,
    pub period_sizes: Vec<u32>,
}

/// Sample rate, bit depth and buffer size for one device.
#[derive(Clone, Debug)]
pub struct AudioSettings {
    pub sample_rate: u32,
    pub bit_depth: u32,
    pub buffer_size: u32,
    pub device_id: String,
}

impl AudioSettings {
    pub fn new(sample_rate: u32, bit_depth: u32, buffer_size: u32, device_id: String) -> (s: Self)
        ensures
            s.sample_rate == sample_rate,
            s.bit_depth == bit_depth,
            s.buffer_size == buffer_size,
            s.device_id@ == device_id@,
    {
        AudioSettings { sample_rate, bit_depth, buffer_size, device_id }
    }
}

/// `s` contains the literal `pat`.
pub fn contains_lit(s: &Vec<char>, pat: &str) -> (b: bool)
    ensures
        b == contains(s@, pat@),
{
    contains_of(s, &chars_of(pat))
}

/// `s` begins with the literal `pat`.
pub fn begins(s: &Vec<char>, pat: &str) -> (b: bool)
    ensures
        b == starts_with(s@, pat@),
{
    starts_with_of(s, &chars_of(pat))
}

/// `s` is the literal `pat`.
pub fn is_lit(s: &Vec<char>, pat: &str) -> (b: bool)
    ensures
        b == (s@ == pat@),
{
    let p = chars_of(pat);
    if s.len() != p.len() {
        return false;
    }
    let r = occurs_at_of(s, &p, 0);
    proof {
        assert(s@ =~= s@.subrange(0, p@.len() as int));
    }
    r
}

/// `a` followed by the characters of `b`.
pub fn cat(a: &str, b: &Vec<char>) -> (r: Vec<char>)
    ensures
        r@ == a@ + b@,
{
    let mut r = chars_of(a);
    let mut t = subvec(b, 0, b.len());
    proof {
        assert(t@ =~= b@);
    }
    r.append(&mut t);
    r
}

/// The lower-case characters of a string (for ASCII text, `A`-`Z` lowered
/// one by one).
pub fn lower_chars(s: &String) -> (r: Vec<char>)
    ensures
        r@ == lowercase(s@),
        (forall|i: int| 0 <= i < s@.len() ==> (#[trigger] s@[i] as u32) < 128) ==> r@ == s@.map_values(
            |c: char| crate::text::ascii_lower(c),
        ),
{
    let l = to_lowercase_of(s.as_str());
    chars_of(l.as_str())
}

/// Names and descriptions that mark virtual or internal devices.
pub open spec fn marks_virtual(s: Seq<char>) -> bool {
    ||| contains(s, "virtual"@)
    ||| contains(s, "null"@)
    ||| contains(s, "dummy"@)
    ||| contains(s, "echo-cancel"@)
    ||| contains(s, "monitor"@)
    ||| contains(s, "proaudio"@)
}

/// ALSA device names of plugins rather than hardware.
pub open spec fn alsa_plugin_name(name: Seq<char>) -> bool {
    ||| name == "default"@
    ||| contains(name, "dmix"@)
    ||| contains(name, "dsnoop"@)
    ||| contains(name, "hw"@)
    ||| contains(name, "plughw"@)
    ||| contains(name, "lavrate"@)
    ||| contains(name, "samplerate"@)
    ||| contains(name, "speexrate"@)
    ||| contains(name, "variable"@)
    ||| contains(name, "rate_convert"@)
    ||| contains(name, "linear"@)
    ||| contains(name, "mu-law"@)
    ||| contains(name, "a-law"@)
    ||| contains(name, "float"@)
    ||| contains(name, "oss"@)
    ||| contains(name, "pulse"@)
    ||| contains(name, "upmix"@)
    ||| contains(name, "vdownmix"@)
    ||| contains(name, "usbstream"@)
}

/// PipeWire nodes that are internal, or ALSA playback/capture nodes.
pub open spec fn pipewire_internal(name: Seq<char>, desc: Seq<char>) -> bool {
    ||| (contains(desc, "internal"@) && !contains(desc, "usb"@) && !contains(desc, "hdmi"@)
        && !contains(desc, "analog"@))
    ||| (contains(name, "alsa_"@) && contains(name, "playback"@))
    ||| (contains(name, "alsa_"@) && contains(name, "capture"@))
}

/// PulseAudio modules and null outputs.
pub open spec fn pulse_virtual(name: Seq<char>, desc: Seq<char>) -> bool {
    ||| contains(name, "module-"@)
    ||| contains(desc, "module-"@)
    ||| name == "auto_null"@
    ||| contains(desc, "null output"@)
}

/// A device is taken for real hardware unless its lower-cased name or
/// description marks it virtual, or the rules of its sound system
/// (told by the prefix of its id) mark it as a plugin or internal node.
pub open spec fn is_real_hardware(d: DeviceView) -> bool {
    let name = lowercase(d.name);
    let desc = lowercase(d.description);
    &&& !marks_virtual(name)
    &&& !marks_virtual(desc)
    &&& !(starts_with(d.id, "pipewire:"@) && pipewire_internal(name, desc))
    &&& !(starts_with(d.id, "alsa:"@) && alsa_plugin_name(name))
    &&& !(starts_with(d.id, "pulse:"@) && pulse_virtual(name, desc))
}

fn marks_virtual_of(s: &Vec<char>) -> (b: bool)
    ensures
        b == marks_virtual(s@),
{
    contains_lit(s, "virtual") || contains_lit(s, "null") || contains_lit(s, "dummy") || contains_lit(s, "echo-cancel") || contains_lit(
        s,
        "monitor",
    ) || contains_lit(s, "proaudio")
}

fn alsa_plugin_name_of(name: &Vec<char>) -> (b: bool)
    ensures
        b == alsa_plugin_name(name@),
{
    is_lit(name, "default") || contains_lit(name, "dmix") || contains_lit(name, "dsnoop") || contains_lit(name, "hw") || contains_lit(
        name,
        "plughw",
    ) || contains_lit(name, "lavrate") || contains_lit(name, "samplerate") || contains_lit(name, "speexrate") || contains_lit(
        name,
        "variable",
    ) || contains_lit(name, "rate_convert") || contains_lit(name, "linear") || contains_lit(name, "mu-law") || contains_lit(
        name,
        "a-law",
    ) || contains_lit(name, "float") || contains_lit(name, "oss") || contains_lit(name, "pulse") || contains_lit(name, "upmix")
        || contains_lit(name, "vdownmix") || contains_lit(name, "usbstream")
}

/// Whether a detected device is real hardware (see [`is_real_hardware`]).
pub fn is_real_hardware_device(device: &AudioDevice) -> (b: bool)
    ensures
        b == is_real_hardware(device@),
{
    let name = lower_chars(&device.name);
    let desc = lower_chars(&device.description);
    let id = chars_of(device.id.as_str());
    if marks_virtual_of(&name) || marks_virtual_of(&desc) {
        return false;
    }
    if begins(&id, "pipewire:") {
        if contains_lit(&desc, "internal") && !contains_lit(&desc, "usb") && !contains_lit(&desc, "hdmi") && !contains_lit(
            &desc,
            "analog",
        ) {
            return false;
        }
        if contains_lit(&name, "alsa_") && contains_lit(&name, "playback") || contains_lit(&name, "alsa_") && contains_lit(
            &name,
            "capture",
        ) {
            return false;
        }
    }
    if begins(&id, "alsa:") {
        if alsa_plugin_name_of(&name) {
            return false;
        }
    }
    if begins(&id, "pulse:") {
        if contains_lit(&name, "module-") || contains_lit(&desc, "module-") || is_lit(&name, "auto_null") || contains_lit(
            &desc,
            "null output",
        ) {
            return false;
        }
    }
    true
}


/// The first piece whose trimmed text starts with `id:`.
pub open spec fn first_id_piece(pieces: Seq<Seq<char>>) -> Option<Seq<char>>
    decreases pieces.len(),
{
    if pieces.len() == 0 {
        None
    } else if starts_with(trim(pieces[0]), "id:"@) {
        Some(pieces[0])
    } else {
        first_id_piece(pieces.drop_first())
    }
}

/// The id of a PipeWire object line such as `id: 123, type ...`:
/// `pipewire:` and the trimmed text after the first `:` of the first
/// comma-separated piece that starts with `id:`; `unknown` if there is none.
pub open spec fn object_id(line: Seq<char>) -> Seq<char> {
    match first_id_piece(split_by(line, Strip::Ch(','))) {
        Some(p) => match second_field(p, ':') {
            Some(id) => "pipewire:"@ + trim(id),
            None => "unknown"@,
        },
        None => "unknown"@,
    }
}

pub fn extract_id(line: &str) -> (id: String)
    ensures
        id@ == object_id(line@),
{
    let l = chars_of(line);
    let pieces = split_of(&l, Strip::Ch(','));
    let ghost all = deep(pieces@);
    let mut i: usize = 0;
    proof {
        assert(all.skip(0) =~= all);
    }
    while i < pieces.len()
        invariant
            all == deep(pieces@),
            all == split_by(l@, Strip::Ch(',')),
            l@ == line@,
            i <= pieces.len(),
            first_id_piece(all) == first_id_piece(all.skip(i as int)),
        decreases pieces.len() - i,
    {
        proof {
            assert(all.skip(i as int)[0] == pieces@[i as int]@);
            assert(all.skip(i as int).drop_first() =~= all.skip(i + 1));
        }
        let t = trim_of(&pieces[i]);
        if begins(&t, "id:") {
            proof {
                assert(first_id_piece(all.skip(i as int)) == Some(pieces@[i as int]@));
            }
            match second_field_of(&pieces[i], ':') {
                Some(f) => {
                    let v = cat("pipewire:", &trim_of(&f));
                    return string_of(&v);
                },
                None => {
                    return "unknown".to_string();
                },
            }
        }
        i += 1;
    }
    proof {
        assert(all.skip(i as int) =~= Seq::<Seq<char>>::empty());
    }
    "unknown".to_string()
}

pub open spec fn alsa_kind_label(t: DeviceType) -> Seq<char> {
    match t {
        DeviceType::Input => "Input"@,
        DeviceType::Output => "Output"@,
        _ => "Device"@,
    }
}

/// The device that a line of `aplay -L` / `arecord -L` names.
pub open spec fn alsa_device(line: Seq<char>, t: DeviceType) -> DeviceView {
    DeviceView {
        name: line,
        description: "ALSA "@ + alsa_kind_label(t),
        id: "alsa:"@ + line,
        device_type: t,
        available: true,
    }
}

/// Lines that name a device: not indented, not empty, not `default`.
pub open spec fn alsa_candidate(line: Seq<char>) -> bool {
    !starts_with(line, " "@) && line.len() != 0 && line != "default"@
}

/// The real hardware devices that the given lines of `aplay -L` name.
pub open spec fn alsa_devices(ls: Seq<Seq<char>>, t: DeviceType) -> Seq<DeviceView>
    decreases ls.len(),
{
    if ls.len() == 0 {
        Seq::empty()
    } else {
        let prev = alsa_devices(ls.drop_last(), t);
        let d = alsa_device(ls.last(), t);
        if alsa_candidate(ls.last()) && is_real_hardware(d) {
            prev.push(d)
        } else {
            prev
        }
    }
}

fn alsa_kind_label_of(t: DeviceType) -> (s: &'static str)
    ensures
        s@ == alsa_kind_label(t),
{
    match t {
        DeviceType::Input => "Input",
        DeviceType::Output => "Output",
        _ => "Device",
    }
}

/// The real hardware devices listed in the output of `aplay -L` or
/// `arecord -L`, all of the given type.
pub fn parse_alsa_output(output: &str, device_type: DeviceType) -> (devices: Vec<AudioDevice>)
    ensures
        devices_view(devices@) == alsa_devices(lines(output@), device_type),
{
    let text = chars_of(output);
    let ls = lines_of(&text);
    let ghost all = deep(ls@);
    let mut devices: Vec<AudioDevice> = Vec::new();
    let mut i: usize = 0;
    proof {
        assert(all.take(0) =~= Seq::<Seq<char>>::empty());
    }
    while i < ls.len()
        invariant
            all == deep(ls@),
            all == lines(output@),
            i <= ls.len(),
            devices_view(devices@) == alsa_devices(all.take(i as int), device_type),
        decreases ls.len() - i,
    {
        let line = &ls[i];
        proof {
            assert(all.take(i + 1).drop_last() =~= all.take(i as int));
            assert(all.take(i + 1).last() == line@);
        }
        if !begins(line, " ") && line.len() != 0 && !is_lit(line, "default") {
            let mut desc = chars_of("ALSA ");
            let mut label = chars_of(alsa_kind_label_of(device_type));
            desc.append(&mut label);
            let device = AudioDevice {
                name: string_of(line),
                description: string_of(&desc),
                id: string_of(&cat("alsa:", line)),
                device_type: device_type,
                available: true,
            };
            if is_real_hardware_device(&device) {
                let ghost before = devices_view(devices@);
                devices.push(device);
                proof {
                    assert(devices_view(devices@) =~= before.push(device@));
                    assert(device@ == alsa_device(line@, device_type));
                }
            } else {
                proof {
                    assert(device@ == alsa_device(line@, device_type));
                }
            }
        } else {
            proof {
                assert(line.len() == 0 ==> line@.len() == 0);
            }
        }
        i += 1;
    }
    proof {
        assert(all.take(ls.len() as int) =~= all);
    }
    devices
}

/// The device that a line of `pactl list sinks short` describes, given the
/// line's whitespace-separated fields (at least two).
pub open spec fn pulse_device(parts: Seq<Seq<char>>, t: DeviceType) -> DeviceView {
    DeviceView {
        name: parts[1],
        description: if parts.len() >= 3 {
            join(parts.skip(2), " "@)
        } else {
            "PulseAudio Device"@
        },
        id: "pulse:"@ + parts[0],
        device_type: t,
        available: true,
    }
}

/// The real hardware devices that the given lines of `pactl ... short` list.
pub open spec fn pulse_devices(ls: Seq<Seq<char>>, t: DeviceType) -> Seq<DeviceView>
    decreases ls.len(),
{
    if ls.len() == 0 {
        Seq::empty()
    } else {
        let prev = pulse_devices(ls.drop_last(), t);
        let parts = split_whitespace(ls.last());
        if parts.len() >= 2 && is_real_hardware(pulse_device(parts, t)) {
            prev.push(pulse_device(parts, t))
        } else {
            prev
        }
    }
}

/// The real hardware devices listed in the output of `pactl list sinks short`
/// or `pactl list sources short`, all of the given type.
pub fn parse_pulse_output(output: &str, device_type: DeviceType) -> (devices: Vec<AudioDevice>)
    ensures
        devices_view(devices@) == pulse_devices(lines(output@), device_type),
{
    let text = chars_of(output);
    let ls = lines_of(&text);
    let ghost all = deep(ls@);
    let mut devices: Vec<AudioDevice> = Vec::new();
    let mut i: usize = 0;
    proof {
        assert(all.take(0) =~= Seq::<Seq<char>>::empty());
    }
    while i < ls.len()
        invariant
            all == deep(ls@),
            all == lines(output@),
            i <= ls.len(),
            devices_view(devices@) == pulse_devices(all.take(i as int), device_type),
        decreases ls.len() - i,
    {
        proof {
            assert(all.take(i + 1).drop_last() =~= all.take(i as int));
            assert(all.take(i + 1).last() == ls@[i as int]@);
        }
        let parts = split_whitespace_of(&ls[i]);
        let ghost dp = deep(parts@);
        if parts.len() >= 2 {
            proof {
                assert(dp[0] == parts@[0]@);
                assert(dp[1] == parts@[1]@);
            }
            let desc = if parts.len() >= 3 {
                let rest = skip_parts(&parts, 2);
                join_of(&rest, &chars_of(" "))
            } else {
                chars_of("PulseAudio Device")
            };
            let device = AudioDevice {
                name: string_of(&parts[1]),
                description: string_of(&desc),
                id: string_of(&cat("pulse:", &parts[0])),
                device_type: device_type,
                available: true,
            };
            proof {
                assert(device@ == pulse_device(dp, device_type));
            }
            if is_real_hardware_device(&device) {
                let ghost before = devices_view(devices@);
                devices.push(device);
                proof {
                    assert(devices_view(devices@) =~= before.push(device@));
                }
            }
        }
        i += 1;
    }
    proof {
        assert(all.take(ls.len() as int) =~= all);
    }
    devices
}


/// The parser's state after some lines of `pw-cli list-objects Node`:
/// the finished devices and the node being read, if any.
pub struct NodeScan {
    pub done: Seq<DeviceView>,
    pub cur: Option<DeviceView>,
}

/// A line that opens a new node.
pub open spec fn opens_node(line: Seq<char>) -> bool {
    contains(line, "object:"@) && contains(line, "Node"@)
}

/// The node that an opening line starts.
pub open spec fn new_node(line: Seq<char>) -> DeviceView {
    DeviceView {
        name: "Unknown"@,
        description: "PipeWire Node"@,
        id: object_id(line),
        device_type: DeviceType::Unknown,
        available: true,
    }
}

/// The value of a `key = "value"` property line: the text after the first
/// `=` (up to the next `=`), trimmed, without surrounding quotes.
pub open spec fn property_value(v: Seq<char>) -> Seq<char> {
    trim_matches(trim(v), '"')
}

/// The direction that a `media.class` value gives; for a bare `Audio` class
/// the node's lower-cased name and description decide.
pub open spec fn class_type(class: Seq<char>, name: Seq<char>, desc: Seq<char>) -> DeviceType {
    let n = lowercase(name);
    let d = lowercase(desc);
    if contains(class, "Audio/Source"@) {
        DeviceType::Input
    } else if contains(class, "Audio/Sink"@) {
        DeviceType::Output
    } else if contains(class, "Audio/Duplex"@) {
        DeviceType::Duplex
    } else if contains(class, "Audio"@) {
        if contains(n, "input"@) || contains(d, "input"@) || contains(d, "capture"@) {
            DeviceType::Input
        } else if contains(n, "output"@) || contains(d, "output"@) || contains(d, "playback"@) {
            DeviceType::Output
        } else {
            DeviceType::Unknown
        }
    } else {
        DeviceType::Unknown
    }
}

/// A property line whose key holds `key` and that has a value.
pub open spec fn sets(line: Seq<char>, key: Seq<char>) -> bool {
    contains(line, key) && contains(line, "="@) && second_field(line, '=') is Some
}

/// The node being read, after a line that may set its name, description
/// or media class (in that order).
pub open spec fn update_node(d: DeviceView, line: Seq<char>) -> DeviceView {
    let v = property_value(second_field(line, '=')->0);
    let d1 = if sets(line, "node.name"@) {
        DeviceView { name: v, ..d }
    } else {
        d
    };
    let d2 = if sets(line, "node.description"@) {
        DeviceView { description: v, ..d1 }
    } else {
        d1
    };
    if sets(line, "media.class"@) {
        DeviceView { device_type: class_type(v, d2.name, d2.description), ..d2 }
    } else {
        d2
    }
}

/// `done` with `d` added when it is real hardware.
pub open spec fn keep_real(done: Seq<DeviceView>, d: DeviceView) -> Seq<DeviceView> {
    if is_real_hardware(d) {
        done.push(d)
    } else {
        done
    }
}

/// One line of the listing read.
pub open spec fn scan_line(st: NodeScan, line: Seq<char>) -> NodeScan {
    let st1 = if opens_node(line) {
        NodeScan {
            done: match st.cur {
                Some(d) => keep_real(st.done, d),
                None => st.done,
            },
            cur: Some(new_node(line)),
        }
    } else {
        st
    };
    match st1.cur {
        Some(d) => NodeScan { done: st1.done, cur: Some(update_node(d, line)) },
        None => st1,
    }
}

/// The state after the given lines.
pub open spec fn scan_lines(ls: Seq<Seq<char>>) -> NodeScan
    decreases ls.len(),
{
    if ls.len() == 0 {
        NodeScan { done: Seq::empty(), cur: None }
    } else {
        scan_line(scan_lines(ls.drop_last()), ls.last())
    }
}

/// The real hardware nodes of a `pw-cli list-objects Node` listing, in order.
pub open spec fn pipewire_devices(text: Seq<char>) -> Seq<DeviceView> {
    let st = scan_lines(lines(text));
    match st.cur {
        Some(d) => keep_real(st.done, d),
        None => st.done,
    }
}

pub open spec fn opt_view(d: Option<AudioDevice>) -> Option<DeviceView> {
    match d {
        Some(x) => Some(x@),
        None => None,
    }
}

fn class_type_of(class: &Vec<char>, name: &String, desc: &String) -> (t: DeviceType)
    ensures
        t == class_type(class@, name@, desc@),
{
    if contains_lit(class, "Audio/Source") {
        DeviceType::Input
    } else if contains_lit(class, "Audio/Sink") {
        DeviceType::Output
    } else if contains_lit(class, "Audio/Duplex") {
        DeviceType::Duplex
    } else if contains_lit(class, "Audio") {
        let n = lower_chars(name);
        let d = lower_chars(desc);
        if contains_lit(&n, "input") || contains_lit(&d, "input") || contains_lit(&d, "capture") {
            DeviceType::Input
        } else if contains_lit(&n, "output") || contains_lit(&d, "output") || contains_lit(
            &d,
            "playback",
        ) {
            DeviceType::Output
        } else {
            DeviceType::Unknown
        }
    } else {
        DeviceType::Unknown
    }
}

fn update_node_of(d: AudioDevice, line: &Vec<char>) -> (r: AudioDevice)
    ensures
        r@ == update_node(d@, line@),
{
    let mut d = d;
    let has_eq = contains_lit(line, "=");
    let field = second_field_of(line, '=');
    match field {
        Some(f) => {
            let v = trim_matches_of(&trim_of(&f), '"');
            let ghost d0 = d@;
            if has_eq && contains_lit(line, "node.name") {
                d.name = string_of(&v);
            }
            let ghost d1 = d@;
            proof {
                assert(d1 == (if sets(line@, "node.name"@) {
                    DeviceView { name: v@, ..d0 }
                } else {
                    d0
                }));
            }
            if has_eq && contains_lit(line, "node.description") {
                d.description = string_of(&v);
            }
            let ghost d2 = d@;
            if has_eq && contains_lit(line, "media.class") {
                let t = class_type_of(&v, &d.name, &d.description);
                d.device_type = t;
            }
            d
        },
        None => d,
    }
}

fn new_node_of(line: &str) -> (d: AudioDevice)
    ensures
        d@ == new_node(line@),
{
    AudioDevice {
        name: "Unknown".to_string(),
        description: "PipeWire Node".to_string(),
        id: extract_id(line),
        device_type: DeviceType::Unknown,
        available: true,
    }
}

/// The real hardware nodes of a `pw-cli list-objects Node` listing.
pub fn parse_pipewire_text(output: &str) -> (devices: Vec<AudioDevice>)
    ensures
        devices_view(devices@) == pipewire_devices(output@),
{
    let text = chars_of(output);
    let ls = lines_of(&text);
    let ghost all = deep(ls@);
    let mut done: Vec<AudioDevice> = Vec::new();
    let mut cur: Option<AudioDevice> = None;
    let mut i: usize = 0;
    proof {
        assert(all.take(0) =~= Seq::<Seq<char>>::empty());
    }
    while i < ls.len()
        invariant
            all == deep(ls@),
            all == lines(output@),
            i <= ls.len(),
            devices_view(done@) == scan_lines(all.take(i as int)).done,
            opt_view(cur) == scan_lines(all.take(i as int)).cur,
        decreases ls.len() - i,
    {
        let line = &ls[i];
        proof {
            assert(all.take(i + 1).drop_last() =~= all.take(i as int));
            assert(all.take(i + 1).last() == line@);
        }
        if contains_lit(line, "object:") && contains_lit(line, "Node") {
            let prev = cur;
            match prev {
                Some(d) => {
                    if is_real_hardware_device(&d) {
                        let ghost before = devices_view(done@);
                        let ghost dv = d@;
                        done.push(d);
                        proof {
                            assert(devices_view(done@) =~= before.push(dv));
                        }
                    }
                },
                None => {},
            }
            let ls_line = string_of(line);
            cur = Some(new_node_of(ls_line.as_str()));
        }
        let taken = cur;
        cur = match taken {
            Some(d) => Some(update_node_of(d, line)),
            None => None,
        };
        i += 1;
    }
    proof {
        assert(all.take(ls.len() as int) =~= all);
    }
    match cur {
        Some(d) => {
            if is_real_hardware_device(&d) {
                let ghost before = devices_view(done@);
                let ghost dv = d@;
                done.push(d);
                proof {
                    assert(devices_view(done@) =~= before.push(dv));
                }
            }
        },
        None => {},
    }
    done
}


/// The real hardware nodes of `pw-cli list-objects Node` output, decoded as
/// `String::from_utf8_lossy` does.
pub fn parse_pipewire_devices(output: &[u8]) -> (r: Result<Vec<AudioDevice>, String>)
    ensures
        r matches Ok(d) && devices_view(d@) == pipewire_devices(lossy_utf8(output@)),
{
    let text = utf8_lossy_of(output);
    Ok(parse_pipewire_text(text.as_str()))
}

/// The devices of all listings that could be read: PipeWire nodes, then
/// ALSA playback and capture devices, then PulseAudio sinks and sources.
pub open spec fn all_devices(
    pw_nodes: Option<Seq<u8>>,
    aplay: Option<Seq<u8>>,
    arecord: Option<Seq<u8>>,
    sinks: Option<Seq<u8>>,
    sources: Option<Seq<u8>>,
) -> Seq<DeviceView> {
    let pw = match pw_nodes {
        Some(b) => pipewire_devices(lossy_utf8(b)),
        None => Seq::empty(),
    };
    let out = match aplay {
        Some(b) => alsa_devices(lines(lossy_utf8(b)), DeviceType::Output),
        None => Seq::empty(),
    };
    let inp = match arecord {
        Some(b) => alsa_devices(lines(lossy_utf8(b)), DeviceType::Input),
        None => Seq::empty(),
    };
    let snk = match sinks {
        Some(b) => pulse_devices(lines(lossy_utf8(b)), DeviceType::Output),
        None => Seq::empty(),
    };
    let src = match sources {
        Some(b) => pulse_devices(lines(lossy_utf8(b)), DeviceType::Input),
        None => Seq::empty(),
    };
    pw + out + inp + snk + src
}

pub open spec fn opt_bytes(b: Option<&[u8]>) -> Option<Seq<u8>> {
    match b {
        Some(x) => Some(x@),
        None => None,
    }
}

fn append_devices(all: &mut Vec<AudioDevice>, more: Vec<AudioDevice>)
    ensures
        devices_view(final(all)@) == devices_view(old(all)@) + devices_view(more@),
{
    let mut more = more;
    let ghost m = more@;
    all.append(&mut more);
    proof {
        assert(devices_view(all@) =~= devices_view(old(all)@) + devices_view(m));
    }
}

/// The device list that the outputs of `pw-cli list-objects Node`,
/// `aplay -L`, `arecord -L`, `pactl list sinks short` and
/// `pactl list sources short` give (each `None` where the tool could not run).
pub fn collect_audio_devices(
    pw_nodes: Option<&[u8]>,
    aplay: Option<&[u8]>,
    arecord: Option<&[u8]>,
    sinks: Option<&[u8]>,
    sources: Option<&[u8]>,
) -> (devices: Vec<AudioDevice>)
    ensures
        devices_view(devices@) == all_devices(
            opt_bytes(pw_nodes),
            opt_bytes(aplay),
            opt_bytes(arecord),
            opt_bytes(sinks),
            opt_bytes(sources),
        ),
{
    let mut devices: Vec<AudioDevice> = Vec::new();
    if let Some(b) = pw_nodes {
        let t = utf8_lossy_of(b);
        append_devices(&mut devices, parse_pipewire_text(t.as_str()));
    }
    if let Some(b) = aplay {
        let t = utf8_lossy_of(b);
        append_devices(&mut devices, parse_alsa_output(t.as_str(), DeviceType::Output));
    }
    if let Some(b) = arecord {
        let t = utf8_lossy_of(b);
        append_devices(&mut devices, parse_alsa_output(t.as_str(), DeviceType::Input));
    }
    if let Some(b) = sinks {
        let t = utf8_lossy_of(b);
        append_devices(&mut devices, parse_pulse_output(t.as_str(), DeviceType::Output));
    }
    if let Some(b) = sources {
        let t = utf8_lossy_of(b);
        append_devices(&mut devices, parse_pulse_output(t.as_str(), DeviceType::Input));
    }
    proof {
        let e = Seq::<DeviceView>::empty();
        assert(e + e =~= e);
    }
    devices
}

/// The audio format of a bit depth: `S16LE`, `S24LE` or `S32LE`, and `S24LE`
/// for any other depth.
pub open spec fn format_of(bit_depth: u32) -> Seq<char> {
    if bit_depth == 16 {
        "S16LE"@
    } else if bit_depth == 32 {
        "S32LE"@
    } else {
        "S24LE"@
    }
}

pub fn audio_format(bit_depth: u32) -> (f: &'static str)
    ensures
        f@ == format_of(bit_depth),
{
    match bit_depth {
        16 => "S16LE",
        24 => "S24LE",
        32 => "S32LE",
        _ => "S24LE",
    }
}

/// The WirePlumber `device.name` pattern for a device id: `default` targets
/// every ALSA device; `alsa:`, `pipewire:` and `pulse:` ids map to ALSA
/// names; any other id is used as it is.
pub open spec fn device_pattern(id: Seq<char>) -> Seq<char> {
    if id == "default"@ {
        "alsa.*"@
    } else if starts_with(id, "alsa:"@) {
        trim_start_str(id, "alsa:"@)
    } else if starts_with(id, "pipewire:"@) {
        "alsa_card."@ + trim_start_str(id, "pipewire:"@)
    } else if starts_with(id, "pulse:"@) {
        "alsa_output."@ + trim_start_str(id, "pulse:"@)
    } else {
        id
    }
}

pub fn extract_device_pattern(device_id: &str) -> (p: String)
    ensures
        p@ == device_pattern(device_id@),
{
    let id = chars_of(device_id);
    if is_lit(&id, "default") {
        "alsa.*".to_string()
    } else if begins(&id, "alsa:") {
        string_of(&trim_start_str_of(&id, &chars_of("alsa:")))
    } else if begins(&id, "pipewire:") {
        string_of(&cat("alsa_card.", &trim_start_str_of(&id, &chars_of("pipewire:"))))
    } else if begins(&id, "pulse:") {
        string_of(&cat("alsa_output.", &trim_start_str_of(&id, &chars_of("pulse:"))))
    } else {
        device_id.to_string()
    }
}


/// The value of a `key = "value"` line as the settings detection reads it:
/// trimmed, unquoted, trimmed again.
pub open spec fn clock_value(line: Seq<char>) -> Seq<char> {
    trim(trim_matches(trim(second_field(line, '=')->0), '"'))
}

/// The bit depth that an `audio.format` value stands for.
pub open spec fn depth_of_format(f: Seq<char>) -> u32 {
    if f == "S16LE"@ {
        16
    } else if f == "S32LE"@ {
        32
    } else {
        24
    }
}

/// A line that sets the clock quantum itself (not one of its limits).
pub open spec fn sets_quantum(line: Seq<char>) -> bool {
    &&& sets(line, "default.clock.quantum"@)
    &&& !contains(line, "min-quantum"@)
    &&& !contains(line, "max-quantum"@)
    &&& !contains(line, "quantum-limit"@)
    &&& !contains(line, "quantum-floor"@)
}

/// The sample rates that a reading may give: 8 kHz to 384 kHz.
pub open spec fn rate_in_range(x: u32) -> bool {
    8000 <= x <= 384000
}

/// The quanta (buffer sizes) that a reading may give: 64 to 8192 samples.
pub open spec fn quantum_in_range(x: u32) -> bool {
    64 <= x <= 8192
}

/// Rate, bit depth and quantum after one line of `pw-cli info 0`: each
/// property line replaces its value; a rate or quantum that does not parse,
/// or lies outside its range, leaves the old one.
pub open spec fn read_clock_line(v: (u32, u32, u32), line: Seq<char>) -> (u32, u32, u32) {
    let rate = if sets(line, "default.clock.rate"@) {
        match parse_u32(clock_value(line)) {
            Some(x) => if rate_in_range(x) {
                x
            } else {
                v.0
            },
            None => v.0,
        }
    } else {
        v.0
    };
    let depth = if sets(line, "audio.format"@) {
        depth_of_format(clock_value(line))
    } else {
        v.1
    };
    let quantum = if sets_quantum(line) {
        match parse_u32(clock_value(line)) {
            Some(x) => if quantum_in_range(x) {
                x
            } else {
                v.2
            },
            None => v.2,
        }
    } else {
        v.2
    };
    (rate, depth, quantum)
}

/// Rate, bit depth and quantum after the given lines, from 48000 Hz,
/// 24 bit and 512 samples.
pub open spec fn read_clock(ls: Seq<Seq<char>>) -> (u32, u32, u32)
    decreases ls.len(),
{
    if ls.len() == 0 {
        (48000, 24, 512)
    } else {
        read_clock_line(read_clock(ls.drop_last()), ls.last())
    }
}

/// Settings that lie in the ranges a reading may give, with a bit depth of
/// 16, 24 or 32.
pub open spec fn clock_in_range(v: (u32, u32, u32)) -> bool {
    rate_in_range(v.0) && (v.1 == 16 || v.1 == 24 || v.1 == 32) && quantum_in_range(v.2)
}

/// Every reading lies in range.
pub proof fn lemma_read_clock_in_range(ls: Seq<Seq<char>>)
    ensures
        clock_in_range(read_clock(ls)),
    decreases ls.len(),
{
    if ls.len() > 0 {
        lemma_read_clock_in_range(ls.drop_last());
    }
}

fn clock_value_of(f: &Vec<char>) -> (v: Vec<char>)
    ensures
        v@ == trim(trim_matches(trim(f@), '"')),
{
    trim_of(&trim_matches_of(&trim_of(f), '"'))
}

fn depth_of_format_of(f: &Vec<char>) -> (d: u32)
    ensures
        d == depth_of_format(f@),
{
    if is_lit(f, "S16LE") {
        16
    } else if is_lit(f, "S32LE") {
        32
    } else {
        24
    }
}

/// The settings that `pw-cli info 0` reports (its output, where the command
/// succeeded), for the default device; 48000 Hz, 24 bit, 512 samples where
/// it did not or where a value is missing or out of range. The result always
/// lies in range: 8 kHz to 384 kHz, 16, 24 or 32 bit, 64 to 8192 samples.
pub fn settings_from_pw_info(info: Option<&[u8]>) -> (s: AudioSettings)
    ensures
        s.device_id@ == "default"@,
        clock_in_range((s.sample_rate, s.bit_depth, s.buffer_size)),
        match info {
            Some(b) => (s.sample_rate, s.bit_depth, s.buffer_size) == read_clock(
                lines(lossy_utf8(b@)),
            ),
            None => s.sample_rate == 48000 && s.bit_depth == 24 && s.buffer_size == 512,
        },
{
    match info {
        None => AudioSettings::new(48000, 24, 512, "default".to_string()),
        Some(b) => {
            let t = utf8_lossy_of(b);
            let text = chars_of(t.as_str());
            let ls = lines_of(&text);
            let ghost all = deep(ls@);
            let mut rate: u32 = 48000;
            let mut depth: u32 = 24;
            let mut quantum: u32 = 512;
            let mut i: usize = 0;
            proof {
                assert(all.take(0) =~= Seq::<Seq<char>>::empty());
            }
            while i < ls.len()
                invariant
                    all == deep(ls@),
                    all == lines(lossy_utf8(b@)),
                    i <= ls.len(),
                    (rate, depth, quantum) == read_clock(all.take(i as int)),
                decreases ls.len() - i,
            {
                let line = &ls[i];
                proof {
                    assert(all.take(i + 1).drop_last() =~= all.take(i as int));
                    assert(all.take(i + 1).last() == line@);
                }
                let has_eq = contains_lit(line, "=");
                if let Some(f) = second_field_of(line, '=') {
                    let v = clock_value_of(&f);
                    if contains_lit(line, "default.clock.rate") && has_eq {
                        if let Some(x) = parse_u32_of(&v) {
                            if 8000 <= x && x <= 384000 {
                                rate = x;
                            }
                        }
                    }
                    if contains_lit(line, "audio.format") && has_eq {
                        depth = depth_of_format_of(&v);
                    }
                    if contains_lit(line, "default.clock.quantum") && has_eq && !contains_lit(
                        line,
                        "min-quantum",
                    ) && !contains_lit(line, "max-quantum") && !contains_lit(line, "quantum-limit")
                        && !contains_lit(line, "quantum-floor") {
                        if let Some(x) = parse_u32_of(&v) {
                            if 64 <= x && x <= 8192 {
                                quantum = x;
                            }
                        }
                    }
                }
                i += 1;
            }
            proof {
                assert(all.take(ls.len() as int) =~= all);
                lemma_read_clock_in_range(all);
            }
            AudioSettings::new(rate, depth, quantum, "default".to_string())
        },
    }
}

/// The sink named on the first line of `pactl info` that starts with
/// `Default Sink:`, with that label removed and trimmed.
pub open spec fn default_sink(ls: Seq<Seq<char>>) -> Option<Seq<char>>
    decreases ls.len(),
{
    if ls.len() == 0 {
        None
    } else if starts_with(ls[0], "Default Sink:"@) {
        Some(trim(replace(ls[0], "Default Sink:"@, Seq::empty())))
    } else {
        default_sink(ls.drop_first())
    }
}

/// `<system>: <default sink>`, or `<system>: Unknown Audio Device` where
/// `pactl info` did not run or names no default sink.
pub open spec fn device_description(system: Seq<char>, pactl_info: Option<Seq<char>>) -> Seq<
    char,
> {
    match pactl_info {
        Some(t) => match default_sink(lines(t)) {
            Some(sink) => system + ": "@ + sink,
            None => system + ": Unknown Audio Device"@,
        },
        None => system + ": Unknown Audio Device"@,
    }
}

/// The name of the running sound system from four probes: `pw-cli info 0`
/// and the PipeWire user service, then `pulseaudio --check` and the
/// PulseAudio user service; the first that succeeds decides.
pub open spec fn sound_system(pw_cli: bool, pw_service: bool, pulse_check: bool, pulse_service: bool) -> Seq<char> {
    if pw_cli || pw_service {
        "PipeWire"@
    } else if pulse_check || pulse_service {
        "PulseAudio"@
    } else {
        "Audio System"@
    }
}

pub fn audio_system_name(pw_cli: bool, pw_service: bool, pulse_check: bool, pulse_service: bool) -> (n: &'static str)
    ensures
        n@ == sound_system(pw_cli, pw_service, pulse_check, pulse_service),
{
    if pw_cli || pw_service {
        "PipeWire"
    } else if pulse_check || pulse_service {
        "PulseAudio"
    } else {
        "Audio System"
    }
}

pub open spec fn opt_text(b: Option<&[u8]>) -> Option<Seq<char>> {
    match b {
        Some(x) => Some(lossy_utf8(x@)),
        None => None,
    }
}

/// The description of the current output device, from the name of the sound
/// system and the output of `pactl info` where that command succeeded.
pub fn describe_default_sink(audio_system: &str, pactl_info: Option<&[u8]>) -> (d: String)
    ensures
        d@ == device_description(audio_system@, opt_text(pactl_info)),
{
    let mut out = chars_of(audio_system);
    if let Some(b) = pactl_info {
        let t = utf8_lossy_of(b);
        let text = chars_of(t.as_str());
        let ls = lines_of(&text);
        let ghost all = deep(ls@);
        let mut i: usize = 0;
        proof {
            assert(all.skip(0) =~= all);
        }
        while i < ls.len()
            invariant
                all == deep(ls@),
                all == lines(lossy_utf8(b@)),
                opt_text(pactl_info) == Some(lossy_utf8(b@)),
                out@ == audio_system@,
                i <= ls.len(),
                default_sink(all) == default_sink(all.skip(i as int)),
            decreases ls.len() - i,
        {
            proof {
                assert(all.skip(i as int)[0] == ls@[i as int]@);
                assert(all.skip(i as int).drop_first() =~= all.skip(i + 1));
            }
            if begins(&ls[i], "Default Sink:") {
                proof {
                    reveal_strlit("Default Sink:");
                }
                let empty: Vec<char> = Vec::new();
                let removed = replace_of(&ls[i], &chars_of("Default Sink:"), &empty);
                let sink = trim_of(&removed);
                proof {
                    assert(empty@ =~= Seq::<char>::empty());
                    assert(default_sink(all.skip(i as int)) == Some(sink@));
                }
                push_str(&mut out, ": ");
                push_chars(&mut out, &sink);
                return string_of(&out);
            }
            i += 1;
        }
        proof {
            assert(all.skip(i as int) =~= Seq::<Seq<char>>::empty());
        }
    }
    push_str(&mut out, ": Unknown Audio Device");
    string_of(&out)
}

pub const SCRIPT_0: &'static str = r#"#!/bin/bash
set -e

echo "=== Starting Audio Configuration ==="
echo "Running as: $(whoami)"
echo "Target user: "#;
pub const SCRIPT_1: &'static str = r#""
echo "Target device: "#;
pub const SCRIPT_2: &'static str = r#""

# Get user ID and runtime directory
USER_ID=$(id -u "#;
pub const SCRIPT_3: &'static str = r#")
RUNTIME_DIR="/run/user/$USER_ID"
DBUS_ADDRESS="unix:path=$RUNTIME_DIR/bus"

echo "User ID: $USER_ID"
echo "Runtime directory: $RUNTIME_DIR"

# Function to run commands as user with proper environment
run_as_user() {
    sudo -u "#;
pub const SCRIPT_4: &'static str = r#" XDG_RUNTIME_DIR="$RUNTIME_DIR" DBUS_SESSION_BUS_ADDRESS="$DBUS_ADDRESS" bash -c "$1"
}

echo "Testing user service access..."
if run_as_user "systemctl --user daemon-reload"; then
    echo "User service access: OK"
else
    echo "User service access: Limited - some operations may fail"
fi

echo "Stopping audio services..."
run_as_user "systemctl --user stop wireplumber pipewire pipewire-pulse" || true
sleep 2

echo "Killing any remaining audio processes..."
run_as_user "pkill -f wireplumber" || true
run_as_user "pkill -f pipewire" || true
run_as_user "pkill -f pipewire-pulse" || true
sleep 1

echo "Creating WirePlumber configuration..."
CONFIG_DIR="/home/"#;
pub const SCRIPT_5: &'static str = r#"/.config/wireplumber/main.lua.d"
run_as_user "mkdir -p \"$CONFIG_DIR\""

# Create custom configuration targeting specific device
run_as_user "cat > \"$CONFIG_DIR/99-custom-audio.lua\"" << 'EOF'
alsa_monitor.rules = {
    {
        matches = {
            {
                { "device.name", "matches", ""#;
pub const SCRIPT_6: &'static str = r#"" },
            },
        },
        apply_properties = {
            ["audio.rate"] = "#;
pub const SCRIPT_7: &'static str = r#",
            ["audio.format"] = ""#;
pub const SCRIPT_8: &'static str = r#"",
            ["api.alsa.period-size"] = "#;
pub const SCRIPT_9: &'static str = r#",
        },
    },
}
EOF

echo "Configuration created successfully"

echo "Restarting audio services..."
run_as_user "systemctl --user daemon-reload"
run_as_user "systemctl --user start wireplumber" || echo "Failed to start wireplumber"
sleep 2
run_as_user "systemctl --user start pipewire" || echo "Failed to start pipewire"
run_as_user "systemctl --user start pipewire-pulse" || echo "Failed to start pipewire-pulse"
sleep 3

echo "Setting buffer size..."
run_as_user "pw-metadata -n settings 0 clock.force-quantum "#;
pub const SCRIPT_10: &'static str = r#"" || echo "Note: Could not set quantum - continuing anyway"

sleep 2

echo "Verifying audio services are running..."
run_as_user "systemctl --user is-active wireplumber && echo 'WirePlumber: active' || echo 'WirePlumber: inactive'"
run_as_user "systemctl --user is-active pipewire && echo 'PipeWire: active' || echo 'PipeWire: inactive'"

echo "Current audio settings:"
run_as_user "pw-cli info 0 2>/dev/null | grep -E '(default.clock.rate|audio.format|default.clock.quantum)'" || echo "Could not query settings - but services may still be working"

echo ""
echo "=== Audio configuration completed ==="
echo "Applied settings:"
echo "  Sample Rate: "#;
pub const SCRIPT_11: &'static str = r#" Hz"
echo "  Bit Depth: "#;
pub const SCRIPT_12: &'static str = r#" bit"
echo "  Buffer Size: "#;
pub const SCRIPT_13: &'static str = r#" samples"
echo "  Target Device: "#;
pub const SCRIPT_14: &'static str = r#""
echo ""
echo "Note: Some settings may require application restart to take effect"
"#;

/// The shell script that applies settings to one device as the given user:
/// it restarts the user's audio services around a WirePlumber rule for the
/// device pattern, sets the quantum, and reports the values applied.
pub open spec fn settings_script_text(user: Seq<char>, settings: AudioSettings) -> Seq<char> {
    SCRIPT_0@
        + user
        + SCRIPT_1@
        + settings.device_id@
        + SCRIPT_2@
        + user
        + SCRIPT_3@
        + user
        + SCRIPT_4@
        + user
        + SCRIPT_5@
        + device_pattern(settings.device_id@)
        + SCRIPT_6@
        + dec(settings.sample_rate as nat)
        + SCRIPT_7@
        + format_of(settings.bit_depth)
        + SCRIPT_8@
        + dec(settings.buffer_size as nat)
        + SCRIPT_9@
        + dec(settings.buffer_size as nat)
        + SCRIPT_10@
        + dec(settings.sample_rate as nat)
        + SCRIPT_11@
        + dec(settings.bit_depth as nat)
        + SCRIPT_12@
        + dec(settings.buffer_size as nat)
        + SCRIPT_13@
        + settings.device_id@
        + SCRIPT_14@
}

/// Builds [`settings_script_text`] for a user and settings.
pub fn settings_script(username: &str, settings: &AudioSettings) -> (script: String)
    ensures
        script@ == settings_script_text(username@, *settings),
{
    let mut out: Vec<char> = Vec::new();
    let user = chars_of(username);
    let device = chars_of(settings.device_id.as_str());
    let pattern = chars_of(extract_device_pattern(settings.device_id.as_str()).as_str());
    let format = audio_format(settings.bit_depth);
    push_str(&mut out, SCRIPT_0);
    push_chars(&mut out, &user);
    push_str(&mut out, SCRIPT_1);
    push_chars(&mut out, &device);
    push_str(&mut out, SCRIPT_2);
    push_chars(&mut out, &user);
    push_str(&mut out, SCRIPT_3);
    push_chars(&mut out, &user);
    push_str(&mut out, SCRIPT_4);
    push_chars(&mut out, &user);
    push_str(&mut out, SCRIPT_5);
    push_chars(&mut out, &pattern);
    push_str(&mut out, SCRIPT_6);
    push_dec(&mut out, settings.sample_rate as u64);
    push_str(&mut out, SCRIPT_7);
    push_str(&mut out, format);
    push_str(&mut out, SCRIPT_8);
    push_dec(&mut out, settings.buffer_size as u64);
    push_str(&mut out, SCRIPT_9);
    push_dec(&mut out, settings.buffer_size as u64);
    push_str(&mut out, SCRIPT_10);
    push_dec(&mut out, settings.sample_rate as u64);
    push_str(&mut out, SCRIPT_11);
    push_dec(&mut out, settings.bit_depth as u64);
    push_str(&mut out, SCRIPT_12);
    push_dec(&mut out, settings.buffer_size as u64);
    push_str(&mut out, SCRIPT_13);
    push_chars(&mut out, &device);
    push_str(&mut out, SCRIPT_14);
    string_of(&out)
}

/// The decimal form of a signed number.
pub open spec fn dec_int(n: int) -> Seq<char> {
    if n < 0 {
        "-"@ + dec((-n) as nat)
    } else {
        dec(n as nat)
    }
}

pub fn push_int(out: &mut Vec<char>, n: i32)
    ensures
        final(out)@ == old(out)@ + dec_int(n as int),
{
    if n < 0 {
        push_str(out, "-");
        let m: i64 = -(n as i64);
        push_dec(out, m as u64);
    } else {
        push_dec(out, n as u64);
    }
}

/// The last (at most) five entries of `ls`.
pub open spec fn last_five(ls: Seq<Seq<char>>) -> Seq<Seq<char>> {
    if ls.len() > 5 {
        ls.skip(ls.len() - 5)
    } else {
        ls
    }
}

/// The error that a failed settings script gives: its exit code (-1 where
/// it has none), then its error output, then the last five lines of its
/// output, each part only where there is such output.
pub open spec fn script_failure_text(code: Option<i32>, stdout: Seq<char>, stderr: Seq<char>) -> Seq<
    char,
> {
    let c = match code {
        Some(x) => x as int,
        None => -1,
    };
    let head = "Script failed with exit code: "@ + dec_int(c);
    let with_err = if stderr.len() != 0 {
        head + "\n\nError output:\n"@ + stderr
    } else {
        head
    };
    if stdout.len() != 0 && last_five(lines(stdout)).len() != 0 {
        with_err + "\n\nLast output:\n"@ + join(last_five(lines(stdout)), "\n"@)
    } else {
        with_err
    }
}

/// The error message for a settings script that failed, from its exit code
/// and its output streams (decoded as `String::from_utf8_lossy` does).
pub fn script_failure_message(code: Option<i32>, stdout: &[u8], stderr: &[u8]) -> (m: String)
    ensures
        m@ == script_failure_text(code, lossy_utf8(stdout@), lossy_utf8(stderr@)),
{
    let out_t = utf8_lossy_of(stdout);
    let err_t = utf8_lossy_of(stderr);
    let out_c = chars_of(out_t.as_str());
    let err_c = chars_of(err_t.as_str());
    let c: i32 = match code {
        Some(x) => x,
        None => -1,
    };
    let mut m: Vec<char> = Vec::new();
    push_str(&mut m, "Script failed with exit code: ");
    push_int(&mut m, c);
    if err_c.len() != 0 {
        push_str(&mut m, "\n\nError output:\n");
        push_chars(&mut m, &err_c);
    }
    if out_c.len() != 0 {
        let ls = lines_of(&out_c);
        let last = if ls.len() > 5 {
            skip_parts(&ls, ls.len() - 5)
        } else {
            skip_parts(&ls, 0)
        };
        proof {
            assert(deep(ls@).skip(0) =~= deep(ls@));
        }
        if last.len() != 0 {
            push_str(&mut m, "\n\nLast output:\n");
            let j = join_of(&last, &chars_of("\n"));
            push_chars(&mut m, &j);
        }
    }
    string_of(&m)
}

} // verus!
