//! The configuration inspector's judgements: which files are configuration
//! files, which of them look active, and where to look for them.

use vstd::prelude::*;
use crate::audio::{contains_lit, is_lit};
use crate::text::{
    chars_of, contains, contains_of, deep, ends_with, ends_with_of, join, join_of, lines, lines_of,
    push_chars, push_str, starts_with, starts_with_of, string_of, subvec, trim, trim_of, dec, push_dec,
};
use crate::links::last_index;

verus! {

broadcast use vstd::string::group_string_axioms;

/// A file name that the inspector lists: by extension, by the main file
/// names, or by the markers of this tool.
pub open spec fn config_file_name(name: Seq<char>) -> bool {
    ||| ends_with(name, ".conf"@)
    ||| ends_with(name, ".lua"@)
    ||| ends_with(name, ".json"@)
    ||| ends_with(name, ".toml"@)
    ||| name == "pipewire.conf"@
    ||| name == "wireplumber.conf"@
    ||| contains(name, "pro-audio"@)
    ||| contains(name, "quantum"@)
}

pub fn is_config_file_name(name: &str) -> (b: bool)
    ensures
        b == config_file_name(name@),
{
    let n = chars_of(name);
    ends_with_of(&n, &chars_of(".conf")) || ends_with_of(&n, &chars_of(".lua")) || ends_with_of(
        &n,
        &chars_of(".json"),
    ) || ends_with_of(&n, &chars_of(".toml")) || is_lit(&n, "pipewire.conf") || is_lit(
        &n,
        "wireplumber.conf",
    ) || contains_lit(&n, "pro-audio") || contains_lit(&n, "quantum")
}

/// A file name that marks a file of this tool as active.
pub open spec fn active_by_name(name: Seq<char>) -> bool {
    starts_with(name, "99-"@) || contains(name, "pro-audio"@)
}

pub fn is_active_by_name(name: &str) -> (b: bool)
    ensures
        b == active_by_name(name@),
{
    let n = chars_of(name);
    starts_with_of(&n, &chars_of("99-")) || contains_lit(&n, "pro-audio")
}

/// File contents that show settings of this tool: its marker line or one of
/// the properties it writes.
pub open spec fn active_by_content(content: Seq<char>) -> bool {
    ||| contains(content, "# Generated by Pro Audio Config"@)
    ||| contains(content, "api.alsa.period-size"@)
    ||| contains(content, "api.alsa.headroom"@)
    ||| contains(content, "node.latency"@)
    ||| contains(content, "clock.rate"@)
    ||| contains(content, "audio.format"@)
    ||| contains(content, "audio.rate"@)
    ||| contains(content, "session.suspend-timeout-seconds"@)
    ||| contains(content, "priority.driver"@)
    ||| contains(content, "rt.prio"@)
    ||| contains(content, "mem.lock"@)
    ||| contains(content, "resample.quality"@)
}

pub fn is_active_by_content(content: &str) -> (b: bool)
    ensures
        b == active_by_content(content@),
{
    let c = chars_of(content);
    contains_lit(&c, "# Generated by Pro Audio Config") || contains_lit(&c, "api.alsa.period-size")
        || contains_lit(&c, "api.alsa.headroom") || contains_lit(&c, "node.latency")
        || contains_lit(&c, "clock.rate") || contains_lit(&c, "audio.format") || contains_lit(
        &c,
        "audio.rate",
    ) || contains_lit(&c, "session.suspend-timeout-seconds") || contains_lit(&c, "priority.driver")
        || contains_lit(&c, "rt.prio") || contains_lit(&c, "mem.lock") || contains_lit(
        &c,
        "resample.quality",
    )
}

/// A property value that names a configuration file gives the file name
/// (after the last slash).
pub open spec fn file_name_in(value: Seq<char>) -> Option<Seq<char>> {
    if contains(value, ".conf"@) {
        match last_index(value, '/') {
            Some(i) => Some(value.skip(i + 1)),
            None => Some(value),
        }
    } else {
        None
    }
}

pub fn filename_from_value(value: &str) -> (r: Option<String>)
    ensures
        match r {
            Some(n) => file_name_in(value@) == Some(n@),
            None => file_name_in(value@) is None,
        },
{
    let v = chars_of(value);
    if !contains_lit(&v, ".conf") {
        return None;
    }
    let mut j: usize = v.len();
    proof {
        assert(v@.take(j as int) =~= v@);
    }
    while j > 0
        invariant
            j <= v.len(),
            v@ == value@,
            contains(value@, ".conf"@),
            last_index(v@, '/') == last_index(v@.take(j as int), '/'),
        decreases j,
    {
        if v[j - 1] == '/' {
            let rest = subvec(&v, j, v.len());
            proof {
                assert(rest@ =~= v@.skip(j as int));
            }
            return Some(string_of(&rest));
        }
        proof {
            assert(v@.take(j as int).drop_last() =~= v@.take(j - 1));
        }
        j -= 1;
    }
    Some(value.to_string())
}

/// A file listed by the running PipeWire matches when the names are equal
/// or one contains the other.
pub open spec fn names_match(file: Seq<char>, filename: Seq<char>) -> bool {
    file == filename || contains(file, filename) || contains(filename, file)
}

/// Some file of the active properties matches the file name.
pub open spec fn active_in_properties(filename: Seq<char>, files: Seq<Seq<Seq<char>>>) -> bool {
    exists|i: int, j: int|
        0 <= i < files.len() && 0 <= j < files[i].len() && names_match(#[trigger] files[i][j], filename)
}

pub open spec fn property_files(props: Seq<(String, Vec<String>)>) -> Seq<Seq<Seq<char>>> {
    props.map_values(|p: (String, Vec<String>)| p.1@.map_values(|f: String| f@))
}

pub fn is_active_in_properties(filename: &str, props: &Vec<(String, Vec<String>)>) -> (b: bool)
    ensures
        b == active_in_properties(filename@, property_files(props@)),
{
    let ghost files = property_files(props@);
    let name = chars_of(filename);
    let mut i: usize = 0;
    while i < props.len()
        invariant
            files == property_files(props@),
            name@ == filename@,
            i <= props.len(),
            forall|a: int, b: int|
                0 <= a < i && 0 <= b < files[a].len() ==> !names_match(#[trigger] files[a][b], filename@),
        decreases props.len() - i,
    {
        let list = &props[i].1;
        let mut j: usize = 0;
        while j < list.len()
            invariant
                files == property_files(props@),
                name@ == filename@,
                i < props.len(),
                list == props@[i as int].1,
                j <= list.len(),
                forall|a: int, b: int|
                    0 <= a < i && 0 <= b < files[a].len() ==> !names_match(
                        #[trigger] files[a][b],
                        filename@,
                    ),
                forall|b: int| 0 <= b < j ==> !names_match(#[trigger] files[i as int][b], filename@),
            decreases list.len() - j,
        {
            let f = chars_of(list[j].as_str());
            proof {
                assert(files[i as int][j as int] == list@[j as int]@);
            }
            if crate::text::eq_chars(&f, &name) || contains_of(&f, &name) || contains_of(&name, &f) {
                assert(names_match(files[i as int][j as int], filename@));
                return true;
            }
            j += 1;
        }
        i += 1;
    }
    false
}

/// A directory to scan, with its label.
pub struct ScanDir {
    pub path: String,
    pub label: &'static str,
}

pub open spec fn scan_view(v: Seq<ScanDir>) -> Seq<(Seq<char>, Seq<char>)> {
    v.map_values(|d: ScanDir| (d.path@, d.label@))
}

/// The directories that the inspector scans: the system's under `/etc`
/// and `/usr/share`, or the user's under `~/.config` and `~/.local/share`.
pub open spec fn scan_dirs(is_system: bool, user: Seq<char>) -> Seq<(Seq<char>, Seq<char>)> {
    let home = "/home/"@ + user;
    if is_system {
        seq![
            ("/etc/pipewire"@, "System PipeWire"@),
            ("/etc/pipewire/pipewire.conf.d"@, "System PipeWire Config"@),
            ("/etc/wireplumber"@, "System WirePlumber"@),
            ("/etc/wireplumber/wireplumber.conf.d"@, "System WirePlumber Config"@),
            ("/etc/wireplumber/main.lua.d"@, "System WirePlumber Lua"@),
            ("/usr/share/pipewire"@, "System PipeWire Defaults"@),
            ("/usr/share/wireplumber"@, "System WirePlumber Defaults"@),
        ]
    } else {
        seq![
            (home + "/.config/pipewire"@, "User PipeWire"@),
            (home + "/.config/pipewire/pipewire.conf.d"@, "User PipeWire Config"@),
            (home + "/.config/wireplumber"@, "User WirePlumber"@),
            (home + "/.config/wireplumber/wireplumber.conf.d"@, "User WirePlumber Config"@),
            (home + "/.config/wireplumber/main.lua.d"@, "User WirePlumber Lua"@),
            (home + "/.local/share/wireplumber"@, "User WirePlumber Local"@),
            (home + "/.local/share/wireplumber/wireplumber.conf.d"@, "User WirePlumber Local Config"@),
        ]
    }
}

fn push_dir(v: &mut Vec<ScanDir>, base: &str, rest: &str, label: &'static str)
    ensures
        scan_view(final(v)@) == scan_view(old(v)@).push((base@ + rest@, label@)),
{
    let mut p = chars_of(base);
    push_str(&mut p, rest);
    let ghost before = scan_view(v@);
    v.push(ScanDir { path: string_of(&p), label });
    proof {
        assert(scan_view(v@) =~= before.push((base@ + rest@, label@)));
    }
}

pub fn scan_directories(is_system: bool, user: &str) -> (v: Vec<ScanDir>)
    ensures
        scan_view(v@) == scan_dirs(is_system, user@),
{
    let mut v: Vec<ScanDir> = Vec::new();
    if is_system {
        push_dir(&mut v, "/etc/pipewire", "", "System PipeWire");
        push_dir(&mut v, "/etc/pipewire/pipewire.conf.d", "", "System PipeWire Config");
        push_dir(&mut v, "/etc/wireplumber", "", "System WirePlumber");
        push_dir(&mut v, "/etc/wireplumber/wireplumber.conf.d", "", "System WirePlumber Config");
        push_dir(&mut v, "/etc/wireplumber/main.lua.d", "", "System WirePlumber Lua");
        push_dir(&mut v, "/usr/share/pipewire", "", "System PipeWire Defaults");
        push_dir(&mut v, "/usr/share/wireplumber", "", "System WirePlumber Defaults");
        proof {
            reveal_strlit("");
            assert(""@ =~= Seq::<char>::empty());
            assert(scan_view(v@) =~= scan_dirs(is_system, user@));
        }
    } else {
        let mut home = chars_of("/home/");
        push_str(&mut home, user);
        let h = string_of(&home);
        push_dir(&mut v, h.as_str(), "/.config/pipewire", "User PipeWire");
        push_dir(&mut v, h.as_str(), "/.config/pipewire/pipewire.conf.d", "User PipeWire Config");
        push_dir(&mut v, h.as_str(), "/.config/wireplumber", "User WirePlumber");
        push_dir(&mut v, h.as_str(), "/.config/wireplumber/wireplumber.conf.d", "User WirePlumber Config");
        push_dir(&mut v, h.as_str(), "/.config/wireplumber/main.lua.d", "User WirePlumber Lua");
        push_dir(&mut v, h.as_str(), "/.local/share/wireplumber", "User WirePlumber Local");
        push_dir(
            &mut v,
            h.as_str(),
            "/.local/share/wireplumber/wireplumber.conf.d",
            "User WirePlumber Local Config",
        );
        proof {
            assert(scan_view(v@) =~= scan_dirs(is_system, user@));
        }
    }
    v
}

/// The main configuration files that the inspector also lists.
pub open spec fn main_conf_files(is_system: bool, user: Seq<char>) -> Seq<Seq<char>> {
    if is_system {
        seq!["/etc/pipewire/pipewire.conf"@, "/etc/wireplumber/wireplumber.conf"@]
    } else {
        seq![
            "/home/"@ + user + "/.config/pipewire/pipewire.conf"@,
            "/home/"@ + user + "/.config/wireplumber/wireplumber.conf"@,
        ]
    }
}

pub fn main_config_files(is_system: bool, user: &str) -> (v: Vec<String>)
    ensures
        crate::paths::strings(v@) == main_conf_files(is_system, user@),
{
    let mut v: Vec<String> = Vec::new();
    if is_system {
        v.push("/etc/pipewire/pipewire.conf".to_string());
        v.push("/etc/wireplumber/wireplumber.conf".to_string());
    } else {
        let mut a = chars_of("/home/");
        push_str(&mut a, user);
        push_str(&mut a, "/.config/pipewire/pipewire.conf");
        let mut b = chars_of("/home/");
        push_str(&mut b, user);
        push_str(&mut b, "/.config/wireplumber/wireplumber.conf");
        v.push(string_of(&a));
        v.push(string_of(&b));
    }
    proof {
        assert(crate::paths::strings(v@) =~= main_conf_files(is_system, user@));
    }
    v
}

/// A JSON value as the inspector reads the running PipeWire's objects:
/// texts, lists and maps; numbers, booleans and null are not looked into.
pub enum JsonValue {
    Text(String),
    Items(Vec<JsonValue>),
    Fields(Vec<(String, JsonValue)>),
    Other,
}

/// Properties whose keys mark this tool, with the configuration files they
/// name, each key once, in the order first met.
pub type PropertyFiles = Vec<(String, Vec<String>)>;

pub open spec fn marks_tool(key: Seq<char>) -> bool {
    contains(key, "pro-audio"@) || contains(key, "ProAudio"@) || contains(key, "99-"@)
}

/// The files recorded for a key, in the abstract.
pub type PropView = Seq<(Seq<char>, Seq<Seq<char>>)>;

/// The position of a key.
pub open spec fn key_index(acc: PropView, key: Seq<char>) -> Option<int>
    decreases acc.len(),
{
    if acc.len() == 0 {
        None
    } else if acc.last().0 == key {
        Some(acc.len() - 1)
    } else {
        key_index(acc.drop_last(), key)
    }
}

/// The record of a marked property: its key is entered (if new), and the
/// file its value names is added to the key's files unless already there.
pub open spec fn record(acc: PropView, key: Seq<char>, file: Option<Seq<char>>) -> PropView {
    let acc1 = if key_index(acc, key) is Some {
        acc
    } else {
        acc.push((key, Seq::empty()))
    };
    let i = key_index(acc1, key)->0;
    match file {
        Some(f) => if acc1[i].1.contains(f) {
            acc1
        } else {
            acc1.update(i, (key, acc1[i].1.push(f)))
        },
        None => acc1,
    }
}

pub open spec fn value_file(v: JsonValue) -> Option<Seq<char>> {
    match v {
        JsonValue::Text(s) => file_name_in(s@),
        _ => None,
    }
}

/// The marked properties found in a value, added to `acc`: in a map, a
/// marked key is recorded with the file its value names; other keys are
/// searched further where their value is a map or a list.
pub open spec fn props_value(v: JsonValue, acc: PropView) -> PropView
    decreases v, 0nat,
{
    match v {
        JsonValue::Fields(entries) => props_entries(entries@, 0, acc),
        JsonValue::Items(items) => props_items(items@, 0, acc),
        _ => acc,
    }
}

pub open spec fn props_items(items: Seq<JsonValue>, i: int, acc: PropView) -> PropView
    decreases items, items.len() - i,
{
    if 0 <= i < items.len() {
        props_items(items, i + 1, props_value(items[i], acc))
    } else {
        acc
    }
}

pub open spec fn props_entries(entries: Seq<(String, JsonValue)>, i: int, acc: PropView) -> PropView
    decreases entries, entries.len() - i,
{
    if 0 <= i < entries.len() {
        let key = entries[i].0@;
        let val = entries[i].1;
        let next = if marks_tool(key) {
            record(acc, key, value_file(val))
        } else {
            match val {
                JsonValue::Fields(_) => props_value(val, acc),
                JsonValue::Items(_) => props_value(val, acc),
                _ => acc,
            }
        };
        props_entries(entries, i + 1, next)
    } else {
        acc
    }
}

pub open spec fn files_view(files: Seq<String>) -> Seq<Seq<char>> {
    files.map_values(|f: String| f@)
}

pub open spec fn prop_view(acc: Seq<(String, Vec<String>)>) -> PropView {
    acc.map_values(|e: (String, Vec<String>)| (e.0@, files_view(e.1@)))
}

fn same_text(a: &String, b: &String) -> (r: bool)
    ensures
        r == (a@ == b@),
{
    crate::text::eq_chars(&chars_of(a.as_str()), &chars_of(b.as_str()))
}

fn key_position(acc: &PropertyFiles, key: &String) -> (r: Option<usize>)
    ensures
        match r {
            Some(i) => i < acc.len() && key_index(prop_view(acc@), key@) == Some(i as int),
            None => key_index(prop_view(acc@), key@) is None,
        },
{
    let ghost pv = prop_view(acc@);
    let mut j: usize = acc.len();
    proof {
        assert(pv.take(j as int) =~= pv);
    }
    while j > 0
        invariant
            pv == prop_view(acc@),
            j <= acc.len(),
            key_index(pv, key@) == key_index(pv.take(j as int), key@),
        decreases j,
    {
        proof {
            assert(pv.take(j as int).last() == pv[j - 1]);
        }
        if same_text(&acc[j - 1].0, key) {
            return Some(j - 1);
        }
        proof {
            assert(pv.take(j as int).drop_last() =~= pv.take(j - 1));
        }
        j -= 1;
    }
    None
}

fn has_file(files: &Vec<String>, f: &String) -> (r: bool)
    ensures
        r == files_view(files@).contains(f@),
{
    let mut i: usize = 0;
    while i < files.len()
        invariant
            i <= files.len(),
            forall|k: int| 0 <= k < i ==> files_view(files@)[k] != f@,
        decreases files.len() - i,
    {
        if same_text(&files[i], f) {
            assert(files_view(files@)[i as int] == f@);
            return true;
        }
        i += 1;
    }
    false
}

proof fn lemma_key_index(acc: PropView, key: Seq<char>)
    ensures
        key_index(acc, key) matches Some(i) ==> 0 <= i < acc.len() && acc[i].0 == key,
    decreases acc.len(),
{
    if acc.len() > 0 && acc.last().0 != key {
        lemma_key_index(acc.drop_last(), key);
    }
}

fn record_file(acc: &mut PropertyFiles, key: &String, file: Option<String>)
    ensures
        prop_view(final(acc)@) == record(prop_view(old(acc)@), key@, match file {
            Some(f) => Some(f@),
            None => None,
        }),
{
    let ghost a0 = prop_view(acc@);
    let i = match key_position(acc, key) {
        Some(i) => i,
        None => {
            let ghost before = prop_view(acc@);
            let k2 = key.clone();
            let fresh: Vec<String> = Vec::new();
            proof {
                assert(files_view(fresh@) =~= Seq::<Seq<char>>::empty());
            }
            acc.push((k2, fresh));
            proof {
                assert(prop_view(acc@) =~= before.push((key@, Seq::<Seq<char>>::empty())));
                assert(prop_view(acc@).drop_last() =~= before);
            }
            acc.len() - 1
        },
    };
    let ghost a1 = prop_view(acc@);
    proof {
        assert(key_index(a1, key@) == Some(i as int));
        lemma_key_index(a1, key@);
    }
    match file {
        Some(f) => {
            if !has_file(&acc[i].1, &f) {
                let ghost fv = f@;
                let ghost old_acc = acc@;
                let ghost old_files = acc@[i as int].1@;
                acc[i].1.push(f);
                proof {
                    assert(acc@[i as int].1@ =~= old_files.push(f));
                    assert(acc@[i as int].0 == old_acc[i as int].0);
                    assert(files_view(old_files.push(f)) =~= files_view(old_files).push(fv));
                    assert(prop_view(acc@) =~= a1.update(i as int, (key@, a1[i as int].1.push(fv))));
                }
            }
        },
        None => {},
    }
}

fn value_file_of(v: &JsonValue) -> (r: Option<String>)
    ensures
        match r {
            Some(f) => value_file(*v) == Some(f@),
            None => value_file(*v) is None,
        },
{
    match v {
        JsonValue::Text(s) => filename_from_value(s.as_str()),
        _ => None,
    }
}

/// Adds the marked properties found in a value (see [`props_value`]).
pub fn extract_properties(value: &JsonValue, acc: &mut PropertyFiles)
    ensures
        prop_view(final(acc)@) == props_value(*value, prop_view(old(acc)@)),
    decreases value,
{
    match value {
        JsonValue::Fields(entries) => {
            let mut i: usize = 0;
            while i < entries.len()
                invariant
                    i <= entries.len(),
                    *value == JsonValue::Fields(*entries),
                    props_value(*value, prop_view(old(acc)@)) == props_entries(
                        entries@,
                        i as int,
                        prop_view(acc@),
                    ),
                decreases entries.len() - i,
            {
                let key = &entries[i].0;
                let val = &entries[i].1;
                let k = chars_of(key.as_str());
                if crate::audio::contains_lit(&k, "pro-audio") || crate::audio::contains_lit(&k, "ProAudio")
                    || crate::audio::contains_lit(&k, "99-") {
                    let file = value_file_of(val);
                    record_file(acc, key, file);
                } else {
                    match val {
                        JsonValue::Fields(_) => extract_properties(val, acc),
                        JsonValue::Items(_) => extract_properties(val, acc),
                        _ => {},
                    }
                }
                i += 1;
            }
        },
        JsonValue::Items(items) => {
            let mut i: usize = 0;
            while i < items.len()
                invariant
                    i <= items.len(),
                    *value == JsonValue::Items(*items),
                    props_value(*value, prop_view(old(acc)@)) == props_items(
                        items@,
                        i as int,
                        prop_view(acc@),
                    ),
                decreases items.len() - i,
            {
                extract_properties(&items[i], acc);
                i += 1;
            }
        },
        _ => {},
    }
}

/// The value of the first field named `key` of a map.
pub open spec fn field_in(entries: Seq<(String, JsonValue)>, key: Seq<char>) -> Option<JsonValue>
    decreases entries.len(),
{
    if entries.len() == 0 {
        None
    } else if entries[0].0@ == key {
        Some(entries[0].1)
    } else {
        field_in(entries.drop_first(), key)
    }
}

pub open spec fn field_of(v: JsonValue, key: Seq<char>) -> Option<JsonValue> {
    match v {
        JsonValue::Fields(entries) => field_in(entries@, key),
        _ => None,
    }
}

/// The marked properties of the objects of a `pw-dump` listing, from each
/// object's `info.props`.
pub open spec fn dump_props(items: Seq<JsonValue>, i: int, acc: PropView) -> PropView
    decreases items.len() - i,
{
    if 0 <= i < items.len() {
        let next = match field_of(items[i], "info"@) {
            Some(info) => match field_of(info, "props"@) {
                Some(p) => props_value(p, acc),
                None => acc,
            },
            None => acc,
        };
        dump_props(items, i + 1, next)
    } else {
        acc
    }
}

/// The marked properties of a `pw-dump` listing (a list of objects; any
/// other value has none).
pub open spec fn dump_properties(dump: JsonValue) -> PropView {
    match dump {
        JsonValue::Items(items) => dump_props(items@, 0, Seq::empty()),
        _ => Seq::empty(),
    }
}

fn field_ref<'a>(v: &'a JsonValue, key: &str) -> (r: Option<&'a JsonValue>)
    ensures
        match r {
            Some(x) => field_of(*v, key@) == Some(*x),
            None => field_of(*v, key@) is None,
        },
{
    match v {
        JsonValue::Fields(entries) => {
            let k = chars_of(key);
            let mut i: usize = 0;
            proof {
                assert(entries@.skip(0) =~= entries@);
            }
            while i < entries.len()
                invariant
                    i <= entries.len(),
                    *v == JsonValue::Fields(*entries),
                    k@ == key@,
                    field_in(entries@, key@) == field_in(entries@.skip(i as int), key@),
                decreases entries.len() - i,
            {
                proof {
                    assert(entries@.skip(i as int)[0] == entries@[i as int]);
                    assert(entries@.skip(i as int).drop_first() =~= entries@.skip(i + 1));
                }
                if crate::text::eq_chars(&chars_of(entries[i].0.as_str()), &k) {
                    return Some(&entries[i].1);
                }
                i += 1;
            }
            proof {
                assert(entries@.skip(i as int) =~= Seq::<(String, JsonValue)>::empty());
            }
            None
        },
        _ => None,
    }
}

/// The marked properties of a `pw-dump` listing (see [`dump_properties`]).
pub fn active_config_properties(dump: &JsonValue) -> (props: PropertyFiles)
    ensures
        prop_view(props@) == dump_properties(*dump),
{
    let mut acc: PropertyFiles = Vec::new();
    proof {
        assert(prop_view(acc@) =~= Seq::<(Seq<char>, Seq<Seq<char>>)>::empty());
    }
    match dump {
        JsonValue::Items(items) => {
            let mut i: usize = 0;
            while i < items.len()
                invariant
                    i <= items.len(),
                    *dump == JsonValue::Items(*items),
                    dump_properties(*dump) == dump_props(items@, i as int, prop_view(acc@)),
                decreases items.len() - i,
            {
                if let Some(info) = field_ref(&items[i], "info") {
                    if let Some(p) = field_ref(info, "props") {
                        extract_properties(p, &mut acc);
                    }
                }
                i += 1;
            }
        },
        _ => {},
    }
    acc
}

/// The number of bytes of a character in UTF-8.
pub open spec fn utf8_width(c: char) -> nat {
    if (c as u32) < 0x80 {
        1
    } else if (c as u32) < 0x800 {
        2
    } else if (c as u32) < 0x10000 {
        3
    } else {
        4
    }
}

/// The number of bytes of a text in UTF-8.
pub open spec fn utf8_len(s: Seq<char>) -> nat
    decreases s.len(),
{
    if s.len() == 0 {
        0
    } else {
        utf8_len(s.drop_last()) + utf8_width(s.last())
    }
}

proof fn lemma_utf8_prefix(s: Seq<char>, i: int)
    requires
        0 <= i <= s.len(),
    ensures
        utf8_len(s.take(i)) <= utf8_len(s),
    decreases s.len(),
{
    if i < s.len() {
        assert(s.drop_last().take(i) =~= s.take(i));
        lemma_utf8_prefix(s.drop_last(), i);
    } else {
        assert(s.take(i) =~= s);
    }
}

/// The number of characters that make up exactly the first `n` bytes, if
/// `n` falls on a character boundary.
pub open spec fn chars_in_bytes(s: Seq<char>, n: nat) -> Option<nat>
    decreases s.len(),
{
    if n == 0 {
        Some(0)
    } else if s.len() == 0 || utf8_width(s[0]) > n {
        None
    } else {
        match chars_in_bytes(s.drop_first(), (n - utf8_width(s[0])) as nat) {
            Some(k) => Some(k + 1),
            None => None,
        }
    }
}

/// The lines that a file summary shows: among the first three lines, the
/// trimmed ones that are neither empty nor comments.
pub open spec fn summary_lines(ls: Seq<Seq<char>>) -> Seq<Seq<char>>
    decreases ls.len(),
{
    if ls.len() == 0 {
        Seq::empty()
    } else {
        let prev = summary_lines(ls.drop_last());
        let t = trim(ls.last());
        if t.len() > 0 && !starts_with(t, "#"@) {
            prev.push(t)
        } else {
            prev
        }
    }
}

/// The joined summary lines of a file's text.
pub open spec fn summary_text(content: Seq<char>) -> Seq<char> {
    let ls = lines(content);
    join(summary_lines(if ls.len() > 3 { ls.take(3) } else { ls }), " | "@)
}

/// The summary can be cut: where it is longer than 50 bytes, the 50th byte
/// ends a character.
pub open spec fn summary_cuttable(content: Seq<char>) -> bool {
    utf8_len(summary_text(content)) > 50 ==> chars_in_bytes(summary_text(content), 50) is Some
}

/// The summary of a file: the summary lines, cut to 50 bytes and marked
/// with `...` where longer.
pub open spec fn file_summary(content: Seq<char>) -> Seq<char> {
    let t = summary_text(content);
    if utf8_len(t) > 50 {
        t.take(chars_in_bytes(t, 50)->0 as int) + "..."@
    } else {
        t
    }
}

fn utf8_width_of(c: char) -> (w: usize)
    ensures
        w == utf8_width(c),
{
    let v = c as u32;
    if v < 0x80 {
        1
    } else if v < 0x800 {
        2
    } else if v < 0x10000 {
        3
    } else {
        4
    }
}

fn summary_text_of(content: &str) -> (t: Vec<char>)
    ensures
        t@ == summary_text(content@),
{
    let ls = lines_of(&chars_of(content));
    let ghost all = deep(ls@);
    let n: usize = if ls.len() > 3 {
        3
    } else {
        ls.len()
    };
    let ghost used = if all.len() > 3 {
        all.take(3)
    } else {
        all
    };
    proof {
        assert(used =~= all.take(n as int));
        assert(all.take(0) =~= Seq::<Seq<char>>::empty());
    }
    let mut kept: Vec<Vec<char>> = Vec::new();
    let mut i: usize = 0;
    while i < n
        invariant
            all == deep(ls@),
            n <= ls.len(),
            i <= n,
            deep(kept@) == summary_lines(all.take(i as int)),
        decreases n - i,
    {
        proof {
            assert(all.take(i + 1).drop_last() =~= all.take(i as int));
            assert(all.take(i + 1).last() == ls@[i as int]@);
        }
        let t = trim_of(&ls[i]);
        if t.len() > 0 && !starts_with_of(&t, &chars_of("#")) {
            let ghost before = deep(kept@);
            let ghost tv = t@;
            kept.push(t);
            proof {
                assert(deep(kept@) =~= before.push(tv));
            }
        }
        i += 1;
    }
    join_of(&kept, &chars_of(" | "))
}

/// The number of characters in the first `limit` bytes of `t`.
fn cut_point(t: &Vec<char>, limit: usize) -> (r: Option<usize>)
    ensures
        match r {
            Some(k) => chars_in_bytes(t@, limit as nat) == Some(k as nat),
            None => chars_in_bytes(t@, limit as nat) is None,
        },
{
    let mut i: usize = 0;
    let mut left: usize = limit;
    proof {
        assert(t@.skip(0) =~= t@);
    }
    while left > 0
        invariant
            i <= t.len(),
            left <= limit,
            chars_in_bytes(t@, limit as nat) == (match chars_in_bytes(t@.skip(i as int), left as nat) {
                Some(k) => Some((k + i) as nat),
                None => None,
            }),
        decreases left,
    {
        if i >= t.len() {
            proof {
                assert(t@.skip(i as int).len() == 0);
            }
            return None;
        }
        let w = utf8_width_of(t[i]);
        proof {
            assert(t@.skip(i as int)[0] == t@[i as int]);
            assert(t@.skip(i as int).drop_first() =~= t@.skip(i + 1));
        }
        if w > left {
            return None;
        }
        left = left - w;
        i += 1;
    }
    Some(i)
}

fn exceeds_bytes(t: &Vec<char>, limit: usize) -> (b: bool)
    ensures
        b == (utf8_len(t@) > limit),
{
    let mut total: usize = 0;
    let mut i: usize = 0;
    proof {
        assert(t@.take(0) =~= Seq::<char>::empty());
    }
    while i < t.len()
        invariant
            i <= t.len(),
            total == utf8_len(t@.take(i as int)),
            total <= limit,
        decreases t.len() - i,
    {
        proof {
            assert(t@.take(i + 1).drop_last() =~= t@.take(i as int));
            assert(t@.take(i + 1).last() == t@[i as int]);
        }
        let w = utf8_width_of(t[i]);
        if w > limit - total {
            proof {
                lemma_utf8_prefix(t@, i + 1);
            }
            return true;
        }
        total = total + w;
        i += 1;
    }
    proof {
        assert(t@.take(t.len() as int) =~= t@);
    }
    false
}

/// A JSON value as `serde_json` parses it.
#[verifier::external_type_specification]
#[verifier::external_body]
pub struct ExJsonDocument(serde_json::Value);

/// The document that `serde_json::from_str` parses from a text, as a
/// [`JsonValue`] (`None` where the text is not JSON).
pub uninterp spec fn json_document(text: Seq<char>) -> Option<JsonValue>;

/// The one-for-one conversion of a value parsed by `serde_json` into a
/// [`JsonValue`]: strings, arrays and objects (their entries in the order
/// `serde_json` keeps them) with their contents; numbers, booleans and null
/// as `Other`. It serves [`json_document_of`], which states the result.
#[verifier::external_body]
fn json_tree(v: &serde_json::Value) -> JsonValue {
    match v {
        serde_json::Value::String(s) => JsonValue::Text(s.clone()),
        serde_json::Value::Array(items) => JsonValue::Items(items.iter().map(json_tree).collect()),
        serde_json::Value::Object(map) => JsonValue::Fields(map.iter().map(|(k, x)| (k.clone(), json_tree(x))).collect()),
        _ => JsonValue::Other,
    }
}

/// Calls `serde_json::from_str::<serde_json::Value>` on a text. Its result
/// is named ([`json_document`]), as a function of the text alone; a text
/// that does not parse gives `None`.
#[verifier::external_body]
fn json_document_of(text: &str) -> (v: Option<JsonValue>)
    ensures
        v == json_document(text@),
{
    match serde_json::from_str::<serde_json::Value>(text) {
        Ok(value) => Some(json_tree(&value)),
        Err(_) => None,
    }
}

/// The marked properties of the text that `pw-dump` printed: those of the
/// JSON document it holds (see [`dump_properties`]), none where it is not
/// JSON.
pub fn active_properties_of_dump(text: &str) -> (props: PropertyFiles)
    ensures
        match json_document(text@) {
            Some(j) => prop_view(props@) == dump_properties(j),
            None => props@.len() == 0,
        },
{
    match json_document_of(text) {
        Some(j) => active_config_properties(&j),
        None => Vec::new(),
    }
}

/// Whether scanned entry `a` (a path and its modification time) is listed
/// before entry `b`: newer files first, files of the same time in the order
/// they were found.
pub open spec fn listed_before(s: Seq<(String, u64)>, a: int, b: int) -> bool {
    s[a].1 > s[b].1 || (s[a].1 == s[b].1 && a < b)
}

/// An entry is listed where no other entry of the same path comes before
/// it: each path is listed once, at the place of its newest entry.
pub open spec fn listed(s: Seq<(String, u64)>, k: int) -> bool {
    forall|j: int|
        #![trigger s[j]]
        0 <= j < s.len() && j != k && s[j].0@ == s[k].0@ ==> listed_before(s, k, j)
}

fn before_of(entries: &Vec<(String, u64)>, a: usize, b: usize) -> (r: bool)
    requires
        a < entries.len(),
        b < entries.len(),
    ensures
        r == listed_before(entries@, a as int, b as int),
{
    entries[a].1 > entries[b].1 || (entries[a].1 == entries[b].1 && a < b)
}

fn is_listed(entries: &Vec<(String, u64)>, names: &Vec<Vec<char>>, k: usize) -> (b: bool)
    requires
        k < entries.len(),
        names.len() == entries.len(),
        forall|i: int| 0 <= i < names.len() ==> (#[trigger] names@[i])@ == entries@[i].0@,
    ensures
        b == listed(entries@, k as int),
{
    let mut j: usize = 0;
    while j < entries.len()
        invariant
            k < entries.len(),
            names.len() == entries.len(),
            forall|i: int| 0 <= i < names.len() ==> (#[trigger] names@[i])@ == entries@[i].0@,
            j <= entries.len(),
            forall|m: int|
                #![trigger entries@[m]]
                0 <= m < j && m != k && entries@[m].0@ == entries@[k as int].0@ ==> listed_before(
                    entries@,
                    k as int,
                    m,
                ),
        decreases entries.len() - j,
    {
        if j != k && crate::text::eq_chars(&names[j], &names[k]) && !before_of(entries, k, j) {
            proof {
                assert(names@[j as int]@ == entries@[j as int].0@);
                assert(names@[k as int]@ == entries@[k as int].0@);
                let m = j as int;
                assert(0 <= m < entries@.len() && m != k && entries@[m].0@ == entries@[k as int].0@
                    && !listed_before(entries@, k as int, m));
            }
            return false;
        }
        proof {
            assert(names@[j as int]@ == entries@[j as int].0@);
            assert(names@[k as int]@ == entries@[k as int].0@);
        }
        j += 1;
    }
    true
}

/// The order in which scanned configuration files are listed: indices of
/// `entries`, the listed ones (see [`listed`]), each once, ordered by
/// [`listed_before`].
pub fn listing_order(entries: &Vec<(String, u64)>) -> (order: Vec<usize>)
    ensures
        forall|i: int|
            0 <= i < order.len() ==> #[trigger] order@[i] < entries.len() && listed(
                entries@,
                order@[i] as int,
            ),
        forall|k: int|
            0 <= k < entries.len() && listed(entries@, k) ==> exists|i: int|
                0 <= i < order.len() && #[trigger] order@[i] == k,
        forall|i: int, j: int|
            0 <= i < j < order.len() ==> listed_before(entries@, #[trigger] order@[i] as int, #[trigger] order@[j] as int),
{
    let n = entries.len();
    let mut names: Vec<Vec<char>> = Vec::new();
    let mut t: usize = 0;
    while t < n
        invariant
            n == entries.len(),
            t <= n,
            names.len() == t,
            forall|i: int| 0 <= i < t ==> (#[trigger] names@[i])@ == entries@[i].0@,
        decreases n - t,
    {
        names.push(chars_of(entries[t].0.as_str()));
        t += 1;
    }
    let mut order: Vec<usize> = Vec::new();
    let mut k: usize = 0;
    while k < n
        invariant
            n == entries.len(),
            names.len() == n,
            forall|i: int| 0 <= i < n ==> (#[trigger] names@[i])@ == entries@[i].0@,
            k <= n,
            forall|i: int|
                0 <= i < order.len() ==> #[trigger] order@[i] < k && listed(entries@, order@[i] as int),
            forall|x: int|
                0 <= x < k && listed(entries@, x) ==> exists|i: int|
                    0 <= i < order.len() && #[trigger] order@[i] == x,
            forall|i: int, j: int|
                0 <= i < j < order.len() ==> listed_before(
                    entries@,
                    #[trigger] order@[i] as int,
                    #[trigger] order@[j] as int,
                ),
        decreases n - k,
    {
        if is_listed(entries, &names, k) {
            let mut p: usize = 0;
            while p < order.len() && before_of(entries, order[p], k)
                invariant
                    n == entries.len(),
                    k < n,
                    p <= order.len(),
                    forall|i: int| 0 <= i < order.len() ==> #[trigger] order@[i] < k,
                    forall|i: int| 0 <= i < p ==> listed_before(entries@, #[trigger] order@[i] as int, k as int),
                decreases order.len() - p,
            {
                p += 1;
            }
            let ghost old_order = order@;
            proof {
                old_order.insert_ensures(p as int, k);
                if p < old_order.len() {
                    assert(old_order[p as int] < k);
                    assert(!listed_before(entries@, old_order[p as int] as int, k as int));
                    assert(listed_before(entries@, k as int, old_order[p as int] as int));
                }
            }
            order.insert(p, k);
            proof {
                assert(order@ == old_order.insert(p as int, k));
                assert forall|i: int|
                    0 <= i < order.len() implies #[trigger] order@[i] < k + 1 && listed(
                        entries@,
                        order@[i] as int,
                    ) by {
                    if i < p {
                        assert(order@[i] == old_order[i]);
                    } else if i > p {
                        assert(order@[i] == old_order[i - 1]);
                    }
                }
                assert forall|x: int|
                    0 <= x < k + 1 && listed(entries@, x) implies exists|i: int|
                        0 <= i < order.len() && #[trigger] order@[i] == x by {
                    if x == k {
                        assert(order@[p as int] == x);
                    } else {
                        let i0 = choose|i: int| 0 <= i < old_order.len() && #[trigger] old_order[i] == x;
                        if i0 < p {
                            assert(order@[i0] == x);
                        } else {
                            assert(order@[i0 + 1] == x);
                        }
                    }
                }
                assert forall|i: int, j: int|
                    0 <= i < j < order.len() implies listed_before(
                        entries@,
                        #[trigger] order@[i] as int,
                        #[trigger] order@[j] as int,
                    ) by {
                    if j < p {
                        assert(order@[i] == old_order[i] && order@[j] == old_order[j]);
                    } else if j == p {
                        assert(order@[i] == old_order[i]);
                    } else if i < p {
                        assert(order@[i] == old_order[i] && order@[j] == old_order[j - 1]);
                    } else if i == p {
                        assert(order@[j] == old_order[j - 1]);
                        if j - 1 > p {
                            assert(listed_before(entries@, old_order[p as int] as int, old_order[j - 1] as int));
                        }
                    } else {
                        assert(order@[i] == old_order[i - 1] && order@[j] == old_order[j - 1]);
                    }
                }
            }
        } else {
            proof {
                assert forall|x: int|
                    0 <= x < k + 1 && listed(entries@, x) implies exists|i: int|
                        0 <= i < order.len() && #[trigger] order@[i] == x by {
                    assert(x != k);
                }
            }
        }
        k += 1;
    }
    order
}

/// Whether the summary of a file's text can be cut (see
/// [`summary_cuttable`]).
pub fn summary_can_be_cut(content: &str) -> (b: bool)
    ensures
        b == summary_cuttable(content@),
{
    let t = summary_text_of(content);
    !exceeds_bytes(&t, 50) || cut_point(&t, 50).is_some()
}

/// The summary of a file's text (see [`file_summary`]).
pub fn first_lines_summary(content: &str) -> (r: String)
    requires
        summary_cuttable(content@),
    ensures
        r@ == file_summary(content@),
{
    let t = summary_text_of(content);
    if exceeds_bytes(&t, 50) {
        match cut_point(&t, 50) {
            Some(k) => {
                proof {
                    lemma_chars_in_bytes_bound(t@, 50);
                }
                let mut out = subvec(&t, 0, k);
                proof {
                    assert(out@ =~= t@.take(k as int));
                }
                push_str(&mut out, "...");
                string_of(&out)
            },
            None => string_of(&t),
        }
    } else {
        string_of(&t)
    }
}

/// The summary of a file's text where it can be cut; `None` otherwise.
pub fn try_first_lines_summary(content: &str) -> (r: Option<String>)
    ensures
        match r {
            Some(t) => summary_cuttable(content@) && t@ == file_summary(content@),
            None => !summary_cuttable(content@),
        },
{
    if summary_can_be_cut(content) {
        Some(first_lines_summary(content))
    } else {
        None
    }
}

proof fn lemma_chars_in_bytes_bound(s: Seq<char>, n: nat)
    ensures
        chars_in_bytes(s, n) matches Some(k) ==> k <= s.len(),
    decreases s.len(),
{
    if n > 0 && s.len() > 0 && utf8_width(s[0]) <= n {
        lemma_chars_in_bytes_bound(s.drop_first(), (n - utf8_width(s[0])) as nat);
    }
}

pub const EDIT_SCRIPT_0: &'static str = r#"#!/bin/bash
# GNOME-based terminals
if [ -n "$GNOME_TERMINAL_SCREEN" ] || [ -n "$GNOME_TERMINAL_SERVICE" ]; then
    # GNOME Terminal
    if command -v gnome-terminal &> /dev/null; then
        gnome-terminal -- bash -c "sudoedit "#;
pub const EDIT_SCRIPT_1: &'static str = r#"; echo 'Press Enter to close...'; read"
        exit 0
    fi

# KDE Plasma - Konsole
elif [ -n "$KONSOLE_DBUS_SESSION" ] || [ "$XDG_CURRENT_DESKTOP" = "KDE" ] || [ "$DESKTOP_SESSION" = "plasma" ]; then
    if command -v konsole &> /dev/null; then
        konsole -e bash -c "sudoedit "#;
pub const EDIT_SCRIPT_2: &'static str = r#"; echo 'Press Enter to close...'; read"
        exit 0
    fi

# MATE Desktop
elif [ "$XDG_CURRENT_DESKTOP" = "MATE" ] || [ "$DESKTOP_SESSION" = "mate" ]; then
    if command -v mate-terminal &> /dev/null; then
        mate-terminal -- bash -c "sudoedit "#;
pub const EDIT_SCRIPT_3: &'static str = r#"; echo 'Press Enter to close...'; read"
        exit 0
    fi

# Cinnamon Desktop
elif [ "$XDG_CURRENT_DESKTOP" = "X-Cinnamon" ] || [ "$DESKTOP_SESSION" = "cinnamon" ]; then
    if command -v gnome-terminal &> /dev/null; then
        # Cinnamon often uses gnome-terminal
        gnome-terminal -- bash -c "sudoedit "#;
pub const EDIT_SCRIPT_4: &'static str = r#"; echo 'Press Enter to close...'; read"
        exit 0
    elif command -v x-terminal-emulator &> /dev/null; then
        x-terminal-emulator -e bash -c "sudoedit "#;
pub const EDIT_SCRIPT_5: &'static str = r#"; echo 'Press Enter to close...'; read"
        exit 0
    fi

# LXQt Desktop
elif [ "$XDG_CURRENT_DESKTOP" = "LXQt" ] || [ "$DESKTOP_SESSION" = "lxqt" ]; then
    if command -v qterminal &> /dev/null; then
        qterminal -e bash -c "sudoedit "#;
pub const EDIT_SCRIPT_6: &'static str = r#"; echo 'Press Enter to close...'; read"
        exit 0
    fi

# LXDE Desktop
elif [ "$XDG_CURRENT_DESKTOP" = "LXDE" ] || [ "$DESKTOP_SESSION" = "LXDE" ]; then
    if command -v lxterminal &> /dev/null; then
        lxterminal -e bash -c "sudoedit "#;
pub const EDIT_SCRIPT_7: &'static str = r#"; echo 'Press Enter to close...'; read"
        exit 0
    fi

# Xfce Desktop
elif [ "$XDG_CURRENT_DESKTOP" = "XFCE" ] || [ "$DESKTOP_SESSION" = "xfce" ]; then
    if command -v xfce4-terminal &> /dev/null; then
        xfce4-terminal -x bash -c "sudoedit "#;
pub const EDIT_SCRIPT_8: &'static str = r#"; echo 'Press Enter to close...'; read"
        exit 0
    fi

# COSMIC Desktop (System76)
elif [ "$XDG_CURRENT_DESKTOP" = "COSMIC" ] || echo "$DESKTOP_SESSION" | grep -qi cosmic; then
    # COSMIC typically uses GNOME infrastructure
    if command -v gnome-terminal &> /dev/null; then
        gnome-terminal -- bash -c "sudoedit "#;
pub const EDIT_SCRIPT_9: &'static str = r#"; echo 'Press Enter to close...'; read"
        exit 0
    fi

# Budgie Desktop
elif [ "$XDG_CURRENT_DESKTOP" = "Budgie:GNOME" ] || [ "$DESKTOP_SESSION" = "budgie-desktop" ]; then
    if command -v gnome-terminal &> /dev/null; then
        gnome-terminal -- bash -c "sudoedit "#;
pub const EDIT_SCRIPT_10: &'static str = r#"; echo 'Press Enter to close...'; read"
        exit 0
    fi

# Pantheon (elementary OS)
elif [ "$XDG_CURRENT_DESKTOP" = "Pantheon" ]; then
    if command -v io.elementary.terminal &> /dev/null; then
        io.elementary.terminal -e bash -c "sudoedit "#;
pub const EDIT_SCRIPT_11: &'static str = r#"; echo 'Press Enter to close...'; read"
        exit 0
    elif command -v pantheon-terminal &> /dev/null; then
        pantheon-terminal -e "sudoedit "#;
pub const EDIT_SCRIPT_12: &'static str = r#"; echo 'Press Enter to close...'; read"
        exit 0
    fi

# Deepin Desktop
elif [ "$XDG_CURRENT_DESKTOP" = "Deepin" ]; then
    if command -v deepin-terminal &> /dev/null; then
        deepin-terminal -e "sudoedit "#;
pub const EDIT_SCRIPT_13: &'static str = r#"; echo 'Press Enter to close...'; read"
        exit 0
    fi

# Enlightenment
elif [ "$XDG_CURRENT_DESKTOP" = "Enlightenment" ] || [ "$DESKTOP_SESSION" = "enlightenment" ]; then
    if command -v terminology &> /dev/null; then
        terminology -e "sudoedit "#;
pub const EDIT_SCRIPT_14: &'static str = r#"; echo 'Press Enter to close...'; read"
        exit 0
    fi
fi

# Generic terminal detection as fallback
# Check for common terminals regardless of DE
for terminal_cmd in \
    "$TERMINAL" \
    "x-terminal-emulator" \
    "urxvt" \
    "rxvt" \
    "st" \
    "alacritty" \
    "kitty" \
    "terminator" \
    "tilix" \
    "termite" \
    "sakura" \
    "terminology" \
    "roxterm" \
    "cool-retro-term" \
    "hyper" \
    "wezterm" \
    "foot" \
    "xterm"
do
    if command -v "$terminal_cmd" &> /dev/null; then
        case "$terminal_cmd" in
            "xterm"|"urxvt"|"rxvt"|"st")
                $terminal_cmd -e "sudoedit "#;
pub const EDIT_SCRIPT_15: &'static str = r#"; echo 'Press Enter to close...'; read"
                ;;
            "alacritty"|"kitty"|"wezterm"|"foot")
                $terminal_cmd -e bash -c "sudoedit "#;
pub const EDIT_SCRIPT_16: &'static str = r#"; echo 'Press Enter to close...'; read"
                ;;
            "terminator"|"tilix")
                $terminal_cmd -e "bash -c 'sudoedit "#;
pub const EDIT_SCRIPT_17: &'static str = r#"; echo \"Press Enter to close...\"; read'"
                ;;
            *)
                $terminal_cmd -e "sudoedit "#;
pub const EDIT_SCRIPT_18: &'static str = r#"; echo 'Press Enter to close...'; read"
                ;;
        esac
        exit 0
    fi
done"#;

/// The shell script that opens a system file with `sudoedit` in a terminal:
/// the terminal of the desktop in use where it is known, else the first
/// common terminal found.
pub open spec fn edit_script_text(path: Seq<char>) -> Seq<char> {
    EDIT_SCRIPT_0@
        + path
        + EDIT_SCRIPT_1@
        + path
        + EDIT_SCRIPT_2@
        + path
        + EDIT_SCRIPT_3@
        + path
        + EDIT_SCRIPT_4@
        + path
        + EDIT_SCRIPT_5@
        + path
        + EDIT_SCRIPT_6@
        + path
        + EDIT_SCRIPT_7@
        + path
        + EDIT_SCRIPT_8@
        + path
        + EDIT_SCRIPT_9@
        + path
        + EDIT_SCRIPT_10@
        + path
        + EDIT_SCRIPT_11@
        + path
        + EDIT_SCRIPT_12@
        + path
        + EDIT_SCRIPT_13@
        + path
        + EDIT_SCRIPT_14@
        + path
        + EDIT_SCRIPT_15@
        + path
        + EDIT_SCRIPT_16@
        + path
        + EDIT_SCRIPT_17@
        + path
        + EDIT_SCRIPT_18@
}

/// Builds [`edit_script_text`].
pub fn edit_script(path: &str) -> (script: String)
    ensures
        script@ == edit_script_text(path@),
{
    let mut out: Vec<char> = Vec::new();
    let p = chars_of(path);
    push_str(&mut out, EDIT_SCRIPT_0);
    push_chars(&mut out, &p);
    push_str(&mut out, EDIT_SCRIPT_1);
    push_chars(&mut out, &p);
    push_str(&mut out, EDIT_SCRIPT_2);
    push_chars(&mut out, &p);
    push_str(&mut out, EDIT_SCRIPT_3);
    push_chars(&mut out, &p);
    push_str(&mut out, EDIT_SCRIPT_4);
    push_chars(&mut out, &p);
    push_str(&mut out, EDIT_SCRIPT_5);
    push_chars(&mut out, &p);
    push_str(&mut out, EDIT_SCRIPT_6);
    push_chars(&mut out, &p);
    push_str(&mut out, EDIT_SCRIPT_7);
    push_chars(&mut out, &p);
    push_str(&mut out, EDIT_SCRIPT_8);
    push_chars(&mut out, &p);
    push_str(&mut out, EDIT_SCRIPT_9);
    push_chars(&mut out, &p);
    push_str(&mut out, EDIT_SCRIPT_10);
    push_chars(&mut out, &p);
    push_str(&mut out, EDIT_SCRIPT_11);
    push_chars(&mut out, &p);
    push_str(&mut out, EDIT_SCRIPT_12);
    push_chars(&mut out, &p);
    push_str(&mut out, EDIT_SCRIPT_13);
    push_chars(&mut out, &p);
    push_str(&mut out, EDIT_SCRIPT_14);
    push_chars(&mut out, &p);
    push_str(&mut out, EDIT_SCRIPT_15);
    push_chars(&mut out, &p);
    push_str(&mut out, EDIT_SCRIPT_16);
    push_chars(&mut out, &p);
    push_str(&mut out, EDIT_SCRIPT_17);
    push_chars(&mut out, &p);
    push_str(&mut out, EDIT_SCRIPT_18);
    string_of(&out)
}

pub const MANUAL_EDIT_0: &'static str = r#"SYSTEM FILE EDITING INSTRUCTIONS

File: "#;
pub const MANUAL_EDIT_1: &'static str = r#"

To edit this system configuration file:

OPTION 1 - Recommended:
• Open a terminal and run:
sudoedit "#;
pub const MANUAL_EDIT_2: &'static str = r#"

OPTION 2 - Alternative:
• Open a terminal and run:
sudo nano "#;
pub const MANUAL_EDIT_3: &'static str = r#"
"#;

/// The instructions shown where a system file could not be opened.
pub open spec fn manual_instructions_text(path: Seq<char>) -> Seq<char> {
    MANUAL_EDIT_0@
        + path
        + MANUAL_EDIT_1@
        + path
        + MANUAL_EDIT_2@
        + path
        + MANUAL_EDIT_3@
}

/// Builds [`manual_instructions_text`].
pub fn manual_instructions(path: &str) -> (text: String)
    ensures
        text@ == manual_instructions_text(path@),
{
    let mut out: Vec<char> = Vec::new();
    let p = chars_of(path);
    push_str(&mut out, MANUAL_EDIT_0);
    push_chars(&mut out, &p);
    push_str(&mut out, MANUAL_EDIT_1);
    push_chars(&mut out, &p);
    push_str(&mut out, MANUAL_EDIT_2);
    push_chars(&mut out, &p);
    push_str(&mut out, MANUAL_EDIT_3);
    string_of(&out)
}

/// The name shown for a configuration file: marked with a check where it is
/// active.
pub open spec fn display_name_text(filename: Seq<char>, is_active: bool) -> Seq<char> {
    if is_active {
        "✓ "@ + filename
    } else {
        "  "@ + filename
    }
}

pub fn config_display_name(filename: &str, is_active: bool) -> (n: String)
    ensures
        n@ == display_name_text(filename@, is_active),
{
    let mut out: Vec<char> = if is_active {
        chars_of("✓ ")
    } else {
        chars_of("  ")
    };
    push_str(&mut out, filename);
    string_of(&out)
}

/// The status line and the dialog text after a scan (no dialog where
/// nothing was found).
pub open spec fn scan_report_texts(user_count: nat, system_count: nat) -> (Seq<char>, Option<Seq<char>>) {
    let total = user_count + system_count;
    if total > 0 {
        (
            "Scan complete: "@ + dec(user_count) + " user configs, "@ + dec(system_count)
                + " system configs ("@ + dec(total) + " total)"@,
            Some(
                "Configuration scan complete!\n\nFound "@ + dec(total)
                    + " configuration files:\n• "@ + dec(user_count) + " user files\n• "@ + dec(
                    system_count,
                ) + " system files\n\nDouble-click any file to open it."@,
            ),
        )
    } else {
        (
            "No configuration files found. This may be normal if PipeWire/WirePlumber use default settings."@,
            None,
        )
    }
}

pub fn scan_report(user_count: usize, system_count: usize) -> (r: (String, Option<String>))
    requires
        user_count + system_count <= usize::MAX,
    ensures
        r.0@ == scan_report_texts(user_count as nat, system_count as nat).0,
        match r.1 {
            Some(d) => scan_report_texts(user_count as nat, system_count as nat).1 == Some(d@),
            None => scan_report_texts(user_count as nat, system_count as nat).1 is None,
        },
{
    let total = user_count + system_count;
    if total > 0 {
        let mut status = chars_of("Scan complete: ");
        crate::text::push_dec(&mut status, user_count as u64);
        push_str(&mut status, " user configs, ");
        crate::text::push_dec(&mut status, system_count as u64);
        push_str(&mut status, " system configs (");
        crate::text::push_dec(&mut status, total as u64);
        push_str(&mut status, " total)");
        let mut dialog = chars_of("Configuration scan complete!\n\nFound ");
        crate::text::push_dec(&mut dialog, total as u64);
        push_str(&mut dialog, " configuration files:\n• ");
        crate::text::push_dec(&mut dialog, user_count as u64);
        push_str(&mut dialog, " user files\n• ");
        crate::text::push_dec(&mut dialog, system_count as u64);
        push_str(&mut dialog, " system files\n\nDouble-click any file to open it.");
        (string_of(&status), Some(string_of(&dialog)))
    } else {
        (
            "No configuration files found. This may be normal if PipeWire/WirePlumber use default settings.".to_string(),
            None,
        )
    }
}

} // verus!
