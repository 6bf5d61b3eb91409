//! Where the configuration files of this tool live, for one user or for the
//! whole system, and which of them each cleanup removes.

use vstd::prelude::*;
use crate::audio::is_lit;
use crate::text::{chars_of, push_chars, push_str, replace, replace_of, starts_with, starts_with_of, string_of};

verus! {

broadcast use vstd::string::group_string_axioms;

/// The high-priority fragment of the basic settings.
pub const HIGH_PRIORITY_FILE: &'static str = "99-pro-audio-high-priority.conf";

/// The fragment name of the WirePlumber rules and of older fragments.
pub const BASIC_FILE: &'static str = "99-pro-audio.conf";

/// The fragment name of the oldest versions.
pub const OLD_FILE: &'static str = "50-pro-audio.conf";

/// The WirePlumber device rules of the advanced settings.
pub const DEVICES_FILE: &'static str = "99-pro-audio-devices.conf";

/// The quantum override of the advanced settings.
pub const QUANTUM_OVERRIDE_FILE: &'static str = "99-pro-audio-quantum-override.conf";

/// The exclusive-mode fragment (PipeWire and WirePlumber alike).
pub const EXCLUSIVE_FILE: &'static str = "99-pro-audio-exclusive.conf";

/// The fragment that the advanced check looks for.
pub const ADVANCED_FILE: &'static str = "99-pro-audio-advanced.conf";

/// A directory of configuration files.
#[derive(Clone, Copy, Debug, PartialEq, Eq)]
pub enum ConfigDir {
    /// PipeWire's fragments (`pipewire.conf.d`).
    PipeWireFragments,
    /// WirePlumber's fragments (`wireplumber.conf.d`).
    WirePlumberFragments,
    /// WirePlumber's Lua scripts (`main.lua.d`), used before version 0.5.
    WirePlumberLua,
}

pub open spec fn dir_suffix(k: ConfigDir) -> Seq<char> {
    match k {
        ConfigDir::PipeWireFragments => "pipewire/pipewire.conf.d"@,
        ConfigDir::WirePlumberFragments => "wireplumber/wireplumber.conf.d"@,
        ConfigDir::WirePlumberLua => "wireplumber/main.lua.d"@,
    }
}

/// A user's configuration root: `/home/<user>/.config/`.
pub open spec fn user_root(user: Seq<char>) -> Seq<char> {
    "/home/"@ + user + "/.config/"@
}

/// A configuration directory: under `/etc/` for the whole system, under the
/// user's configuration root otherwise.
pub open spec fn config_dir(k: ConfigDir, system_wide: bool, user: Seq<char>) -> Seq<char> {
    if system_wide {
        "/etc/"@ + dir_suffix(k)
    } else {
        user_root(user) + dir_suffix(k)
    }
}

/// A file in a directory.
pub open spec fn in_dir(dir: Seq<char>, name: Seq<char>) -> Seq<char> {
    dir + "/"@ + name
}

fn dir_suffix_of(k: ConfigDir) -> (s: &'static str)
    ensures
        s@ == dir_suffix(k),
{
    match k {
        ConfigDir::PipeWireFragments => "pipewire/pipewire.conf.d",
        ConfigDir::WirePlumberFragments => "wireplumber/wireplumber.conf.d",
        ConfigDir::WirePlumberLua => "wireplumber/main.lua.d",
    }
}

fn config_dir_chars(k: ConfigDir, system_wide: bool, user: &str) -> (d: Vec<char>)
    ensures
        d@ == config_dir(k, system_wide, user@),
{
    let mut d: Vec<char> = Vec::new();
    if system_wide {
        push_str(&mut d, "/etc/");
    } else {
        push_str(&mut d, "/home/");
        push_str(&mut d, user);
        push_str(&mut d, "/.config/");
    }
    push_str(&mut d, dir_suffix_of(k));
    d
}

pub fn config_dir_path(k: ConfigDir, system_wide: bool, user: &str) -> (d: String)
    ensures
        d@ == config_dir(k, system_wide, user@),
{
    string_of(&config_dir_chars(k, system_wide, user))
}

fn file_chars(dir: &Vec<char>, name: &str) -> (p: Vec<char>)
    ensures
        p@ == in_dir(dir@, name@),
{
    let mut p: Vec<char> = Vec::new();
    push_chars(&mut p, dir);
    push_str(&mut p, "/");
    push_str(&mut p, name);
    p
}

/// The path of a file in a configuration directory.
pub fn config_file_path(k: ConfigDir, system_wide: bool, user: &str, name: &str) -> (p: String)
    ensures
        p@ == in_dir(config_dir(k, system_wide, user@), name@),
{
    string_of(&file_chars(&config_dir_chars(k, system_wide, user), name))
}

/// The main PipeWire configuration of the scope.
pub open spec fn main_config(system_wide: bool, user: Seq<char>) -> Seq<char> {
    if system_wide {
        "/etc/pipewire/pipewire.conf"@
    } else {
        user_root(user) + "pipewire/pipewire.conf"@
    }
}

pub fn main_config_path(system_wide: bool, user: &str) -> (p: String)
    ensures
        p@ == main_config(system_wide, user@),
{
    let mut p: Vec<char> = Vec::new();
    if system_wide {
        push_str(&mut p, "/etc/pipewire/pipewire.conf");
    } else {
        push_str(&mut p, "/home/");
        push_str(&mut p, user);
        push_str(&mut p, "/.config/");
        push_str(&mut p, "pipewire/pipewire.conf");
    }
    string_of(&p)
}

/// A path under `/etc/` can only be written with administrator rights.
pub open spec fn privileged(path: Seq<char>) -> bool {
    starts_with(path, "/etc/"@)
}

pub fn needs_privileges(path: &str) -> (b: bool)
    ensures
        b == privileged(path@),
{
    starts_with_of(&chars_of(path), &chars_of("/etc/"))
}

/// The legacy Lua script of a stream type: one for `output`, one for any
/// other type.
pub open spec fn legacy_lua_name(stream_type: Seq<char>) -> Seq<char> {
    if stream_type == "output"@ {
        "50-pro-audio-output.lua"@
    } else {
        "50-pro-audio-input.lua"@
    }
}

pub fn legacy_lua_path(user: &str, stream_type: &str) -> (p: String)
    ensures
        p@ == in_dir(config_dir(ConfigDir::WirePlumberLua, false, user@), legacy_lua_name(stream_type@)),
{
    let name = if is_lit(&chars_of(stream_type), "output") {
        "50-pro-audio-output.lua"
    } else {
        "50-pro-audio-input.lua"
    };
    config_file_path(ConfigDir::WirePlumberLua, false, user, name)
}

pub open spec fn strings(v: Seq<String>) -> Seq<Seq<char>> {
    v.map_values(|s: String| s@)
}

fn push_path(v: &mut Vec<String>, dir: &Vec<char>, name: &str)
    ensures
        strings(final(v)@) == strings(old(v)@).push(in_dir(dir@, name@)),
{
    let p = string_of(&file_chars(dir, name));
    let ghost before = strings(v@);
    v.push(p);
    proof {
        assert(strings(v@) =~= before.push(p@));
    }
}

/// The fragments of the basic settings in a directory, old names included.
pub open spec fn basic_files(dir: Seq<char>) -> Seq<Seq<char>> {
    seq![
        in_dir(dir, HIGH_PRIORITY_FILE@),
        in_dir(dir, BASIC_FILE@),
        in_dir(dir, OLD_FILE@),
    ]
}

pub fn basic_config_files(dir: &str) -> (v: Vec<String>)
    ensures
        strings(v@) == basic_files(dir@),
{
    let d = chars_of(dir);
    let mut v: Vec<String> = Vec::new();
    push_path(&mut v, &d, HIGH_PRIORITY_FILE);
    push_path(&mut v, &d, BASIC_FILE);
    push_path(&mut v, &d, OLD_FILE);
    proof {
        assert(strings(v@) =~= basic_files(dir@));
    }
    v
}

/// The fragments of older versions that a new high-priority fragment
/// replaces.
pub open spec fn old_fragments(dir: Seq<char>) -> Seq<Seq<char>> {
    seq![in_dir(dir, BASIC_FILE@), in_dir(dir, OLD_FILE@)]
}

pub fn old_fragment_files(dir: &str) -> (v: Vec<String>)
    ensures
        strings(v@) == old_fragments(dir@),
{
    let d = chars_of(dir);
    let mut v: Vec<String> = Vec::new();
    push_path(&mut v, &d, BASIC_FILE);
    push_path(&mut v, &d, OLD_FILE);
    proof {
        assert(strings(v@) =~= old_fragments(dir@));
    }
    v
}

/// Every file of the basic settings that the full cleanup removes, system
/// and user alike.
pub open spec fn owned_files(user: Seq<char>) -> Seq<Seq<char>> {
    let pw_sys = config_dir(ConfigDir::PipeWireFragments, true, user);
    let pw_usr = config_dir(ConfigDir::PipeWireFragments, false, user);
    let wp_sys = config_dir(ConfigDir::WirePlumberFragments, true, user);
    let wp_usr = config_dir(ConfigDir::WirePlumberFragments, false, user);
    let lua = config_dir(ConfigDir::WirePlumberLua, false, user);
    seq![
        in_dir(pw_sys, HIGH_PRIORITY_FILE@),
        in_dir(pw_sys, BASIC_FILE@),
        in_dir(pw_usr, HIGH_PRIORITY_FILE@),
        in_dir(pw_usr, BASIC_FILE@),
        in_dir("/home/"@ + user + "/.local/share/pipewire/pipewire.conf.d"@, BASIC_FILE@),
        in_dir(wp_sys, BASIC_FILE@),
        in_dir(wp_sys, OLD_FILE@),
        in_dir(wp_usr, BASIC_FILE@),
        in_dir(wp_usr, OLD_FILE@),
        in_dir(lua, "50-pro-audio-output.lua"@),
        in_dir(lua, "50-pro-audio-input.lua"@),
    ]
}

pub fn owned_config_files(user: &str) -> (v: Vec<String>)
    ensures
        strings(v@) == owned_files(user@),
{
    let pw_sys = config_dir_chars(ConfigDir::PipeWireFragments, true, user);
    let pw_usr = config_dir_chars(ConfigDir::PipeWireFragments, false, user);
    let wp_sys = config_dir_chars(ConfigDir::WirePlumberFragments, true, user);
    let wp_usr = config_dir_chars(ConfigDir::WirePlumberFragments, false, user);
    let lua = config_dir_chars(ConfigDir::WirePlumberLua, false, user);
    let mut local: Vec<char> = chars_of("/home/");
    push_str(&mut local, user);
    push_str(&mut local, "/.local/share/pipewire/pipewire.conf.d");
    let mut v: Vec<String> = Vec::new();
    push_path(&mut v, &pw_sys, HIGH_PRIORITY_FILE);
    push_path(&mut v, &pw_sys, BASIC_FILE);
    push_path(&mut v, &pw_usr, HIGH_PRIORITY_FILE);
    push_path(&mut v, &pw_usr, BASIC_FILE);
    push_path(&mut v, &local, BASIC_FILE);
    push_path(&mut v, &wp_sys, BASIC_FILE);
    push_path(&mut v, &wp_sys, OLD_FILE);
    push_path(&mut v, &wp_usr, BASIC_FILE);
    push_path(&mut v, &wp_usr, OLD_FILE);
    push_path(&mut v, &lua, "50-pro-audio-output.lua");
    push_path(&mut v, &lua, "50-pro-audio-input.lua");
    proof {
        assert(strings(v@) =~= owned_files(user@));
    }
    v
}

/// The user's exclusive-mode files, which restoring the shared mode removes.
pub open spec fn exclusive_files(user: Seq<char>) -> Seq<Seq<char>> {
    seq![
        in_dir(config_dir(ConfigDir::PipeWireFragments, false, user), EXCLUSIVE_FILE@),
        in_dir(config_dir(ConfigDir::WirePlumberFragments, false, user), EXCLUSIVE_FILE@),
    ]
}

pub fn exclusive_config_files(user: &str) -> (v: Vec<String>)
    ensures
        strings(v@) == exclusive_files(user@),
{
    let pw = config_dir_chars(ConfigDir::PipeWireFragments, false, user);
    let wp = config_dir_chars(ConfigDir::WirePlumberFragments, false, user);
    let mut v: Vec<String> = Vec::new();
    push_path(&mut v, &pw, EXCLUSIVE_FILE);
    push_path(&mut v, &wp, EXCLUSIVE_FILE);
    proof {
        assert(strings(v@) =~= exclusive_files(user@));
    }
    v
}

/// The files whose presence shows the exclusive mode: the system's and the
/// user's.
pub open spec fn exclusive_marker_files(user: Seq<char>) -> Seq<Seq<char>> {
    seq![
        in_dir(config_dir(ConfigDir::PipeWireFragments, true, user), EXCLUSIVE_FILE@),
        in_dir(config_dir(ConfigDir::WirePlumberFragments, true, user), EXCLUSIVE_FILE@),
        in_dir(config_dir(ConfigDir::PipeWireFragments, false, user), EXCLUSIVE_FILE@),
        in_dir(config_dir(ConfigDir::WirePlumberFragments, false, user), EXCLUSIVE_FILE@),
    ]
}

pub fn exclusive_markers(user: &str) -> (v: Vec<String>)
    ensures
        strings(v@) == exclusive_marker_files(user@),
{
    let pw_sys = config_dir_chars(ConfigDir::PipeWireFragments, true, user);
    let wp_sys = config_dir_chars(ConfigDir::WirePlumberFragments, true, user);
    let pw = config_dir_chars(ConfigDir::PipeWireFragments, false, user);
    let wp = config_dir_chars(ConfigDir::WirePlumberFragments, false, user);
    let mut v: Vec<String> = Vec::new();
    push_path(&mut v, &pw_sys, EXCLUSIVE_FILE);
    push_path(&mut v, &wp_sys, EXCLUSIVE_FILE);
    push_path(&mut v, &pw, EXCLUSIVE_FILE);
    push_path(&mut v, &wp, EXCLUSIVE_FILE);
    proof {
        assert(strings(v@) =~= exclusive_marker_files(user@));
    }
    v
}

/// The user's files that the emergency recovery removes.
pub open spec fn recovery_files(user: Seq<char>) -> Seq<Seq<char>> {
    let pw = config_dir(ConfigDir::PipeWireFragments, false, user);
    let wp = config_dir(ConfigDir::WirePlumberFragments, false, user);
    seq![
        in_dir(pw, EXCLUSIVE_FILE@),
        in_dir(pw, HIGH_PRIORITY_FILE@),
        in_dir(wp, EXCLUSIVE_FILE@),
        in_dir(wp, BASIC_FILE@),
    ]
}

pub fn recovery_config_files(user: &str) -> (v: Vec<String>)
    ensures
        strings(v@) == recovery_files(user@),
{
    let pw = config_dir_chars(ConfigDir::PipeWireFragments, false, user);
    let wp = config_dir_chars(ConfigDir::WirePlumberFragments, false, user);
    let mut v: Vec<String> = Vec::new();
    push_path(&mut v, &pw, EXCLUSIVE_FILE);
    push_path(&mut v, &pw, HIGH_PRIORITY_FILE);
    push_path(&mut v, &wp, EXCLUSIVE_FILE);
    push_path(&mut v, &wp, BASIC_FILE);
    proof {
        assert(strings(v@) =~= recovery_files(user@));
    }
    v
}

/// The shell commands that clear the quantum fragments of a scope.
pub open spec fn quantum_cleanup(system_wide: bool, user: Seq<char>) -> Seq<Seq<char>> {
    let dir = config_dir(ConfigDir::PipeWireFragments, system_wide, user);
    seq!["rm -f "@ + dir + "/*pro-audio*.conf"@, "rm -f "@ + dir + "/*quantum*.conf"@]
}

pub fn quantum_cleanup_commands(system_wide: bool, user: &str) -> (v: Vec<String>)
    ensures
        strings(v@) == quantum_cleanup(system_wide, user@),
{
    let dir = config_dir_chars(ConfigDir::PipeWireFragments, system_wide, user);
    let mut a: Vec<char> = chars_of("rm -f ");
    push_chars(&mut a, &dir);
    push_str(&mut a, "/*pro-audio*.conf");
    let mut b: Vec<char> = chars_of("rm -f ");
    push_chars(&mut b, &dir);
    push_str(&mut b, "/*quantum*.conf");
    let mut v: Vec<String> = Vec::new();
    v.push(string_of(&a));
    v.push(string_of(&b));
    proof {
        assert(strings(v@) =~= quantum_cleanup(system_wide, user@));
    }
    v
}

/// The backup directory of a configuration directory, named by a time
/// stamp; none for directories under `/etc/`, which are not backed up.
pub open spec fn backup_dir(config_dir: Seq<char>, stamp: Seq<char>) -> Option<Seq<char>> {
    if privileged(config_dir) {
        None
    } else {
        Some(config_dir + "/backup_"@ + stamp)
    }
}

pub fn config_backup_dir(config_dir: &str, stamp: &str) -> (r: Option<String>)
    ensures
        match r {
            Some(d) => backup_dir(config_dir@, stamp@) == Some(d@),
            None => backup_dir(config_dir@, stamp@) is None,
        },
{
    if needs_privileges(config_dir) {
        None
    } else {
        let mut d = chars_of(config_dir);
        push_str(&mut d, "/backup_");
        push_str(&mut d, stamp);
        Some(string_of(&d))
    }
}

/// Where a directory's files go in a full backup: its path with `/`
/// turned into `_`, under the backup directory.
pub open spec fn backup_subdir(backup: Seq<char>, dir: Seq<char>) -> Seq<char> {
    backup + "/"@ + replace(dir, "/"@, "_"@)
}

pub fn backup_subdir_path(backup: &str, dir: &str) -> (p: String)
    ensures
        p@ == backup_subdir(backup@, dir@),
{
    proof {
        reveal_strlit("/");
    }
    let mut out = chars_of(backup);
    push_str(&mut out, "/");
    let r = replace_of(&chars_of(dir), &chars_of("/"), &chars_of("_"));
    push_chars(&mut out, &r);
    string_of(&out)
}

} // verus!
