//! Properties of the library as a whole, proved over the specifications of
//! its functions.

use vstd::prelude::*;
use crate::apply::{
    AuthEventView, AuthStepView, ExclusiveStepView, UpdateStepView, applied_check, auth_next,
    exclusive_next, update_next, wireplumber_version,
};
use crate::audio::{
    AudioSettings, DeviceType, DeviceView, all_devices, alsa_devices, format_of, is_real_hardware,
    keep_real, pipewire_devices, pulse_devices, scan_lines, object_id, class_type, update_node,
    property_value, sets, read_clock, read_clock_line,
};
use crate::apply::{as_i32, buffer_offset};
use crate::config::{
    legacy_pattern, legacy_wireplumber_text, modern_pattern, pipewire_fragment_text, wireplumber_text,
    LEGACY_WP_0, LEGACY_WP_1, LEGACY_WP_2, LEGACY_WP_3, LEGACY_WP_4, LEGACY_WP_5, MODERN_WP_0,
    MODERN_WP_1, MODERN_WP_2, MODERN_WP_3, MODERN_WP_4, FRAGMENT_0, FRAGMENT_1, FRAGMENT_2,
    FRAGMENT_3, FRAGMENT_4, FRAGMENT_5,
};
use crate::paths::{
    ConfigDir, config_dir, in_dir, owned_files, exclusive_files, recovery_files,
    exclusive_marker_files, legacy_lua_name, HIGH_PRIORITY_FILE, BASIC_FILE, EXCLUSIVE_FILE,
};
use crate::text::{Strip, is_ws, split_by, strips, trim, trim_end_by, trim_matches, trim_start_by, extend_first, lemma_split_by_nonempty, starts_with, all_digits, contains, dec, digit_char, digits_value, is_digit, occurs_at, parse_u32};
use crate::ui::choice;
use crate::config::{number_in_line, exclusive_direct_text, exclusive_format, EXCL_DIRECT_0, EXCL_DIRECT_1, EXCL_DIRECT_2, EXCL_DIRECT_3, EXCL_DIRECT_4, EXCL_DIRECT_5, EXCL_DIRECT_6, EXCL_DIRECT_7, EXCL_DIRECT_8};
use crate::links::{busiest, chosen_device, device_list, first_containing, ports_of};
use crate::inspector::{listed, listed_before};
use crate::apply::{WaitAction, WaitPolicy, wait_next};
use crate::config::{clock_edits, main_config_update, rate_line, quantum_line, allowed_rates_line};
use crate::text::replace;

verus! {

broadcast use vstd::string::group_string_axioms;

/// A piece of a text is contained in it.
pub proof fn lemma_piece_contained(s: Seq<char>, p: Seq<char>, x: Seq<char>, q: Seq<char>)
    requires
        s =~= p + x + q,
    ensures
        contains(s, x),
{
    assert(s.subrange(p.len() as int, (p.len() + x.len()) as int) =~= x);
    assert(occurs_at(s, x, p.len() as int));
}

/// The WirePlumber rules (0.5 and later) carry the settings: the device
/// pattern, the sample format of the bit depth, the rate and the period
/// size.
pub proof fn wireplumber_rules_carry_settings(settings: AudioSettings)
    ensures
        contains(wireplumber_text(settings), modern_pattern(settings.device_id@)),
        contains(wireplumber_text(settings), format_of(settings.bit_depth)),
        contains(wireplumber_text(settings), dec(settings.sample_rate as nat)),
        contains(wireplumber_text(settings), dec(settings.buffer_size as nat)),
{
    let pat = modern_pattern(settings.device_id@);
    let f = format_of(settings.bit_depth);
    let r = dec(settings.sample_rate as nat);
    let b = dec(settings.buffer_size as nat);
    let (c0, c1, c2, c3, c4) = (MODERN_WP_0@, MODERN_WP_1@, MODERN_WP_2@, MODERN_WP_3@, MODERN_WP_4@);
    let m = wireplumber_text(settings);
    assert(m == c0 + pat + c1 + f + c2 + r + c3 + b + c4);
    lemma_piece_contained(m, c0, pat, c1 + f + c2 + r + c3 + b + c4);
    lemma_piece_contained(m, c0 + pat + c1, f, c2 + r + c3 + b + c4);
    lemma_piece_contained(m, c0 + pat + c1 + f + c2, r, c3 + b + c4);
    lemma_piece_contained(m, c0 + pat + c1 + f + c2 + r + c3, b, c4);
}

/// The legacy Lua rules (before 0.5) carry the stream type and the
/// settings: the device pattern, the sample format, the rate and the period
/// size.
pub proof fn legacy_rules_carry_settings(settings: AudioSettings, stream_type: Seq<char>)
    ensures
        contains(legacy_wireplumber_text(settings, stream_type), stream_type),
        contains(legacy_wireplumber_text(settings, stream_type), legacy_pattern(settings.device_id@)),
        contains(legacy_wireplumber_text(settings, stream_type), format_of(settings.bit_depth)),
        contains(legacy_wireplumber_text(settings, stream_type), dec(settings.sample_rate as nat)),
        contains(legacy_wireplumber_text(settings, stream_type), dec(settings.buffer_size as nat)),
{
    let lp = legacy_pattern(settings.device_id@);
    let f = format_of(settings.bit_depth);
    let r = dec(settings.sample_rate as nat);
    let b = dec(settings.buffer_size as nat);
    let st = stream_type;
    let (c0, c1, c2, c3, c4, c5) = (LEGACY_WP_0@, LEGACY_WP_1@, LEGACY_WP_2@, LEGACY_WP_3@, LEGACY_WP_4@, LEGACY_WP_5@);
    let l = legacy_wireplumber_text(settings, st);
    assert(l == c0 + st + c1 + lp + c2 + f + c3 + r + c4 + b + c5);
    lemma_piece_contained(l, c0, st, c1 + lp + c2 + f + c3 + r + c4 + b + c5);
    lemma_piece_contained(l, c0 + st + c1, lp, c2 + f + c3 + r + c4 + b + c5);
    lemma_piece_contained(l, c0 + st + c1 + lp + c2, f, c3 + r + c4 + b + c5);
    lemma_piece_contained(l, c0 + st + c1 + lp + c2 + f + c3, r, c4 + b + c5);
    lemma_piece_contained(l, c0 + st + c1 + lp + c2 + f + c3 + r + c4, b, c5);
}

/// The high-priority PipeWire fragment carries the rate and the quantum.
pub proof fn fragment_carries_settings(settings: AudioSettings)
    ensures
        contains(pipewire_fragment_text(settings), dec(settings.sample_rate as nat)),
        contains(pipewire_fragment_text(settings), dec(settings.buffer_size as nat)),
{
    let t = pipewire_fragment_text(settings);
    let r = dec(settings.sample_rate as nat);
    let b = dec(settings.buffer_size as nat);
    let (c0, c1, c2, c3, c4, c5) = (FRAGMENT_0@, FRAGMENT_1@, FRAGMENT_2@, FRAGMENT_3@, FRAGMENT_4@, FRAGMENT_5@);
    assert(t == c0 + r + c1 + b + c2 + r + c3 + b + c4 + r + c5);
    lemma_piece_contained(t, c0, r, c1 + b + c2 + r + c3 + b + c4 + r + c5);
    lemma_piece_contained(t, c0 + r + c1, b, c2 + r + c3 + b + c4 + r + c5);
}

/// Settings read back exactly as they were written pass the check.
pub proof fn settings_read_back_pass(settings: AudioSettings)
    ensures
        applied_check(settings, Ok(settings)) == Ok::<(), Seq<char>>(()),
{
}

/// The authenticated apply reports success only when the system-wide
/// update or the legacy configuration succeeded.
pub proof fn auth_success_needs_a_write(s: AuthStepView, e: AuthEventView)
    requires
        s !is Done,
        auth_next(s, e) == AuthStepView::Done(Ok(())),
    ensures
        (s == AuthStepView::UpdateSystemWide && e matches AuthEventView::Updated(Ok(_)))
            || (s == AuthStepView::ApplyLegacy && e matches AuthEventView::LegacyApplied(Ok(_))),
{
}

/// How many steps the authenticated apply can still take.
pub open spec fn auth_rank(s: AuthStepView) -> nat {
    match s {
        AuthStepView::UpdateSystemWide => 3,
        AuthStepView::CheckLegacy => 2,
        AuthStepView::ApplyLegacy => 1,
        AuthStepView::Done(_) => 0,
    }
}

/// Every answered step of the authenticated apply brings it closer to its
/// end.
pub proof fn auth_progresses(s: AuthStepView, e: AuthEventView)
    requires
        auth_next(s, e) != s,
    ensures
        auth_rank(auth_next(s, e)) < auth_rank(s),
{
}

/// The update reports success only after the written settings were read
/// back and confirmed.
pub proof fn update_success_needs_verification(s: UpdateStepView, r: Result<(), Seq<char>>)
    requires
        s !is Done,
        update_next(s, r) == UpdateStepView::Done(Ok(())),
    ensures
        s == UpdateStepView::Verify,
        r is Ok,
{
}

/// A fallback approach is only tried after the one before it failed, and the
/// services are restarted only after some approach succeeded.
pub proof fn update_fallback_order(s: UpdateStepView, r: Result<(), Seq<char>>)
    ensures
        update_next(s, r) == UpdateStepView::WriteWirePlumber ==> (s == UpdateStepView::WriteFragment && r is Err),
        update_next(s, r) == UpdateStepView::ModifyMainConfig ==> (s == UpdateStepView::WriteWirePlumber && r is Err),
        update_next(s, r) == UpdateStepView::Restart ==> (r is Ok && (s == UpdateStepView::WriteFragment
            || s == UpdateStepView::WriteWirePlumber || s == UpdateStepView::ModifyMainConfig)),
{
}

/// How many steps the update can still take.
pub open spec fn update_rank(s: UpdateStepView) -> nat {
    match s {
        UpdateStepView::Cleanup => 6,
        UpdateStepView::WriteFragment => 5,
        UpdateStepView::WriteWirePlumber => 4,
        UpdateStepView::ModifyMainConfig => 3,
        UpdateStepView::Restart => 2,
        UpdateStepView::Verify => 1,
        UpdateStepView::Done(_) => 0,
    }
}

/// Every step of the update brings it closer to its end.
pub proof fn update_progresses(s: UpdateStepView, r: Result<(), Seq<char>>)
    requires
        s !is Done,
    ensures
        update_rank(update_next(s, r)) < update_rank(s),
{
}

/// How many steps the exclusive-mode setup can still take.
pub open spec fn exclusive_rank(s: ExclusiveStepView) -> nat {
    match s {
        ExclusiveStepView::WritePipeWire => 3,
        ExclusiveStepView::WriteWirePlumber => 2,
        ExclusiveStepView::Restart => 1,
        ExclusiveStepView::Done(_) => 0,
    }
}

/// Every step of the exclusive-mode setup brings it closer to its end, and
/// it succeeds only after the restart that follows a written configuration.
pub proof fn exclusive_progresses(s: ExclusiveStepView, r: Result<(), Seq<char>>)
    requires
        s !is Done,
    ensures
        exclusive_rank(exclusive_next(s, r)) < exclusive_rank(s),
        exclusive_next(s, r) == ExclusiveStepView::Done(Ok(())) ==> (s == ExclusiveStepView::Restart
            && r is Ok),
{
}

/// Once WirePlumber is found, a version is always settled on.
pub proof fn found_binary_has_version(
    version_out: Option<Seq<u8>>,
    listings: Seq<Option<Seq<u8>>>,
)
    ensures
        wireplumber_version(version_out, listings, true) is Ok,
{
}

/// The full cleanup removes every file that applying the basic settings
/// writes: the PipeWire fragment and the WirePlumber rules of either scope,
/// and the legacy Lua scripts of either stream type.
pub proof fn cleanup_covers_basic_files(user: Seq<char>, system_wide: bool, stream_type: Seq<char>)
    ensures
        owned_files(user).contains(
            in_dir(config_dir(ConfigDir::PipeWireFragments, system_wide, user), HIGH_PRIORITY_FILE@),
        ),
        owned_files(user).contains(
            in_dir(config_dir(ConfigDir::WirePlumberFragments, system_wide, user), BASIC_FILE@),
        ),
        owned_files(user).contains(
            in_dir(config_dir(ConfigDir::WirePlumberLua, false, user), legacy_lua_name(stream_type)),
        ),
{
    let o = owned_files(user);
    if system_wide {
        assert(o[0] == in_dir(config_dir(ConfigDir::PipeWireFragments, system_wide, user), HIGH_PRIORITY_FILE@));
        assert(o[5] == in_dir(config_dir(ConfigDir::WirePlumberFragments, system_wide, user), BASIC_FILE@));
    } else {
        assert(o[2] == in_dir(config_dir(ConfigDir::PipeWireFragments, system_wide, user), HIGH_PRIORITY_FILE@));
        assert(o[7] == in_dir(config_dir(ConfigDir::WirePlumberFragments, system_wide, user), BASIC_FILE@));
    }
    if stream_type == "output"@ {
        assert(o[9] == in_dir(config_dir(ConfigDir::WirePlumberLua, false, user), legacy_lua_name(stream_type)));
    } else {
        assert(o[10] == in_dir(config_dir(ConfigDir::WirePlumberLua, false, user), legacy_lua_name(stream_type)));
    }
}

/// Restoring the shared mode, the emergency recovery and the check for an
/// active exclusive mode all cover the files that the exclusive mode writes.
pub proof fn exclusive_files_are_found_and_removed(user: Seq<char>)
    ensures
        forall|i: int| 0 <= i < exclusive_files(user).len() ==> {
            &&& recovery_files(user).contains(#[trigger] exclusive_files(user)[i])
            &&& exclusive_marker_files(user).contains(exclusive_files(user)[i])
        },
        exclusive_files(user)[0] == in_dir(config_dir(ConfigDir::PipeWireFragments, false, user), EXCLUSIVE_FILE@),
        exclusive_files(user)[1] == in_dir(config_dir(ConfigDir::WirePlumberFragments, false, user), EXCLUSIVE_FILE@),
{
    let e = exclusive_files(user);
    let r = recovery_files(user);
    let m = exclusive_marker_files(user);
    assert(r[0] == e[0]);
    assert(r[2] == e[1]);
    assert(m[2] == e[0]);
    assert(m[3] == e[1]);
}

/// The decimal digits of a number are digits and denote it.
pub proof fn lemma_decimal_digits(n: nat)
    ensures
        dec(n).len() > 0,
        all_digits(dec(n)),
        digits_value(dec(n)) == n,
    decreases n,
{
    let c = digit_char(n % 10);
    assert((48 + n % 10) as char as int == 48 + n % 10) by {
        assert(0 <= 48 + n % 10 < 0xD800);
    }
    assert(is_digit(c));
    if n < 10 {
        let s = dec(n);
        assert(s.drop_last() =~= Seq::<char>::empty());
        assert(digits_value(s.drop_last()) == 0);
    } else {
        lemma_decimal_digits(n / 10);
        let s = dec(n);
        assert(s.drop_last() =~= dec(n / 10));
        assert forall|i: int| 0 <= i < s.len() implies is_digit(#[trigger] s[i]) by {
            if i < s.len() - 1 {
                assert(s[i] == dec(n / 10)[i]);
            }
        }
        assert(digits_value(s) == (n / 10) * 10 + n % 10);
    }
}

/// A number written in decimal reads back as itself.
pub proof fn decimal_parses_back(n: u32)
    ensures
        parse_u32(dec(n as nat)) == Some(n),
        forall|fallback: u32| choice(Some(dec(n as nat)), fallback) == n,
{
    lemma_decimal_digits(n as nat);
    let s = dec(n as nat);
    assert(is_digit(s[0]));
    assert(s[0] != '+');
}

/// Every device of the list is real hardware.
pub open spec fn all_real(ds: Seq<DeviceView>) -> bool {
    forall|i: int| 0 <= i < ds.len() ==> is_real_hardware(#[trigger] ds[i])
}

proof fn lemma_keep_real(done: Seq<DeviceView>, d: DeviceView)
    requires
        all_real(done),
    ensures
        all_real(keep_real(done, d)),
{
    if is_real_hardware(d) {
        let k = keep_real(done, d);
        assert forall|i: int| 0 <= i < k.len() implies is_real_hardware(#[trigger] k[i]) by {
            if i < done.len() {
                assert(k[i] == done[i]);
            }
        }
    }
}

proof fn lemma_scan_real(ls: Seq<Seq<char>>)
    ensures
        all_real(scan_lines(ls).done),
    decreases ls.len(),
{
    if ls.len() > 0 {
        lemma_scan_real(ls.drop_last());
        let st = scan_lines(ls.drop_last());
        match st.cur {
            Some(d) => lemma_keep_real(st.done, d),
            None => {},
        }
    }
}

proof fn lemma_append_real(a: Seq<DeviceView>, b: Seq<DeviceView>)
    requires
        all_real(a),
        all_real(b),
    ensures
        all_real(a + b),
{
    assert forall|i: int| 0 <= i < (a + b).len() implies is_real_hardware(#[trigger] (a + b)[i]) by {
        if i < a.len() {
            assert((a + b)[i] == a[i]);
        } else {
            assert((a + b)[i] == b[i - a.len()]);
        }
    }
}

/// The ALSA devices of a listing are real hardware of the listed
/// direction, identified as `alsa:` devices.
pub proof fn alsa_devices_are_hardware(ls: Seq<Seq<char>>, t: DeviceType)
    ensures
        all_real(alsa_devices(ls, t)),
        forall|i: int| 0 <= i < alsa_devices(ls, t).len() ==> {
            &&& (#[trigger] alsa_devices(ls, t)[i]).device_type == t
            &&& starts_with(alsa_devices(ls, t)[i].id, "alsa:"@)
        },
    decreases ls.len(),
{
    if ls.len() > 0 {
        alsa_devices_are_hardware(ls.drop_last(), t);
        let prev = alsa_devices(ls.drop_last(), t);
        let all = alsa_devices(ls, t);
        assert forall|i: int| 0 <= i < all.len() implies {
            &&& is_real_hardware(#[trigger] all[i])
            &&& all[i].device_type == t
            &&& starts_with(all[i].id, "alsa:"@)
        } by {
            if i < prev.len() {
                assert(all[i] == prev[i]);
            } else {
                let line = ls.last();
                assert(all[i] == crate::audio::alsa_device(line, t));
                assert(("alsa:"@ + line).subrange(0, "alsa:"@.len() as int) =~= "alsa:"@);
            }
        }
    }
}

/// The PulseAudio devices of a listing are real hardware of the listed
/// direction, identified as `pulse:` devices.
pub proof fn pulse_devices_are_hardware(ls: Seq<Seq<char>>, t: DeviceType)
    ensures
        all_real(pulse_devices(ls, t)),
        forall|i: int| 0 <= i < pulse_devices(ls, t).len() ==> {
            &&& (#[trigger] pulse_devices(ls, t)[i]).device_type == t
            &&& starts_with(pulse_devices(ls, t)[i].id, "pulse:"@)
        },
    decreases ls.len(),
{
    if ls.len() > 0 {
        pulse_devices_are_hardware(ls.drop_last(), t);
        let prev = pulse_devices(ls.drop_last(), t);
        let all = pulse_devices(ls, t);
        assert forall|i: int| 0 <= i < all.len() implies {
            &&& is_real_hardware(#[trigger] all[i])
            &&& all[i].device_type == t
            &&& starts_with(all[i].id, "pulse:"@)
        } by {
            if i < prev.len() {
                assert(all[i] == prev[i]);
            } else {
                let parts = crate::text::split_whitespace(ls.last());
                assert(all[i] == crate::audio::pulse_device(parts, t));
                assert(("pulse:"@ + parts[0]).subrange(0, "pulse:"@.len() as int) =~= "pulse:"@);
            }
        }
    }
}

/// Every device that the detection reports, from any of the sound systems'
/// listings, is real hardware: virtual, null, monitor and plugin devices
/// are left out.
pub proof fn detected_devices_are_hardware(
    pw_nodes: Option<Seq<u8>>,
    aplay: Option<Seq<u8>>,
    arecord: Option<Seq<u8>>,
    sinks: Option<Seq<u8>>,
    sources: Option<Seq<u8>>,
)
    ensures
        all_real(all_devices(pw_nodes, aplay, arecord, sinks, sources)),
{
    let e = Seq::<DeviceView>::empty();
    let pw = match pw_nodes {
        Some(b) => {
            let text = crate::text::lossy_utf8(b);
            lemma_scan_real(crate::text::lines(text));
            let st = scan_lines(crate::text::lines(text));
            match st.cur {
                Some(d) => lemma_keep_real(st.done, d),
                None => {},
            }
            pipewire_devices(text)
        },
        None => e,
    };
    let out = match aplay {
        Some(b) => {
            alsa_devices_are_hardware(crate::text::lines(crate::text::lossy_utf8(b)), DeviceType::Output);
            alsa_devices(crate::text::lines(crate::text::lossy_utf8(b)), DeviceType::Output)
        },
        None => e,
    };
    let inp = match arecord {
        Some(b) => {
            alsa_devices_are_hardware(crate::text::lines(crate::text::lossy_utf8(b)), DeviceType::Input);
            alsa_devices(crate::text::lines(crate::text::lossy_utf8(b)), DeviceType::Input)
        },
        None => e,
    };
    let snk = match sinks {
        Some(b) => {
            pulse_devices_are_hardware(crate::text::lines(crate::text::lossy_utf8(b)), DeviceType::Output);
            pulse_devices(crate::text::lines(crate::text::lossy_utf8(b)), DeviceType::Output)
        },
        None => e,
    };
    let src = match sources {
        Some(b) => {
            pulse_devices_are_hardware(crate::text::lines(crate::text::lossy_utf8(b)), DeviceType::Input);
            pulse_devices(crate::text::lines(crate::text::lossy_utf8(b)), DeviceType::Input)
        },
        None => e,
    };
    lemma_append_real(pw, out);
    lemma_append_real(pw + out, inp);
    lemma_append_real(pw + out + inp, snk);
    lemma_append_real(pw + out + inp + snk, src);
}

proof fn lemma_first_containing(ds: Seq<Seq<char>>, active: Seq<char>)
    ensures
        first_containing(ds, active) matches Some(d) ==> ds.contains(d) && contains(d, active),
        (exists|i: int| 0 <= i < ds.len() && contains(#[trigger] ds[i], active)) ==> first_containing(
            ds,
            active,
        ) is Some,
    decreases ds.len(),
{
    if ds.len() > 0 {
        lemma_first_containing(ds.drop_first(), active);
        if !contains(ds[0], active) {
            if let Some(d) = first_containing(ds.drop_first(), active) {
                let k = choose|k: int| 0 <= k < ds.drop_first().len() && ds.drop_first()[k] == d;
                assert(ds[k + 1] == d);
            }
            if exists|i: int| 0 <= i < ds.len() && contains(#[trigger] ds[i], active) {
                let i = choose|i: int| 0 <= i < ds.len() && contains(#[trigger] ds[i], active);
                assert(i > 0);
                assert(ds.drop_first()[i - 1] == ds[i]);
            }
        } else {
            assert(ds[0] == ds[0]);
            assert(ds.contains(ds[0]));
        }
    }
}

proof fn lemma_busiest(ports: Seq<Seq<char>>, ds: Seq<Seq<char>>, n: nat)
    requires
        1 <= n <= ds.len(),
    ensures
        busiest(ports, ds, n) < n,
        forall|i: int| 0 <= i < n ==> ports_of(ports, #[trigger] ds[i]).len() <= ports_of(
            ports,
            ds[busiest(ports, ds, n) as int],
        ).len(),
    decreases n,
{
    if n > 1 {
        lemma_busiest(ports, ds, (n - 1) as nat);
    }
}

/// The monitored device is one of the listed devices; where the active sink
/// is named and some device contains its name, the chosen device does;
/// where it is unknown, no device has more ports than the chosen one.
pub proof fn monitor_choice(ports: Seq<Seq<char>>, active: Seq<char>)
    requires
        device_list(ports).len() > 0,
    ensures
        device_list(ports).contains(chosen_device(ports, active)->0),
        active.len() > 0 && (exists|i: int|
            0 <= i < device_list(ports).len() && contains(#[trigger] device_list(ports)[i], active))
            ==> contains(chosen_device(ports, active)->0, active),
        active.len() == 0 ==> forall|i: int|
            0 <= i < device_list(ports).len() ==> ports_of(ports, #[trigger] device_list(ports)[i]).len()
                <= ports_of(ports, chosen_device(ports, active)->0).len(),
{
    let ds = device_list(ports);
    lemma_first_containing(ds, active);
    lemma_busiest(ports, ds, ds.len());
    if active.len() > 0 {
        if first_containing(ds, active) is None {
            assert(ds.contains(ds[0]));
        }
    } else {
        let b = busiest(ports, ds, ds.len());
        assert(ds.contains(ds[b as int]));
    }
}

/// `s` holds no `c`.
pub open spec fn lacks(s: Seq<char>, c: char) -> bool {
    forall|i: int| 0 <= i < s.len() ==> #[trigger] s[i] != c
}

proof fn lemma_split_without(b: Seq<char>, c: char)
    requires
        lacks(b, c),
    ensures
        split_by(b, Strip::Ch(c)) == seq![b],
    decreases b.len(),
{
    if b.len() > 0 {
        assert(lacks(b.drop_first(), c)) by {
            assert forall|i: int| 0 <= i < b.drop_first().len() implies #[trigger] b.drop_first()[i] != c by {
                assert(b.drop_first()[i] == b[i + 1]);
            }
        }
        lemma_split_without(b.drop_first(), c);
        assert(b[0] != c);
        assert(seq![b[0]] + b.drop_first() =~= b);
        assert(extend_first(seq![b[0]], seq![b.drop_first()]) =~= seq![b]);
    } else {
        assert(b =~= Seq::<char>::empty());
    }
}

proof fn lemma_split_at_first(a: Seq<char>, b: Seq<char>, c: char)
    requires
        lacks(a, c),
    ensures
        split_by(a + seq![c] + b, Strip::Ch(c)) == seq![a] + split_by(b, Strip::Ch(c)),
    decreases a.len(),
{
    let s = a + seq![c] + b;
    if a.len() == 0 {
        assert(s[0] == c);
        assert(s.drop_first() =~= b);
        assert(a =~= Seq::<char>::empty());
    } else {
        assert(lacks(a.drop_first(), c)) by {
            assert forall|i: int| 0 <= i < a.drop_first().len() implies #[trigger] a.drop_first()[i] != c by {
                assert(a.drop_first()[i] == a[i + 1]);
            }
        }
        lemma_split_at_first(a.drop_first(), b, c);
        assert(s[0] == a[0]);
        assert(a[0] != c);
        assert(s.drop_first() =~= a.drop_first() + seq![c] + b);
        lemma_split_by_nonempty(b, Strip::Ch(c));
        let r = seq![a.drop_first()] + split_by(b, Strip::Ch(c));
        assert(extend_first(seq![a[0]], r) =~= seq![a] + split_by(b, Strip::Ch(c))) by {
            assert(seq![a[0]] + a.drop_first() =~= a);
        }
    }
}

proof fn lemma_trim_start_stops(s: Seq<char>, k: Strip)
    requires
        s.len() > 0,
        !strips(k, s[0]),
    ensures
        trim_start_by(s, k) == s,
{
}

proof fn lemma_trim_end_stops(s: Seq<char>, k: Strip)
    requires
        s.len() > 0,
        !strips(k, s.last()),
    ensures
        trim_end_by(s, k) == s,
{
}

/// A property line as `pw-cli info` prints it, `key = "value"` with the
/// decimal digits of a number, reads back as that number: the key holds no
/// `=` and starts with neither a `*` nor a blank.
pub proof fn property_line_reads_back(key: Seq<char>, n: u32)
    requires
        key.len() > 0,
        lacks(key, '='),
        key[0] != '*',
        !is_ws(key[0]),
    ensures
        number_in_line(key + " = \""@ + dec(n as nat) + "\""@) == Some(n),
{
    reveal_strlit(" = \"");
    reveal_strlit("\"");
    let d = dec(n as nat);
    lemma_decimal_digits(n as nat);
    decimal_parses_back(n);
    let q = seq!['"'];
    assert("\""@ =~= q);
    let line = key + " = \""@ + d + "\""@;
    let a = key + seq![' '];
    let b = seq![' ', '"'] + d + q;
    assert(" = \""@ =~= seq![' ', '=', ' ', '"']);
    assert(line =~= a + seq!['='] + b);
    // the line starts with the key and ends with a quote
    assert(line[0] == key[0]);
    assert(line.last() == '"');
    lemma_trim_start_stops(line, Strip::Ch('*'));
    lemma_trim_start_stops(line, Strip::Ws);
    lemma_trim_end_stops(line, Strip::Ws);
    assert(trim(trim_start_by(line, Strip::Ch('*'))) == line);
    // splitting at the first `=`
    assert(lacks(a, '=')) by {
        assert forall|i: int| 0 <= i < a.len() implies #[trigger] a[i] != '=' by {
            if i < key.len() {
                assert(a[i] == key[i]);
            }
        }
    }
    assert(lacks(b, '=')) by {
        assert forall|i: int| 0 <= i < b.len() implies #[trigger] b[i] != '=' by {
            if 2 <= i < 2 + d.len() {
                assert(b[i] == d[i - 2]);
                assert(is_digit(d[i - 2]));
            }
        }
    }
    lemma_split_at_first(a, b, '=');
    lemma_split_without(b, '=');
    let parts = split_by(line, Strip::Ch('='));
    assert(parts =~= seq![a, b]);
    // trimming the value
    let x = seq!['"'] + d + q;
    assert(b[0] == ' ');
    assert(b.drop_first() =~= x);
    lemma_trim_start_stops(x, Strip::Ws);
    assert(trim_start_by(b, Strip::Ws) == x);
    assert(x.last() == '"');
    lemma_trim_end_stops(x, Strip::Ws);
    assert(trim(b) == x);
    // removing the quotes
    let y = d + q;
    assert(x.drop_first() =~= y);
    assert(is_digit(d[0]));
    assert(y[0] == d[0]);
    lemma_trim_start_stops(y, Strip::Ch('"'));
    assert(trim_start_by(x, Strip::Ch('"')) == y);
    assert(y.drop_last() =~= d);
    assert(is_digit(d.last()));
    lemma_trim_end_stops(d, Strip::Ch('"'));
    assert(trim_end_by(y, Strip::Ch('"')) == d);
    assert(trim_matches(trim(parts[1]), '"') == d);
}

proof fn lemma_occurs_inside(s: Seq<char>, p: Seq<char>, x: Seq<char>, q: Seq<char>, pat: Seq<char>, k: int)
    requires
        s =~= p + x + q,
        occurs_at(x, pat, k),
    ensures
        contains(s, pat),
{
    assert(s.subrange(p.len() + k, p.len() + k + pat.len()) =~= x.subrange(k, k + pat.len()));
    assert(occurs_at(s, pat, p.len() + k));
}

/// The exclusive mode with direct hardware access asks for moderate
/// real-time limits that ordinary users are granted: nice level -11,
/// priority 80, soft and hard limits of 200000 microseconds.
pub proof fn direct_exclusive_limits_are_safe(low_latency: bool, buffer_size: u32, sample_rate: u32)
    ensures
        contains(exclusive_direct_text(low_latency, buffer_size, sample_rate), "nice.level = -11"@),
        contains(exclusive_direct_text(low_latency, buffer_size, sample_rate), "rt.prio = 80"@),
        contains(exclusive_direct_text(low_latency, buffer_size, sample_rate), "rt.time.soft = 200000"@),
        contains(exclusive_direct_text(low_latency, buffer_size, sample_rate), "rt.time.hard = 200000"@),
{
    reveal_strlit(r#"
}

# Configure for low latency with safe defaults
context.modules = [
    {
        name = libpipewire-module-rt
        args = {
            nice.level = -11    # Reduced from -20 to avoid permission issues
            rt.prio = 80        # Reduced from 88 to avoid permission issues
            rt.time.soft = 200000  # Increased from 100000 for better compatibility
            rt.time.hard = 200000  # Increased from 100000 for better compatibility
        }
        flags = [ ifexists nofail ]
    }
]

# Node configuration for exclusive access
node.factory = {
    args = {
        node.name = "pro-audio-exclusive-node"
        node.description = "Pro Audio Exclusive Mode"
        media.class = "Audio/Sink"
        audio.format = ""#);
    reveal_strlit("nice.level = -11");
    reveal_strlit("rt.prio = 80");
    reveal_strlit("rt.time.soft = 200000");
    reveal_strlit("rt.time.hard = 200000");
    let r = dec(sample_rate as nat);
    let b = dec(buffer_size as nat);
    let f = exclusive_format(low_latency);
    let t = exclusive_direct_text(low_latency, buffer_size, sample_rate);
    let p = EXCL_DIRECT_0@ + r + EXCL_DIRECT_1@ + b + EXCL_DIRECT_2@ + r + EXCL_DIRECT_3@ + b + EXCL_DIRECT_4@ + r;
    let x = EXCL_DIRECT_5@;
    let q = f + EXCL_DIRECT_6@ + r + EXCL_DIRECT_7@ + r + EXCL_DIRECT_8@;
    assert(t =~= p + x + q);
    assert(x.subrange(143, 159) =~= "nice.level = -11"@);
    lemma_occurs_inside(t, p, x, q, "nice.level = -11"@, 143);
    assert(x.subrange(221, 233) =~= "rt.prio = 80"@);
    lemma_occurs_inside(t, p, x, q, "rt.prio = 80"@, 221);
    assert(x.subrange(298, 319) =~= "rt.time.soft = 200000"@);
    lemma_occurs_inside(t, p, x, q, "rt.time.soft = 200000"@, 298);
    assert(x.subrange(382, 403) =~= "rt.time.hard = 200000"@);
    lemma_occurs_inside(t, p, x, q, "rt.time.hard = 200000"@, 382);
}

/// No configuration file is listed twice: two listed entries of a scan have
/// different paths.
pub proof fn listed_paths_are_distinct(s: Seq<(String, u64)>, a: int, b: int)
    requires
        0 <= a < s.len(),
        0 <= b < s.len(),
        a != b,
        listed(s, a),
        listed(s, b),
    ensures
        s[a].0@ != s[b].0@,
{
    if s[a].0@ == s[b].0@ {
        assert(listed_before(s, a, b));
        assert(listed_before(s, b, a));
    }
}

/// The entry with path `p` among the first `n` entries that is listed first
/// (-1 where there is none).
spec fn first_of_path(s: Seq<(String, u64)>, p: Seq<char>, n: int) -> int
    decreases n,
{
    if n <= 0 {
        -1
    } else {
        let b = first_of_path(s, p, n - 1);
        if s[n - 1].0@ == p && (b < 0 || listed_before(s, n - 1, b)) {
            n - 1
        } else {
            b
        }
    }
}

proof fn lemma_first_of_path(s: Seq<(String, u64)>, p: Seq<char>, n: int)
    requires
        0 <= n <= s.len(),
    ensures
        first_of_path(s, p, n) < n,
        first_of_path(s, p, n) >= 0 ==> s[first_of_path(s, p, n)].0@ == p,
        forall|j: int| 0 <= j < n && s[j].0@ == p ==> first_of_path(s, p, n) >= 0,
        forall|j: int|
            #![trigger s[j]]
            0 <= j < n && s[j].0@ == p && j != first_of_path(s, p, n) ==> listed_before(
                s,
                first_of_path(s, p, n),
                j,
            ),
    decreases n,
{
    if n > 0 {
        lemma_first_of_path(s, p, n - 1);
    }
}

/// Every scanned file is shown: for each entry of a scan, an entry of the
/// same path is listed.
pub proof fn every_scanned_path_is_listed(s: Seq<(String, u64)>, k: int)
    requires
        0 <= k < s.len(),
    ensures
        exists|j: int| 0 <= j < s.len() && listed(s, j) && s[j].0@ == s[k].0@,
{
    let p = s[k].0@;
    lemma_first_of_path(s, p, s.len() as int);
    let b = first_of_path(s, p, s.len() as int);
    assert(b >= 0);
    assert(listed(s, b));
}

/// A PipeWire node as the parser keeps it: available, identified as
/// `unknown` or by a `pipewire:` id.
pub open spec fn pipewire_node_ok(d: DeviceView) -> bool {
    d.available && (d.id == "unknown"@ || starts_with(d.id, "pipewire:"@))
}

pub open spec fn all_nodes_ok(ds: Seq<DeviceView>) -> bool {
    forall|i: int| 0 <= i < ds.len() ==> pipewire_node_ok(#[trigger] ds[i])
}

proof fn lemma_object_id(line: Seq<char>)
    ensures
        object_id(line) == "unknown"@ || starts_with(object_id(line), "pipewire:"@),
{
    reveal_strlit("pipewire:");
    reveal_strlit("unknown");
    let id = object_id(line);
    if id != "unknown"@ {
        let p = "pipewire:"@;
        assert(id.take(p.len() as int) =~= p);
        assert forall|k: int| 0 <= k < p.len() implies #[trigger] id[k] == p[k] by {
            assert(id.take(p.len() as int)[k] == id[k]);
        }
    }
}

proof fn lemma_keep_ok(done: Seq<DeviceView>, d: DeviceView)
    requires
        all_nodes_ok(done),
        pipewire_node_ok(d),
    ensures
        all_nodes_ok(keep_real(done, d)),
{
    if is_real_hardware(d) {
        let k = keep_real(done, d);
        assert forall|i: int| 0 <= i < k.len() implies pipewire_node_ok(#[trigger] k[i]) by {
            if i < done.len() {
                assert(k[i] == done[i]);
            }
        }
    }
}

proof fn lemma_scan_ok(ls: Seq<Seq<char>>)
    ensures
        all_nodes_ok(scan_lines(ls).done),
        scan_lines(ls).cur matches Some(d) ==> pipewire_node_ok(d),
    decreases ls.len(),
{
    if ls.len() > 0 {
        lemma_scan_ok(ls.drop_last());
        let st = scan_lines(ls.drop_last());
        let line = ls.last();
        lemma_object_id(line);
        match st.cur {
            Some(d) => lemma_keep_ok(st.done, d),
            None => {},
        }
    }
}

/// Every device that the PipeWire listing gives is available and is
/// identified as `unknown` or by a `pipewire:` id.
pub proof fn pipewire_devices_are_available_nodes(text: Seq<char>)
    ensures
        all_nodes_ok(pipewire_devices(text)),
{
    let ls = crate::text::lines(text);
    lemma_scan_ok(ls);
    let st = scan_lines(ls);
    match st.cur {
        Some(d) => lemma_keep_ok(st.done, d),
        None => {},
    }
}

/// Waiting for the services after a restart is bounded: each failed check
/// counts one failure more, and the wait gives up exactly at the policy's
/// number of checks; a check that finds the services running ends it.
pub proof fn service_wait_is_bounded(p: WaitPolicy, failed_before: u32)
    requires
        failed_before < p.max_checks,
    ensures
        wait_next(p, failed_before, true) == WaitAction::Running,
        wait_next(p, failed_before, false) matches WaitAction::Failed { failed, give_up, .. } && failed
            == failed_before + 1 && (give_up <==> failed == p.max_checks),
{
}

/// The value after a key in the JSON rules: the key in quotes, a colon and a
/// blank, the decimal number, then the comma that ends the entry.
pub open spec fn json_entry(key: Seq<char>, n: nat) -> Seq<char> {
    "\""@ + key + "\": "@ + dec(n) + ","@
}

/// The WirePlumber rules (0.5 and later) set `audio.rate` to the sample
/// rate and `api.alsa.period-size` to the buffer size: each number stands
/// right after its own key.
pub proof fn wireplumber_rules_set_rate_and_period(settings: AudioSettings)
    ensures
        contains(wireplumber_text(settings), json_entry("audio.rate"@, settings.sample_rate as nat)),
        contains(
            wireplumber_text(settings),
            json_entry("api.alsa.period-size"@, settings.buffer_size as nat),
        ),
{
    reveal_strlit("\"");
    reveal_strlit("\": ");
    reveal_strlit(",");
    reveal_strlit("audio.rate");
    reveal_strlit("api.alsa.period-size");
    reveal_strlit("\",");
    reveal_strlit("\n              ");
    reveal_strlit("\"audio.rate\": ");
    reveal_strlit("\"api.alsa.period-size\": ");
    reveal_strlit("\",\n              \"audio.rate\": ");
    reveal_strlit(",\n              \"api.alsa.period-size\": ");
    reveal_strlit(",\n              \"api.alsa.period-num\": 2,\n              \"api.alsa.headroom\": 8192\n            }\n          }\n        ]\n      }\n    ]\n  }\n}");
    let pat = modern_pattern(settings.device_id@);
    let f = format_of(settings.bit_depth);
    let r = dec(settings.sample_rate as nat);
    let b = dec(settings.buffer_size as nat);
    let (c0, c1, c2, c3, c4) = (MODERN_WP_0@, MODERN_WP_1@, MODERN_WP_2@, MODERN_WP_3@, MODERN_WP_4@);
    let m = wireplumber_text(settings);
    let kr = "\"audio.rate\": "@;
    let kb = "\"api.alsa.period-size\": "@;
    assert(c2 == "\",\n              \"audio.rate\": "@);
    assert(c2 =~= "\","@ + "\n              "@ + kr);
    assert(c3 =~= ","@ + "\n              "@ + kb);
    assert(c4 =~= ","@ + c4.skip(1));
    let e1 = json_entry("audio.rate"@, settings.sample_rate as nat);
    let e2 = json_entry("api.alsa.period-size"@, settings.buffer_size as nat);
    assert(e1 =~= kr + r + ","@);
    assert(e2 =~= kb + b + ","@);
    assert(m =~= (c0 + pat + c1 + f + "\","@ + "\n              "@) + e1 + ("\n              "@ + kb + b + c4));
    lemma_piece_contained(m, c0 + pat + c1 + f + "\","@ + "\n              "@, e1, "\n              "@ + kb + b + c4);
    assert(m =~= (c0 + pat + c1 + f + c2 + r + ","@ + "\n              "@) + e2 + c4.skip(1));
    lemma_piece_contained(m, c0 + pat + c1 + f + c2 + r + ","@ + "\n              "@, e2, c4.skip(1));
}

proof fn lemma_audio_class_names_audio(class: Seq<char>, full: Seq<char>)
    requires
        full.len() >= 5,
        full.take(5) == "Audio"@,
        contains(class, full),
    ensures
        contains(class, "Audio"@),
{
    reveal_strlit("Audio");
    let i = choose|i: int| occurs_at(class, full, i);
    assert(class.subrange(i, i + 5) =~= full.take(5));
    assert(occurs_at(class, "Audio"@, i));
}

/// The media class decides a node's direction: a class naming
/// `Audio/Source` is an input, otherwise `Audio/Sink` an output, otherwise
/// `Audio/Duplex` a duplex device. A node's `media.class` line sets its
/// direction so.
pub proof fn media_class_sets_direction(
    class: Seq<char>,
    name: Seq<char>,
    desc: Seq<char>,
    d: DeviceView,
    line: Seq<char>,
)
    ensures
        contains(class, "Audio/Source"@) ==> class_type(class, name, desc) == DeviceType::Input,
        !contains(class, "Audio/Source"@) && contains(class, "Audio/Sink"@) ==> class_type(
            class,
            name,
            desc,
        ) == DeviceType::Output,
        !contains(class, "Audio/Source"@) && !contains(class, "Audio/Sink"@) && contains(
            class,
            "Audio/Duplex"@,
        ) ==> class_type(class, name, desc) == DeviceType::Duplex,
        sets(line, "media.class"@) && contains(
            property_value(crate::text::second_field(line, '=')->0),
            "Audio/Source"@,
        ) ==> update_node(d, line).device_type == DeviceType::Input,
        sets(line, "media.class"@) && !contains(
            property_value(crate::text::second_field(line, '=')->0),
            "Audio/Source"@,
        ) && contains(property_value(crate::text::second_field(line, '=')->0), "Audio/Sink"@)
            ==> update_node(d, line).device_type == DeviceType::Output,
{
}

/// A media class that does not name `Audio` leaves the direction unknown.
pub proof fn media_class_without_audio_is_unknown(class: Seq<char>, name: Seq<char>, desc: Seq<char>)
    requires
        !contains(class, "Audio"@),
    ensures
        class_type(class, name, desc) == DeviceType::Unknown,
{
    reveal_strlit("Audio");
    reveal_strlit("Audio/Source");
    reveal_strlit("Audio/Sink");
    reveal_strlit("Audio/Duplex");
    if contains(class, "Audio/Source"@) {
        assert("Audio/Source"@.take(5) =~= "Audio"@);
        lemma_audio_class_names_audio(class, "Audio/Source"@);
    }
    if contains(class, "Audio/Sink"@) {
        assert("Audio/Sink"@.take(5) =~= "Audio"@);
        lemma_audio_class_names_audio(class, "Audio/Sink"@);
    }
    if contains(class, "Audio/Duplex"@) {
        assert("Audio/Duplex"@.take(5) =~= "Audio"@);
        lemma_audio_class_names_audio(class, "Audio/Duplex"@);
    }
}

/// The read-back check passes only when the sample rate read back is the one
/// written and the buffer sizes differ by at most 256 samples; any other rate,
/// higher or lower, fails it. Equal rates with buffer sizes (below 2^31) at
/// most 256 apart pass.
pub proof fn read_back_needs_the_written_rate(expected: AudioSettings, current: AudioSettings)
    ensures
        current.sample_rate != expected.sample_rate ==> applied_check(expected, Ok(current)) is Err,
        applied_check(expected, Ok(current)) is Ok ==> current.sample_rate == expected.sample_rate
            && -256 <= buffer_offset(current, expected) <= 256,
        current.sample_rate == expected.sample_rate && current.buffer_size <= 0x7fff_ffff
            && expected.buffer_size <= 0x7fff_ffff && -256 <= current.buffer_size
            - expected.buffer_size <= 256 ==> applied_check(expected, Ok(current)) is Ok,
{
}

/// A line that names a limit of the quantum rather than the quantum itself.
pub open spec fn names_quantum_limit(line: Seq<char>) -> bool {
    contains(line, "quantum-limit"@) || contains(line, "quantum-floor"@) || contains(
        line,
        "min-quantum"@,
    ) || contains(line, "max-quantum"@)
}

/// A line about a limit of the quantum (`quantum-limit`, `quantum-floor`,
/// `min-quantum`, `max-quantum`) never changes the buffer size read from
/// `pw-cli info 0`: adding it after any lines leaves the quantum read as it
/// was.
pub proof fn quantum_limits_keep_buffer_size(ls: Seq<Seq<char>>, line: Seq<char>)
    requires
        names_quantum_limit(line),
    ensures
        read_clock(ls.push(line)).2 == read_clock(ls).2,
{
    assert(ls.push(line).drop_last() =~= ls);
    assert(ls.push(line).last() == line);
}

/// `a` and `b` agree wherever both have a character.
pub open spec fn agree(a: Seq<char>, b: Seq<char>) -> bool {
    forall|k: int| 0 <= k < a.len() && k < b.len() ==> a[k] == b[k]
}

/// No position of `q` starts a copy of `p`, not even one that `q` cuts
/// short.
pub open spec fn starts_no_copy(q: Seq<char>, p: Seq<char>) -> bool {
    forall|j: int| 0 <= j < q.len() ==> !agree(#[trigger] q.skip(j), p)
}

/// `p` starts with a `d` and holds no other.
pub open spec fn d_led(p: Seq<char>) -> bool {
    p.len() > 0 && p[0] == 'd' && forall|k: int| 1 <= k < p.len() ==> #[trigger] p[k] != 'd'
}

proof fn lemma_skip_keeps_absence(s: Seq<char>, p: Seq<char>, k: int)
    requires
        0 <= k <= s.len(),
        !contains(s, p),
    ensures
        !contains(s.skip(k), p),
{
    if contains(s.skip(k), p) {
        let j = choose|j: int| occurs_at(s.skip(k), p, j);
        assert(s.subrange(j + k, j + k + p.len()) =~= s.skip(k).subrange(j, j + p.len()));
        assert(occurs_at(s, p, j + k));
    }
}

/// Where the start of a replaced text holds no `d` (and each replacement
/// starts with one), that start was there before the replacement.
proof fn lemma_prefix_kept(u: Seq<char>, q: Seq<char>, r: Seq<char>, m: int)
    requires
        q.len() > 0,
        r.len() > 0,
        r[0] == 'd',
        0 <= m <= replace(u, q, r).len(),
        forall|k: int| 0 <= k < m ==> #[trigger] replace(u, q, r)[k] != 'd',
    ensures
        m <= u.len(),
        u.take(m) == replace(u, q, r).take(m),
    decreases u.len(),
{
    let t = replace(u, q, r);
    if m == 0 {
        assert(u.take(0) =~= t.take(0));
    } else if u.len() < q.len() {
    } else if u.subrange(0, q.len() as int) == q {
        assert(t == r + replace(u.skip(q.len() as int), q, r));
        assert(t[0] == 'd');
    } else {
        let u1 = u.drop_first();
        let t1 = replace(u1, q, r);
        assert(t == seq![u[0]] + t1);
        assert forall|k: int| 0 <= k < m - 1 implies #[trigger] t1[k] != 'd' by {
            assert(t1[k] == t[k + 1]);
        }
        lemma_prefix_kept(u1, q, r, m - 1);
        assert(u.take(m) =~= seq![u[0]] + u1.take(m - 1));
        assert(t.take(m) =~= seq![u[0]] + t1.take(m - 1));
    }
}

/// Replacing `q` by `r` leaves no copy of `p` where there was none before
/// (or where `q` is `p` itself), provided `p` starts with its only `d`, `r`
/// starts with a `d` and no position of `r` starts a copy of `p`.
proof fn lemma_replace_leaves_no_copy(s: Seq<char>, p: Seq<char>, q: Seq<char>, r: Seq<char>)
    requires
        d_led(p),
        q.len() > 0,
        r.len() > 0,
        r[0] == 'd',
        starts_no_copy(r, p),
        q == p || !contains(s, p),
    ensures
        !contains(replace(s, q, r), p),
    decreases s.len(),
{
    let t = replace(s, q, r);
    if s.len() < q.len() {
        assert(t == s);
    } else if s.subrange(0, q.len() as int) == q {
        let rest = s.skip(q.len() as int);
        if q != p {
            lemma_skip_keeps_absence(s, p, q.len() as int);
        }
        lemma_replace_leaves_no_copy(rest, p, q, r);
        let t1 = replace(rest, q, r);
        assert(t == r + t1);
        assert forall|i: int| !occurs_at(t, p, i) by {
            if occurs_at(t, p, i) {
                if i < r.len() {
                    assert forall|k: int| 0 <= k < r.skip(i).len() && k < p.len() implies r.skip(i)[k]
                        == p[k] by {
                        assert(r.skip(i)[k] == t[i + k]);
                        assert(t.subrange(i, i + p.len())[k] == t[i + k]);
                    }
                    assert(agree(r.skip(i), p));
                } else {
                    assert(t1.subrange(i - r.len(), i - r.len() + p.len()) =~= t.subrange(i, i + p.len()));
                    assert(occurs_at(t1, p, i - r.len()));
                }
            }
        }
    } else {
        let u = s.drop_first();
        if q != p {
            lemma_skip_keeps_absence(s, p, 1);
            assert(s.skip(1) == u);
        }
        lemma_replace_leaves_no_copy(u, p, q, r);
        let t1 = replace(u, q, r);
        assert(t == seq![s[0]] + t1);
        assert forall|i: int| !occurs_at(t, p, i) by {
            if occurs_at(t, p, i) {
                if i >= 1 {
                    assert(t1.subrange(i - 1, i - 1 + p.len()) =~= t.subrange(i, i + p.len()));
                    assert(occurs_at(t1, p, i - 1));
                } else {
                    let m = p.len() - 1;
                    assert(t.subrange(0, p.len() as int) == p);
                    assert forall|k: int| 0 <= k < m implies #[trigger] t1[k] != 'd' by {
                        assert(t1[k] == t[k + 1]);
                        assert(t.subrange(0, p.len() as int)[k + 1] == t[k + 1]);
                        assert(p[k + 1] != 'd');
                    }
                    lemma_prefix_kept(u, q, r, m);
                    assert forall|k: int| 0 <= k < p.len() implies s[k] == p[k] by {
                        assert(t.subrange(0, p.len() as int)[k] == t[k]);
                        if k > 0 {
                            assert(u.take(m)[k - 1] == t1.take(m)[k - 1]);
                            assert(t1[k - 1] == t[k]);
                        }
                    }
                    assert(s.subrange(0, p.len() as int) =~= p);
                    assert(occurs_at(s, p, 0));
                }
            }
        }
    }
}

/// The uncommented stock rate line of the main configuration.
pub open spec fn stock_rate_line() -> Seq<char> {
    "default.clock.rate          = 48000"@
}

proof fn lemma_stock_rate_line_d_led()
    ensures
        d_led(stock_rate_line()),
{
    reveal_strlit("default.clock.rate          = 48000");
}

/// A line made of a literal head and a decimal number (and a literal tail)
/// starts no copy of the stock rate line at any position of the head that
/// holds no `d` or at any position of the number or the tail.
proof fn lemma_line_positions(head: Seq<char>, n: nat, tail: Seq<char>, j: int)
    requires
        0 <= j < (head + dec(n) + tail).len(),
        (j < head.len() ==> head[j] != 'd'),
        forall|k: int| 0 <= k < tail.len() ==> #[trigger] tail[k] != 'd',
    ensures
        !agree((head + dec(n) + tail).skip(j), stock_rate_line()),
{
    reveal_strlit("default.clock.rate          = 48000");
    lemma_decimal_digits(n);
    let line = head + dec(n) + tail;
    assert(line.skip(j)[0] == line[j]);
    if j >= head.len() && j < head.len() + dec(n).len() {
        assert(line[j] == dec(n)[j - head.len()]);
        assert(is_digit(dec(n)[j - head.len()]));
    }
    assert(line[j] != 'd');
}

proof fn lemma_rate_line_no_copy(rate: u32)
    requires
        !agree(dec(rate as nat), "48000"@),
    ensures
        starts_no_copy(rate_line(rate), stock_rate_line()),
        rate_line(rate)[0] == 'd',
{
    reveal_strlit("default.clock.rate          = 48000");
    reveal_strlit("default.clock.rate          = ");
    reveal_strlit("48000");
    let head = "default.clock.rate          = "@;
    let d = dec(rate as nat);
    let p = stock_rate_line();
    let line = rate_line(rate);
    lemma_decimal_digits(rate as nat);
    assert(line == head + d + Seq::<char>::empty());
    assert(p =~= head + "48000"@);
    assert forall|j: int| 0 <= j < line.len() implies !agree(#[trigger] line.skip(j), p) by {
        if j == 0 {
            if agree(line.skip(0), p) {
                assert forall|k: int| 0 <= k < d.len() && k < 5 implies d[k] == "48000"@[k] by {
                    assert(line.skip(0)[30 + k] == line[30 + k]);
                    assert(line[30 + k] == d[k]);
                    assert(p[30 + k] == "48000"@[k]);
                }
                assert(agree(d, "48000"@));
            }
        } else {
            lemma_line_positions(head, rate as nat, Seq::<char>::empty(), j);
        }
    }
}

proof fn lemma_quantum_line_no_copy(quantum: u32)
    ensures
        starts_no_copy(quantum_line(quantum), stock_rate_line()),
        quantum_line(quantum)[0] == 'd',
{
    reveal_strlit("default.clock.rate          = 48000");
    reveal_strlit("default.clock.quantum       = ");
    let head = "default.clock.quantum       = "@;
    let p = stock_rate_line();
    let line = quantum_line(quantum);
    lemma_decimal_digits(quantum as nat);
    assert(line == head + dec(quantum as nat) + Seq::<char>::empty());
    assert forall|j: int| 0 <= j < line.len() implies !agree(#[trigger] line.skip(j), p) by {
        if j == 0 {
            assert(line.skip(0)[14] == line[14]);
            assert(line[14] == 'q');
            assert(p[14] == 'r');
        } else {
            lemma_line_positions(head, quantum as nat, Seq::<char>::empty(), j);
        }
    }
}

proof fn lemma_allowed_rates_line_no_copy(rate: u32)
    ensures
        starts_no_copy(allowed_rates_line(rate), stock_rate_line()),
        allowed_rates_line(rate)[0] == 'd',
{
    reveal_strlit("default.clock.rate          = 48000");
    reveal_strlit("default.clock.allowed-rates = [ ");
    reveal_strlit(" ]");
    let head = "default.clock.allowed-rates = [ "@;
    let p = stock_rate_line();
    let line = allowed_rates_line(rate);
    lemma_decimal_digits(rate as nat);
    assert forall|j: int| 0 <= j < line.len() implies !agree(#[trigger] line.skip(j), p) by {
        if j == 0 {
            assert(line.skip(0)[14] == line[14]);
            assert(line[14] == 'a');
            assert(p[14] == 'r');
        } else if j == 20 {
            assert(line.skip(20)[1] == line[21]);
            assert(line[21] == '-');
            assert(p[1] == 'e');
        } else {
            lemma_line_positions(head, rate as nat, " ]"@, j);
        }
    }
}

/// Editing the main configuration sets every uncommented stock rate line
/// (`default.clock.rate          = 48000`) to the chosen rate: the edited text
/// holds no such line, so a configuration that held one is always rewritten.
/// (A rate whose digits agree with those of 48000 as far as both go, such as
/// 48000 itself or 4800, would spell the line again, and is left out.)
pub proof fn main_config_edit_sets_rate(content: Seq<char>, settings: AudioSettings)
    requires
        !agree(dec(settings.sample_rate as nat), "48000"@),
    ensures
        !contains(clock_edits(content, settings), stock_rate_line()),
        contains(content, stock_rate_line()) ==> main_config_update(content, settings)
            == Some(clock_edits(content, settings)),
{
    reveal_strlit("default.clock.rate          = 48000");
    let p = stock_rate_line();
    let rate = rate_line(settings.sample_rate);
    let quantum = quantum_line(settings.buffer_size);
    let rates = allowed_rates_line(settings.sample_rate);
    lemma_stock_rate_line_d_led();
    lemma_rate_line_no_copy(settings.sample_rate);
    lemma_quantum_line_no_copy(settings.buffer_size);
    lemma_allowed_rates_line_no_copy(settings.sample_rate);
    reveal_strlit("#default.clock.rate          = 48000");
    reveal_strlit("#default.clock.rate          = 192000");
    reveal_strlit("#default.clock.quantum       = 1024");
    reveal_strlit("#default.clock.quantum       = 8192");
    reveal_strlit("default.clock.quantum       = 1024");
    reveal_strlit("default.clock.allowed-rates = \\[ 44100, 48000, 96000, 192000 \\]");
    let a = replace(content, "#default.clock.rate          = 48000"@, rate);
    let b = replace(a, "#default.clock.rate          = 192000"@, rate);
    let c = replace(b, p, rate);
    lemma_replace_leaves_no_copy(b, p, p, rate);
    let d = replace(c, "#default.clock.quantum       = 1024"@, quantum);
    lemma_replace_leaves_no_copy(c, p, "#default.clock.quantum       = 1024"@, quantum);
    let e = replace(d, "#default.clock.quantum       = 8192"@, quantum);
    lemma_replace_leaves_no_copy(d, p, "#default.clock.quantum       = 8192"@, quantum);
    let f = replace(e, "default.clock.quantum       = 1024"@, quantum);
    lemma_replace_leaves_no_copy(e, p, "default.clock.quantum       = 1024"@, quantum);
    let q = "default.clock.allowed-rates = \\[ 44100, 48000, 96000, 192000 \\]"@;
    lemma_replace_leaves_no_copy(f, p, q, rates);
    assert(clock_edits(content, settings) == replace(f, q, rates));
}

} // verus!
