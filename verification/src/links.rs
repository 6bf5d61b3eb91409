//! Connecting the monitor ports of an output device to this tool's inputs:
//! reading `pw-link` listings, choosing the device, pairing the channels,
//! and the messages of a reconnection.

use vstd::prelude::*;
use crate::audio::{contains_lit, is_lit};
use crate::text::{
    chars_of, contains, contains_of, deep, join, join_of, lines, lines_of, lossy_utf8, push_chars,
    push_str, replace, replace_of, string_of, subvec, trim, trim_of, utf8_lossy_of, starts_with,
    starts_with_of, trim_start_str, trim_start_str_of, push_dec,
};
use crate::audio::AudioSettings;

verus! {

broadcast use vstd::string::group_string_axioms;

/// A monitor port of another client, as a `pw-link --output` line.
pub open spec fn is_monitor_line(line: Seq<char>) -> bool {
    contains(line, "monitor_"@) && !contains(line, "pro_audio_config"@)
}

/// The monitor ports listed, trimmed, in order.
pub open spec fn monitor_ports(ls: Seq<Seq<char>>) -> Seq<Seq<char>>
    decreases ls.len(),
{
    if ls.len() == 0 {
        Seq::empty()
    } else {
        let prev = monitor_ports(ls.drop_last());
        if is_monitor_line(ls.last()) {
            prev.push(trim(ls.last()))
        } else {
            prev
        }
    }
}

/// The position of the last `c` in `s`.
pub open spec fn last_index(s: Seq<char>, c: char) -> Option<int>
    decreases s.len(),
{
    if s.len() == 0 {
        None
    } else if s.last() == c {
        Some(s.len() - 1)
    } else {
        last_index(s.drop_last(), c)
    }
}

/// The device of a port: everything before its last colon.
pub open spec fn device_of(port: Seq<char>) -> Option<Seq<char>> {
    match last_index(port, ':') {
        Some(i) => Some(port.take(i)),
        None => None,
    }
}

/// The devices of the ports, each once, in the order they first appear.
pub open spec fn device_list(ports: Seq<Seq<char>>) -> Seq<Seq<char>>
    decreases ports.len(),
{
    if ports.len() == 0 {
        Seq::empty()
    } else {
        let prev = device_list(ports.drop_last());
        match device_of(ports.last()) {
            Some(d) => if prev.contains(d) {
                prev
            } else {
                prev.push(d)
            },
            None => prev,
        }
    }
}

/// The ports of a device, in order.
pub open spec fn ports_of(ports: Seq<Seq<char>>, d: Seq<char>) -> Seq<Seq<char>>
    decreases ports.len(),
{
    if ports.len() == 0 {
        Seq::empty()
    } else {
        let prev = ports_of(ports.drop_last(), d);
        if device_of(ports.last()) == Some(d) {
            prev.push(ports.last())
        } else {
            prev
        }
    }
}

/// The first device whose name contains the active sink.
pub open spec fn first_containing(ds: Seq<Seq<char>>, active: Seq<char>) -> Option<Seq<char>>
    decreases ds.len(),
{
    if ds.len() == 0 {
        None
    } else if contains(ds[0], active) {
        Some(ds[0])
    } else {
        first_containing(ds.drop_first(), active)
    }
}

/// The index of the first device with the most ports among the first `n`.
pub open spec fn busiest(ports: Seq<Seq<char>>, ds: Seq<Seq<char>>, n: nat) -> nat
    decreases n,
{
    if n <= 1 {
        0
    } else {
        let b = busiest(ports, ds, (n - 1) as nat);
        if ports_of(ports, ds[n - 1]).len() > ports_of(ports, ds[b as int]).len() {
            (n - 1) as nat
        } else {
            b
        }
    }
}

/// The device to monitor: where the active sink is known, the first device
/// that contains its name, or the first device; otherwise the first device
/// with the most ports.
pub open spec fn chosen_device(ports: Seq<Seq<char>>, active: Seq<char>) -> Option<Seq<char>> {
    let ds = device_list(ports);
    if ds.len() == 0 {
        None
    } else if active.len() > 0 {
        match first_containing(ds, active) {
            Some(d) => Some(d),
            None => Some(ds[0]),
        }
    } else {
        Some(ds[busiest(ports, ds, ds.len()) as int])
    }
}

/// The channel of a monitor port: everything after its last underscore.
pub open spec fn channel_of(port: Seq<char>) -> Option<Seq<char>> {
    match last_index(port, '_') {
        Some(i) => Some(port.skip(i + 1)),
        None => None,
    }
}

/// The links from the device's ports to this tool's inputs, one per port
/// that names a channel.
pub open spec fn channel_links(ps: Seq<Seq<char>>) -> Seq<(Seq<char>, Seq<char>)>
    decreases ps.len(),
{
    if ps.len() == 0 {
        Seq::empty()
    } else {
        let prev = channel_links(ps.drop_last());
        match channel_of(ps.last()) {
            Some(ch) => prev.push((ps.last(), "pro_audio_config:input_"@ + ch)),
            None => prev,
        }
    }
}

/// A listing with monitor ports none of which names a device cannot be
/// planned for.
pub open spec fn plannable(listing: Seq<char>) -> bool {
    let ports = monitor_ports(lines(listing));
    ports.len() == 0 || device_list(ports).len() > 0
}

/// The connections to make for the `pw-link --output` listing and the
/// active sink (empty where unknown): the chosen device with its links.
pub open spec fn monitor_plan(listing: Seq<char>, active: Seq<char>) -> Result<(Seq<char>, Seq<(Seq<char>, Seq<char>)>), Seq<char>> {
    let ports = monitor_ports(lines(listing));
    if ports.len() == 0 {
        Err("No monitor ports found. Make sure audio is playing or an output device is active."@)
    } else {
        let d = chosen_device(ports, active)->0;
        Ok((d, channel_links(ports_of(ports, d))))
    }
}

fn monitor_ports_of(text: &Vec<char>) -> (ports: Vec<Vec<char>>)
    ensures
        deep(ports@) == monitor_ports(lines(text@)),
{
    let ls = lines_of(text);
    let ghost all = deep(ls@);
    let mut ports: Vec<Vec<char>> = Vec::new();
    let mut i: usize = 0;
    proof {
        assert(all.take(0) =~= Seq::<Seq<char>>::empty());
    }
    while i < ls.len()
        invariant
            all == deep(ls@),
            i <= ls.len(),
            deep(ports@) == monitor_ports(all.take(i as int)),
        decreases ls.len() - i,
    {
        proof {
            assert(all.take(i + 1).drop_last() =~= all.take(i as int));
            assert(all.take(i + 1).last() == ls@[i as int]@);
        }
        let line = &ls[i];
        if contains_lit(line, "monitor_") && !contains_lit(line, "pro_audio_config") {
            let ghost before = deep(ports@);
            let t = trim_of(line);
            ports.push(t);
            proof {
                assert(deep(ports@) =~= before.push(trim(line@)));
            }
        }
        i += 1;
    }
    proof {
        assert(all.take(ls.len() as int) =~= all);
    }
    ports
}

fn last_index_of(s: &Vec<char>, c: char) -> (r: Option<usize>)
    ensures
        match r {
            Some(i) => last_index(s@, c) == Some(i as int) && i < s.len(),
            None => last_index(s@, c) is None,
        },
{
    let mut j: usize = s.len();
    proof {
        assert(s@.take(j as int) =~= s@);
    }
    while j > 0
        invariant
            j <= s.len(),
            last_index(s@, c) == last_index(s@.take(j as int), c),
        decreases j,
    {
        if s[j - 1] == c {
            return Some(j - 1);
        }
        proof {
            assert(s@.take(j as int).drop_last() =~= s@.take(j - 1));
        }
        j -= 1;
    }
    None
}

fn device_of_port(port: &Vec<char>) -> (d: Option<Vec<char>>)
    ensures
        match d {
            Some(v) => device_of(port@) == Some(v@),
            None => device_of(port@) is None,
        },
{
    match last_index_of(port, ':') {
        Some(i) => {
            let v = subvec(port, 0, i);
            proof {
                assert(v@ =~= port@.take(i as int));
            }
            Some(v)
        },
        None => None,
    }
}

fn eq_vec(a: &Vec<char>, b: &Vec<char>) -> (r: bool)
    ensures
        r == (a@ == b@),
{
    crate::text::eq_chars(a, b)
}

fn holds(list: &Vec<Vec<char>>, d: &Vec<char>) -> (r: bool)
    ensures
        r == deep(list@).contains(d@),
{
    let mut i: usize = 0;
    while i < list.len()
        invariant
            i <= list.len(),
            forall|k: int| 0 <= k < i ==> deep(list@)[k] != d@,
        decreases list.len() - i,
    {
        if eq_vec(&list[i], d) {
            assert(deep(list@)[i as int] == d@);
            return true;
        }
        i += 1;
    }
    false
}

fn device_list_of(ports: &Vec<Vec<char>>) -> (ds: Vec<Vec<char>>)
    ensures
        deep(ds@) == device_list(deep(ports@)),
{
    let ghost all = deep(ports@);
    let mut ds: Vec<Vec<char>> = Vec::new();
    let mut i: usize = 0;
    proof {
        assert(all.take(0) =~= Seq::<Seq<char>>::empty());
    }
    while i < ports.len()
        invariant
            all == deep(ports@),
            i <= ports.len(),
            deep(ds@) == device_list(all.take(i as int)),
        decreases ports.len() - i,
    {
        proof {
            assert(all.take(i + 1).drop_last() =~= all.take(i as int));
            assert(all.take(i + 1).last() == ports@[i as int]@);
        }
        if let Some(d) = device_of_port(&ports[i]) {
            if !holds(&ds, &d) {
                let ghost before = deep(ds@);
                let ghost dv = d@;
                ds.push(d);
                proof {
                    assert(deep(ds@) =~= before.push(dv));
                }
            }
        }
        i += 1;
    }
    proof {
        assert(all.take(ports.len() as int) =~= all);
    }
    ds
}

fn ports_of_device(ports: &Vec<Vec<char>>, d: &Vec<char>) -> (ps: Vec<Vec<char>>)
    ensures
        deep(ps@) == ports_of(deep(ports@), d@),
{
    let ghost all = deep(ports@);
    let mut ps: Vec<Vec<char>> = Vec::new();
    let mut i: usize = 0;
    proof {
        assert(all.take(0) =~= Seq::<Seq<char>>::empty());
    }
    while i < ports.len()
        invariant
            all == deep(ports@),
            i <= ports.len(),
            deep(ps@) == ports_of(all.take(i as int), d@),
        decreases ports.len() - i,
    {
        proof {
            assert(all.take(i + 1).drop_last() =~= all.take(i as int));
            assert(all.take(i + 1).last() == ports@[i as int]@);
        }
        let same = match device_of_port(&ports[i]) {
            Some(x) => eq_vec(&x, d),
            None => false,
        };
        if same {
            let ghost before = deep(ps@);
            let p = crate::text::copy_of(&ports[i]);
            ps.push(p);
            proof {
                assert(deep(ps@) =~= before.push(ports@[i as int]@));
            }
        }
        i += 1;
    }
    proof {
        assert(all.take(ports.len() as int) =~= all);
    }
    ps
}

fn first_containing_of(ds: &Vec<Vec<char>>, active: &Vec<char>) -> (r: Option<usize>)
    ensures
        match r {
            Some(i) => i < ds.len() && first_containing(deep(ds@), active@) == Some(deep(ds@)[i as int]),
            None => first_containing(deep(ds@), active@) is None,
        },
{
    let ghost all = deep(ds@);
    let mut i: usize = 0;
    proof {
        assert(all.skip(0) =~= all);
    }
    while i < ds.len()
        invariant
            all == deep(ds@),
            i <= ds.len(),
            first_containing(all, active@) == first_containing(all.skip(i as int), active@),
        decreases ds.len() - i,
    {
        proof {
            assert(all.skip(i as int)[0] == ds@[i as int]@);
            assert(all.skip(i as int).drop_first() =~= all.skip(i + 1));
        }
        if contains_of(&ds[i], active) {
            return Some(i);
        }
        i += 1;
    }
    proof {
        assert(all.skip(i as int) =~= Seq::<Seq<char>>::empty());
    }
    None
}

fn busiest_of(ports: &Vec<Vec<char>>, ds: &Vec<Vec<char>>) -> (b: usize)
    requires
        ds.len() > 0,
    ensures
        b == busiest(deep(ports@), deep(ds@), ds.len() as nat),
        b < ds.len(),
{
    let ghost pv = deep(ports@);
    let ghost dv = deep(ds@);
    let mut b: usize = 0;
    let mut best = ports_of_device(ports, &ds[0]).len();
    let mut n: usize = 1;
    while n < ds.len()
        invariant
            pv == deep(ports@),
            dv == deep(ds@),
            1 <= n <= ds.len(),
            b < n,
            b as nat == busiest(pv, dv, n as nat),
            best == ports_of(pv, dv[b as int]).len(),
        decreases ds.len() - n,
    {
        let count = ports_of_device(ports, &ds[n]).len();
        proof {
            assert(dv[n as int] == ds@[n as int]@);
        }
        if count > best {
            b = n;
            best = count;
        }
        n += 1;
    }
    b
}

/// A plan for connecting the monitor: the device and the port pairs.
pub struct MonitorPlan {
    pub device: String,
    pub links: Vec<(String, String)>,
}

pub open spec fn links_view(v: Seq<(String, String)>) -> Seq<(Seq<char>, Seq<char>)> {
    v.map_values(|l: (String, String)| (l.0@, l.1@))
}

fn channel_links_of(ps: &Vec<Vec<char>>) -> (v: Vec<(String, String)>)
    ensures
        links_view(v@) == channel_links(deep(ps@)),
{
    let ghost all = deep(ps@);
    let mut v: Vec<(String, String)> = Vec::new();
    let mut i: usize = 0;
    proof {
        assert(all.take(0) =~= Seq::<Seq<char>>::empty());
    }
    while i < ps.len()
        invariant
            all == deep(ps@),
            i <= ps.len(),
            links_view(v@) == channel_links(all.take(i as int)),
        decreases ps.len() - i,
    {
        proof {
            assert(all.take(i + 1).drop_last() =~= all.take(i as int));
            assert(all.take(i + 1).last() == ps@[i as int]@);
        }
        let port = &ps[i];
        if let Some(k) = last_index_of(port, '_') {
            let ch = subvec(port, k + 1, port.len());
            proof {
                assert(ch@ =~= port@.skip(k + 1));
            }
            let mut target = chars_of("pro_audio_config:input_");
            push_chars(&mut target, &ch);
            let ghost before = links_view(v@);
            let pair = (string_of(port), string_of(&target));
            v.push(pair);
            proof {
                assert(links_view(v@) =~= before.push((port@, "pro_audio_config:input_"@ + ch@)));
            }
        }
        i += 1;
    }
    proof {
        assert(all.take(ps.len() as int) =~= all);
    }
    v
}

/// Whether a `pw-link --output` listing can be planned for (see
/// [`plannable`]).
pub fn monitor_listing_plannable(listing: &[u8]) -> (b: bool)
    ensures
        b == plannable(lossy_utf8(listing@)),
{
    let text = utf8_lossy_of(listing);
    let ports = monitor_ports_of(&chars_of(text.as_str()));
    ports.len() == 0 || device_list_of(&ports).len() > 0
}

pub open spec fn plan_view(r: Result<MonitorPlan, String>) -> Result<(Seq<char>, Seq<(Seq<char>, Seq<char>)>), Seq<char>> {
    match r {
        Ok(p) => Ok((p.device@, links_view(p.links@))),
        Err(e) => Err(e@),
    }
}

/// Plans the monitor connections from the `pw-link --output` listing and
/// the active sink (empty where unknown).
pub fn plan_monitor_links(listing: &[u8], active_sink: &str) -> (r: Result<MonitorPlan, String>)
    requires
        plannable(lossy_utf8(listing@)),
    ensures
        plan_view(r) == monitor_plan(lossy_utf8(listing@), active_sink@),
{
    let text = utf8_lossy_of(listing);
    let ports = monitor_ports_of(&chars_of(text.as_str()));
    if ports.len() == 0 {
        return Err(
            "No monitor ports found. Make sure audio is playing or an output device is active.".to_string(),
        );
    }
    let ghost pv = deep(ports@);
    let ds = device_list_of(&ports);
    let active = chars_of(active_sink);
    let index: usize = if active.len() > 0 {
        match first_containing_of(&ds, &active) {
            Some(i) => i,
            None => 0,
        }
    } else {
        busiest_of(&ports, &ds)
    };
    proof {
        assert(deep(ds@)[index as int] == ds@[index as int]@);
        assert(chosen_device(pv, active_sink@) == Some(ds@[index as int]@));
    }
    let device = &ds[index];
    let mine = ports_of_device(&ports, device);
    let links = channel_links_of(&mine);
    Ok(MonitorPlan { device: string_of(device), links })
}

/// Plans the monitor connections where the listing can be planned for;
/// `None` for a listing with monitor ports none of which names a device.
pub fn try_plan_monitor_links(listing: &[u8], active_sink: &str) -> (r: Option<Result<MonitorPlan, String>>)
    ensures
        match r {
            Some(p) => plannable(lossy_utf8(listing@)) && plan_view(p) == monitor_plan(
                lossy_utf8(listing@),
                active_sink@,
            ),
            None => !plannable(lossy_utf8(listing@)),
        },
{
    if monitor_listing_plannable(listing) {
        Some(plan_monitor_links(listing, active_sink))
    } else {
        None
    }
}

/// The result of the connection attempts.
pub open spec fn connect_outcome(connected: nat) -> Result<(), Seq<char>> {
    if connected > 0 {
        Ok(())
    } else {
        Err("Failed to connect any audio channels"@)
    }
}

pub fn monitor_connect_result(connected: usize) -> (r: Result<(), String>)
    ensures
        crate::apply::outcome(r) == connect_outcome(connected as nat),
{
    if connected > 0 {
        Ok(())
    } else {
        Err("Failed to connect any audio channels".to_string())
    }
}

/// The default sink named by `pactl info`: the first line that mentions
/// `Default Sink:`, without that label, trimmed; empty where there is none.
pub open spec fn default_sink_in(ls: Seq<Seq<char>>) -> Seq<char>
    decreases ls.len(),
{
    if ls.len() == 0 {
        Seq::empty()
    } else if contains(ls[0], "Default Sink:"@) {
        trim(replace(ls[0], "Default Sink:"@, Seq::empty()))
    } else {
        default_sink_in(ls.drop_first())
    }
}

pub fn active_sink_name(pactl_info: &[u8]) -> (s: String)
    ensures
        s@ == default_sink_in(lines(lossy_utf8(pactl_info@))),
{
    let text = utf8_lossy_of(pactl_info);
    let ls = lines_of(&chars_of(text.as_str()));
    let ghost all = deep(ls@);
    let key = chars_of("Default Sink:");
    proof {
        reveal_strlit("Default Sink:");
    }
    let mut i: usize = 0;
    proof {
        assert(all.skip(0) =~= all);
    }
    while i < ls.len()
        invariant
            all == deep(ls@),
            all == lines(lossy_utf8(pactl_info@)),
            key@ == "Default Sink:"@,
            key@.len() > 0,
            i <= ls.len(),
            default_sink_in(all) == default_sink_in(all.skip(i as int)),
        decreases ls.len() - i,
    {
        proof {
            assert(all.skip(i as int)[0] == ls@[i as int]@);
            assert(all.skip(i as int).drop_first() =~= all.skip(i + 1));
        }
        if contains_of(&ls[i], &key) {
            let empty: Vec<char> = Vec::new();
            proof {
                assert(empty@ =~= Seq::<char>::empty());
            }
            let r = replace_of(&ls[i], &key, &empty);
            return string_of(&trim_of(&r));
        }
        i += 1;
    }
    proof {
        assert(all.skip(i as int) =~= Seq::<Seq<char>>::empty());
    }
    String::new()
}

/// This tool's input ports in a `pw-link --input` listing, trimmed.
pub open spec fn input_ports(ls: Seq<Seq<char>>) -> Seq<Seq<char>>
    decreases ls.len(),
{
    if ls.len() == 0 {
        Seq::empty()
    } else {
        let prev = input_ports(ls.drop_last());
        if contains(ls.last(), "pro_audio_config:input_"@) {
            prev.push(trim(ls.last()))
        } else {
            prev
        }
    }
}

/// The channel of a port for the manual connection: the part after the
/// last colon, without `monitor_`.
pub open spec fn simple_channel(port: Seq<char>) -> Option<Seq<char>> {
    match last_index(port, ':') {
        Some(i) => Some(replace(port.skip(i + 1), "monitor_"@, Seq::empty())),
        None => None,
    }
}

/// The manual connections: each monitor port whose channel has a matching
/// input of this tool, as (port, input, channel).
pub open spec fn manual_links(monitors: Seq<Seq<char>>, inputs: Seq<Seq<char>>) -> Seq<(Seq<char>, Seq<char>, Seq<char>)>
    decreases monitors.len(),
{
    if monitors.len() == 0 {
        Seq::empty()
    } else {
        let prev = manual_links(monitors.drop_last(), inputs);
        let p = monitors.last();
        match simple_channel(p) {
            Some(ch) => if inputs.contains("pro_audio_config:input_"@ + ch) {
                prev.push((p, "pro_audio_config:input_"@ + ch, ch))
            } else {
                prev
            },
            None => prev,
        }
    }
}

/// The manual plan for the `pw-link --output` and `pw-link --input`
/// listings (the error where the second could not be run; it is only
/// needed when there are monitor ports).
pub open spec fn manual_plan(
    outputs: Seq<char>,
    inputs: Result<Seq<char>, Seq<char>>,
) -> Result<Seq<(Seq<char>, Seq<char>, Seq<char>)>, Seq<char>> {
    let monitors = monitor_ports(lines(outputs));
    if monitors.len() == 0 {
        Err("No monitor ports found. Is audio playing?"@)
    } else {
        match inputs {
            Err(e) => Err("pw-link --input failed: "@ + e),
            Ok(i) => {
                let ins = input_ports(lines(i));
                if ins.len() == 0 {
                    Err("No pro_audio_config input ports found. Is the app running?"@)
                } else {
                    Ok(manual_links(monitors, ins))
                }
            },
        }
    }
}

fn input_ports_of(text: &Vec<char>) -> (ports: Vec<Vec<char>>)
    ensures
        deep(ports@) == input_ports(lines(text@)),
{
    let ls = lines_of(text);
    let ghost all = deep(ls@);
    let mut ports: Vec<Vec<char>> = Vec::new();
    let mut i: usize = 0;
    proof {
        assert(all.take(0) =~= Seq::<Seq<char>>::empty());
    }
    while i < ls.len()
        invariant
            all == deep(ls@),
            i <= ls.len(),
            deep(ports@) == input_ports(all.take(i as int)),
        decreases ls.len() - i,
    {
        proof {
            assert(all.take(i + 1).drop_last() =~= all.take(i as int));
            assert(all.take(i + 1).last() == ls@[i as int]@);
        }
        if contains_lit(&ls[i], "pro_audio_config:input_") {
            let ghost before = deep(ports@);
            let t = trim_of(&ls[i]);
            ports.push(t);
            proof {
                assert(deep(ports@) =~= before.push(trim(ls@[i as int]@)));
            }
        }
        i += 1;
    }
    proof {
        assert(all.take(ls.len() as int) =~= all);
    }
    ports
}

/// A manual connection: monitor port, input port and channel name.
pub struct ManualLink {
    pub port: String,
    pub target: String,
    pub channel: String,
}

pub open spec fn manual_view(v: Seq<ManualLink>) -> Seq<(Seq<char>, Seq<char>, Seq<char>)> {
    v.map_values(|l: ManualLink| (l.port@, l.target@, l.channel@))
}

pub open spec fn manual_result_view(r: Result<Vec<ManualLink>, String>) -> Result<Seq<(Seq<char>, Seq<char>, Seq<char>)>, Seq<char>> {
    match r {
        Ok(v) => Ok(manual_view(v@)),
        Err(e) => Err(e@),
    }
}

pub open spec fn listing_text(b: Result<Vec<u8>, String>) -> Result<Seq<char>, Seq<char>> {
    match b {
        Ok(x) => Ok(lossy_utf8(x@)),
        Err(e) => Err(e@),
    }
}

/// Plans the manual connections (see [`manual_plan`]).
pub fn plan_manual_links(outputs: &[u8], inputs: &Result<Vec<u8>, String>) -> (r: Result<Vec<ManualLink>, String>)
    ensures
        manual_result_view(r) == manual_plan(lossy_utf8(outputs@), listing_text(*inputs)),
{
    let out_text = utf8_lossy_of(outputs);
    let monitors = monitor_ports_of(&chars_of(out_text.as_str()));
    if monitors.len() == 0 {
        return Err("No monitor ports found. Is audio playing?".to_string());
    }
    let in_bytes = match inputs {
        Ok(b) => b,
        Err(e) => {
            let mut m = chars_of("pw-link --input failed: ");
            push_str(&mut m, e.as_str());
            return Err(string_of(&m));
        },
    };
    let in_text = utf8_lossy_of(in_bytes.as_slice());
    let ins = input_ports_of(&chars_of(in_text.as_str()));
    if ins.len() == 0 {
        return Err("No pro_audio_config input ports found. Is the app running?".to_string());
    }
    let ghost mv = deep(monitors@);
    let ghost iv = deep(ins@);
    let mut v: Vec<ManualLink> = Vec::new();
    let mut i: usize = 0;
    let prefix = chars_of("monitor_");
    proof {
        reveal_strlit("monitor_");
        assert(mv.take(0) =~= Seq::<Seq<char>>::empty());
    }
    while i < monitors.len()
        invariant
            mv == deep(monitors@),
            iv == deep(ins@),
            prefix@ == "monitor_"@,
            prefix@.len() > 0,
            i <= monitors.len(),
            manual_view(v@) == manual_links(mv.take(i as int), iv),
        decreases monitors.len() - i,
    {
        proof {
            assert(mv.take(i + 1).drop_last() =~= mv.take(i as int));
            assert(mv.take(i + 1).last() == monitors@[i as int]@);
        }
        let port = &monitors[i];
        if let Some(k) = last_index_of(port, ':') {
            let tail = subvec(port, k + 1, port.len());
            proof {
                assert(tail@ =~= port@.skip(k + 1));
            }
            let empty: Vec<char> = Vec::new();
            proof {
                assert(empty@ =~= Seq::<char>::empty());
            }
            let ch = replace_of(&tail, &prefix, &empty);
            let mut target = chars_of("pro_audio_config:input_");
            push_chars(&mut target, &ch);
            if holds(&ins, &target) {
                let ghost before = manual_view(v@);
                let link = ManualLink { port: string_of(port), target: string_of(&target), channel: string_of(&ch) };
                let ghost lv = (link.port@, link.target@, link.channel@);
                v.push(link);
                proof {
                    assert(manual_view(v@) =~= before.push(lv));
                }
            }
        }
        i += 1;
    }
    proof {
        assert(mv.take(monitors.len() as int) =~= mv);
    }
    Ok(v)
}

/// The result of the manual connection attempts: success where one link was
/// made; otherwise the failures, or that no channel matched.
pub open spec fn manual_outcome(connected: nat, failures: Seq<Seq<char>>) -> Result<(), Seq<char>> {
    if connected > 0 {
        Ok(())
    } else if failures.len() == 0 {
        Err("Failed to connect any channels: No matching channels found"@)
    } else {
        Err("Failed to connect any channels: "@ + join(failures, ", "@))
    }
}

pub fn manual_connect_result(connected: usize, failures: &Vec<String>) -> (r: Result<(), String>)
    ensures
        crate::apply::outcome(r) == manual_outcome(
            connected as nat,
            failures@.map_values(|f: String| f@),
        ),
{
    if connected > 0 {
        return Ok(());
    }
    if failures.len() == 0 {
        return Err("Failed to connect any channels: No matching channels found".to_string());
    }
    let mut parts: Vec<Vec<char>> = Vec::new();
    let mut i: usize = 0;
    while i < failures.len()
        invariant
            i <= failures.len(),
            deep(parts@) == failures@.take(i as int).map_values(|f: String| f@),
        decreases failures.len() - i,
    {
        let ghost before = deep(parts@);
        parts.push(chars_of(failures[i].as_str()));
        proof {
            assert(deep(parts@) =~= before.push(failures@[i as int]@));
            assert(failures@.take(i + 1).map_values(|f: String| f@) =~= failures@.take(i as int).map_values(
                |f: String| f@,
            ).push(failures@[i as int]@));
        }
        i += 1;
    }
    proof {
        assert(failures@.take(failures.len() as int) =~= failures@);
    }
    let mut m = chars_of("Failed to connect any channels: ");
    push_chars(&mut m, &join_of(&parts, &chars_of(", ")));
    Err(string_of(&m))
}

/// A message from the monitoring worker to the window.
pub enum MonitorNotice {
    /// A status line (or a button command, see [`status_action`]).
    Status(String),
    /// An error to show.
    Error(String),
}

impl View for MonitorNotice {
    type V = (bool, Seq<char>);

    /// Whether it is an error, and its text.
    open spec fn view(&self) -> (bool, Seq<char>) {
        match self {
            MonitorNotice::Status(t) => (false, t@),
            MonitorNotice::Error(t) => (true, t@),
        }
    }
}

pub open spec fn notices_view(v: Seq<MonitorNotice>) -> Seq<(bool, Seq<char>)> {
    v.map_values(|n: MonitorNotice| n@)
}

pub open spec fn opt_outcome(r: Option<Result<(), String>>) -> Option<Result<(), Seq<char>>> {
    match r {
        Some(x) => Some(crate::apply::outcome(x)),
        None => None,
    }
}

/// The messages of a manual reconnection: the direct connection first, the
/// manual one where that failed; the last failure is reported.
pub open spec fn reconnect_notices(
    direct: Result<(), Seq<char>>,
    manual: Option<Result<(), Seq<char>>>,
) -> Seq<(bool, Seq<char>)> {
    let ok = direct is Ok || manual matches Some(Ok(()));
    let message = match manual {
        Some(Err(e2)) => "Manual connection also failed: "@ + e2,
        _ => match direct {
            Err(e1) => "Direct connection failed: "@ + e1,
            Ok(()) => Seq::empty(),
        },
    };
    if ok {
        seq![(false, "✓ Manual reconnection successful"@), (false, "BUTTON_RESET"@)]
    } else {
        seq![
            (true, "Manual reconnection failed: "@ + message),
            (false, "BUTTON_RESET_ERROR:"@ + message),
        ]
    }
}

pub fn reconnect_messages(
    direct: &Result<(), String>,
    manual: &Option<Result<(), String>>,
) -> (v: Vec<MonitorNotice>)
    ensures
        notices_view(v@) == reconnect_notices(crate::apply::outcome(*direct), opt_outcome(*manual)),
{
    let ok = direct.is_ok() || match manual {
        Some(Ok(())) => true,
        _ => false,
    };
    let mut v: Vec<MonitorNotice> = Vec::new();
    if ok {
        v.push(MonitorNotice::Status("✓ Manual reconnection successful".to_string()));
        v.push(MonitorNotice::Status("BUTTON_RESET".to_string()));
    } else {
        let mut message: Vec<char> = Vec::new();
        match manual {
            Some(Err(e2)) => {
                push_str(&mut message, "Manual connection also failed: ");
                push_str(&mut message, e2.as_str());
            },
            _ => match direct {
                Err(e1) => {
                    push_str(&mut message, "Direct connection failed: ");
                    push_str(&mut message, e1.as_str());
                },
                Ok(()) => {},
            },
        }
        let mut a = chars_of("Manual reconnection failed: ");
        push_chars(&mut a, &message);
        let mut b = chars_of("BUTTON_RESET_ERROR:");
        push_chars(&mut b, &message);
        v.push(MonitorNotice::Error(string_of(&a)));
        v.push(MonitorNotice::Status(string_of(&b)));
    }
    proof {
        assert(notices_view(v@) =~= reconnect_notices(
            crate::apply::outcome(*direct),
            opt_outcome(*manual),
        ));
    }
    v
}

/// What the window does with a status message.
pub enum StatusAction {
    /// Re-enable the reconnect button; show an error dialog with this text
    /// where there is one.
    ResetButton(Option<String>),
    /// Show the text on the status line.
    Show(String),
}

pub enum StatusActionView {
    ResetButton(Option<Seq<char>>),
    Show(Seq<char>),
}

impl View for StatusAction {
    type V = StatusActionView;

    open spec fn view(&self) -> StatusActionView {
        match self {
            StatusAction::ResetButton(Some(t)) => StatusActionView::ResetButton(Some(t@)),
            StatusAction::ResetButton(None) => StatusActionView::ResetButton(None),
            StatusAction::Show(t) => StatusActionView::Show(t@),
        }
    }
}

/// Messages that start with `BUTTON_RESET` reset the reconnect button; with
/// `BUTTON_RESET_ERROR:` they also carry the error for a dialog. Any other
/// message is a status line.
pub open spec fn status_action(text: Seq<char>) -> StatusActionView {
    if starts_with(text, "BUTTON_RESET"@) {
        if starts_with(text, "BUTTON_RESET_ERROR:"@) {
            StatusActionView::ResetButton(
                Some(
                    "Failed to reconnect to PipeWire:\n\n"@ + trim_start_str(
                        text,
                        "BUTTON_RESET_ERROR:"@,
                    ),
                ),
            )
        } else {
            StatusActionView::ResetButton(None)
        }
    } else {
        StatusActionView::Show(text)
    }
}

pub fn status_message_action(text: &str) -> (a: StatusAction)
    ensures
        a@ == status_action(text@),
{
    let t = chars_of(text);
    if !starts_with_of(&t, &chars_of("BUTTON_RESET")) {
        return StatusAction::Show(text.to_string());
    }
    if starts_with_of(&t, &chars_of("BUTTON_RESET_ERROR:")) {
        let rest = trim_start_str_of(&t, &chars_of("BUTTON_RESET_ERROR:"));
        let mut m = chars_of("Failed to reconnect to PipeWire:\n\n");
        push_chars(&mut m, &rest);
        StatusAction::ResetButton(Some(string_of(&m)))
    } else {
        StatusAction::ResetButton(None)
    }
}

/// The monitoring status line: the mode with a dot that is filled on every
/// fourth update.
pub open spec fn blink_text(mode: Seq<char>, iteration: u64) -> Seq<char> {
    if iteration % 4 == 0 {
        mode + " ●"@
    } else {
        mode + " ○"@
    }
}

pub fn status_blink(mode: &str, iteration: u64) -> (t: String)
    ensures
        t@ == blink_text(mode@, iteration),
{
    let mut out = chars_of(mode);
    if iteration % 4 == 0 {
        push_str(&mut out, " ●");
    } else {
        push_str(&mut out, " ○");
    }
    string_of(&out)
}

/// The detected device, or the error of its detection.
pub open spec fn detection_text(r: Result<Seq<char>, Seq<char>>, kind: Seq<char>) -> Seq<char> {
    match r {
        Ok(d) => d,
        Err(e) => "Error detecting "@ + kind + " device: "@ + e,
    }
}

pub open spec fn text_result(r: Result<String, String>) -> Result<Seq<char>, Seq<char>> {
    match r {
        Ok(s) => Ok(s@),
        Err(e) => Err(e@),
    }
}

/// The device lines of the monitoring tab.
pub open spec fn devices_text(output: Result<Seq<char>, Seq<char>>, input: Result<Seq<char>, Seq<char>>) -> Seq<char> {
    "Output: "@ + detection_text(output, "output"@) + "\nInput: "@ + detection_text(input, "input"@)
}

fn push_detection(out: &mut Vec<char>, r: &Result<String, String>, kind: &str)
    ensures
        final(out)@ == old(out)@ + detection_text(text_result(*r), kind@),
{
    match r {
        Ok(d) => push_str(out, d.as_str()),
        Err(e) => {
            push_str(out, "Error detecting ");
            push_str(out, kind);
            push_str(out, " device: ");
            push_str(out, e.as_str());
        },
    }
}

pub fn device_info_text(output: &Result<String, String>, input: &Result<String, String>) -> (t: String)
    ensures
        t@ == devices_text(text_result(*output), text_result(*input)),
{
    let mut out = chars_of("Output: ");
    push_detection(&mut out, output, "output");
    push_str(&mut out, "\nInput: ");
    push_detection(&mut out, input, "input");
    string_of(&out)
}

/// The active configuration line of the monitoring tab.
pub open spec fn active_config_text(s: AudioSettings) -> Seq<char> {
    "Active Configuration: "@ + crate::text::dec(s.sample_rate as nat) + "Hz, "@
        + crate::text::dec(s.bit_depth as nat) + "bit, "@ + crate::text::dec(s.buffer_size as nat)
        + " samples"@
}

pub fn active_configuration_text(settings: &AudioSettings) -> (t: String)
    ensures
        t@ == active_config_text(*settings),
{
    let mut out = chars_of("Active Configuration: ");
    push_dec(&mut out, settings.sample_rate as u64);
    push_str(&mut out, "Hz, ");
    push_dec(&mut out, settings.bit_depth as u64);
    push_str(&mut out, "bit, ");
    push_dec(&mut out, settings.buffer_size as u64);
    push_str(&mut out, " samples");
    string_of(&out)
}

} // verus!
