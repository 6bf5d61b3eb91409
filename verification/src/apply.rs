//! The decisions taken while applying audio settings: which WirePlumber
//! configuration style applies, the order of the fallbacks, the commands
//! that restart the services, and the readings that confirm the result.

use vstd::prelude::*;
use crate::audio::AudioSettings;
use crate::config::{bool_text, number_in_line, extract_number_from_line, push_bool};
use crate::text::{
    Strip, chars_of, contains, contains_of, deep, dec, join, join_of, lines, lines_of,
    lossy_utf8, numeric, is_numeric_char, parse_u32, parse_u32_of, push_chars, push_dec, push_str, split_by, split_of,
    split_whitespace, split_whitespace_of, starts_with, string_of, trim, trim_end_by, trim_end_of,
    trim_of, trim_start_by, trim_start_of, utf8_lossy_of,
};

verus! {

broadcast use vstd::string::group_string_axioms;

/// A line of `wireplumber --version` that may carry the version.
pub open spec fn names_wireplumber(line: Seq<char>) -> bool {
    contains(line, "WirePlumber"@) || contains(line, "wireplumber"@) || contains(line, "version"@)
}

/// Some character of `s` is numeric.
pub open spec fn has_numeric(s: Seq<char>) -> bool {
    exists|i: int| 0 <= i < s.len() && numeric(#[trigger] s[i])
}

/// The version that a word of `wireplumber --version` gives: the word trimmed
/// of everything but numeric characters and dots, if it then holds a numeric
/// character and a dot; its first two dot-separated fields.
pub open spec fn version_token(part: Seq<char>) -> Option<Seq<char>> {
    let v = trim_end_by(trim_start_by(part, Strip::NonVersion), Strip::NonVersion);
    let ps = split_by(v, Strip::Ch('.'));
    if has_numeric(v) && contains(v, seq!['.']) {
        if ps.len() >= 2 {
            Some(ps[0] + "."@ + ps[1])
        } else {
            Some(v)
        }
    } else {
        None
    }
}

/// The version that a word of a package manager's listing gives: a word
/// that starts with a numeric character and holds a dot; its first two
/// dot-separated fields.
pub open spec fn package_token(word: Seq<char>) -> Option<Seq<char>> {
    let ps = split_by(word, Strip::Ch('.'));
    if word.len() > 0 && numeric(word[0]) && contains(word, seq!['.']) && ps.len() >= 2 {
        Some(ps[0] + "."@ + ps[1])
    } else {
        None
    }
}

/// The first version that the words give (`package` selects the reading of
/// a package listing).
pub open spec fn first_token(words: Seq<Seq<char>>, package: bool) -> Option<Seq<char>>
    decreases words.len(),
{
    if words.len() == 0 {
        None
    } else {
        let t = if package {
            package_token(words[0])
        } else {
            version_token(words[0])
        };
        if t is Some {
            t
        } else {
            first_token(words.drop_first(), package)
        }
    }
}

/// The version in the lines of `wireplumber --version` (`package` false) or
/// of a package listing (`package` true): the first line that gives one.
pub open spec fn version_in_lines(ls: Seq<Seq<char>>, package: bool) -> Option<Seq<char>>
    decreases ls.len(),
{
    if ls.len() == 0 {
        None
    } else {
        let t = first_token(split_whitespace(ls[0]), package);
        if (package || names_wireplumber(ls[0])) && t is Some {
            t
        } else {
            version_in_lines(ls.drop_first(), package)
        }
    }
}

/// The version in the first of the package listings that gives one.
pub open spec fn version_in_listings(outs: Seq<Option<Seq<u8>>>) -> Option<Seq<char>>
    decreases outs.len(),
{
    if outs.len() == 0 {
        None
    } else {
        let t = match outs[0] {
            Some(b) => version_in_lines(lines(lossy_utf8(b)), true),
            None => None,
        };
        if t is Some {
            t
        } else {
            version_in_listings(outs.drop_first())
        }
    }
}

/// The WirePlumber version from the output of `wireplumber --version`
/// (`None` where it could not run), the outputs of the package managers
/// that succeeded, and whether the binary was found at all: the binary
/// without a readable version counts as 0.5.
pub open spec fn wireplumber_version(
    version_out: Option<Seq<u8>>,
    listings: Seq<Option<Seq<u8>>>,
    binary_found: bool,
) -> Result<Seq<char>, Seq<char>> {
    let first = match version_out {
        Some(b) => version_in_lines(lines(lossy_utf8(b)), false),
        None => None,
    };
    if first is Some {
        Ok(first->0)
    } else if version_in_listings(listings) is Some {
        Ok(version_in_listings(listings)->0)
    } else if binary_found {
        Ok("0.5"@)
    } else {
        Err("Could not detect WirePlumber version - WirePlumber may not be installed"@)
    }
}

fn version_token_of(part: &Vec<char>) -> (t: Option<Vec<char>>)
    ensures
        match t {
            Some(v) => version_token(part@) == Some(v@),
            None => version_token(part@) is None,
        },
{
    let v = trim_end_of(&trim_start_of(part, Strip::NonVersion), Strip::NonVersion);
    let mut numeric_seen = false;
    let mut i: usize = 0;
    while i < v.len()
        invariant
            i <= v.len(),
            numeric_seen <==> exists|j: int| 0 <= j < i && numeric(#[trigger] v@[j]),
        decreases v.len() - i,
    {
        if is_numeric_char(v[i]) {
            numeric_seen = true;
        }
        i += 1;
    }
    let dot = vec!['.'];
    proof {
        assert(dot@ =~= seq!['.']);
    }
    if numeric_seen && contains_of(&v, &dot) {
        let ps = split_of(&v, Strip::Ch('.'));
        if ps.len() >= 2 {
            let mut out: Vec<char> = Vec::new();
            push_chars(&mut out, &ps[0]);
            push_str(&mut out, ".");
            push_chars(&mut out, &ps[1]);
            proof {
                assert(deep(ps@)[0] == ps@[0]@);
                assert(deep(ps@)[1] == ps@[1]@);
            }
            Some(out)
        } else {
            Some(v)
        }
    } else {
        None
    }
}

fn package_token_of(word: &Vec<char>) -> (t: Option<Vec<char>>)
    ensures
        match t {
            Some(v) => package_token(word@) == Some(v@),
            None => package_token(word@) is None,
        },
{
    let dot = vec!['.'];
    proof {
        assert(dot@ =~= seq!['.']);
    }
    if word.len() > 0 && is_numeric_char(word[0]) && contains_of(word, &dot) {
        let ps = split_of(word, Strip::Ch('.'));
        if ps.len() >= 2 {
            let mut out: Vec<char> = Vec::new();
            push_chars(&mut out, &ps[0]);
            push_str(&mut out, ".");
            push_chars(&mut out, &ps[1]);
            proof {
                assert(deep(ps@)[0] == ps@[0]@);
                assert(deep(ps@)[1] == ps@[1]@);
            }
            return Some(out);
        }
    }
    None
}

fn first_token_of(words: &Vec<Vec<char>>, package: bool) -> (t: Option<Vec<char>>)
    ensures
        match t {
            Some(v) => first_token(deep(words@), package) == Some(v@),
            None => first_token(deep(words@), package) is None,
        },
{
    let ghost all = deep(words@);
    let mut i: usize = 0;
    proof {
        assert(all.skip(0) =~= all);
    }
    while i < words.len()
        invariant
            all == deep(words@),
            i <= words.len(),
            first_token(all, package) == first_token(all.skip(i as int), package),
        decreases words.len() - i,
    {
        proof {
            assert(all.skip(i as int)[0] == words@[i as int]@);
            assert(all.skip(i as int).drop_first() =~= all.skip(i + 1));
        }
        let t = if package {
            package_token_of(&words[i])
        } else {
            version_token_of(&words[i])
        };
        if t.is_some() {
            return t;
        }
        i += 1;
    }
    proof {
        assert(all.skip(i as int) =~= Seq::<Seq<char>>::empty());
    }
    None
}

fn version_in_lines_of(text: &Vec<char>, package: bool) -> (t: Option<Vec<char>>)
    ensures
        match t {
            Some(v) => version_in_lines(lines(text@), package) == Some(v@),
            None => version_in_lines(lines(text@), package) is None,
        },
{
    let ls = lines_of(text);
    let ghost all = deep(ls@);
    let mut i: usize = 0;
    proof {
        assert(all.skip(0) =~= all);
    }
    while i < ls.len()
        invariant
            all == deep(ls@),
            all == lines(text@),
            i <= ls.len(),
            version_in_lines(all, package) == version_in_lines(all.skip(i as int), package),
        decreases ls.len() - i,
    {
        proof {
            assert(all.skip(i as int)[0] == ls@[i as int]@);
            assert(all.skip(i as int).drop_first() =~= all.skip(i + 1));
        }
        let line = &ls[i];
        let named = package || contains_of(line, &chars_of("WirePlumber")) || contains_of(
            line,
            &chars_of("wireplumber"),
        ) || contains_of(line, &chars_of("version"));
        if named {
            let words = split_whitespace_of(line);
            let t = first_token_of(&words, package);
            if t.is_some() {
                return t;
            }
        }
        i += 1;
    }
    proof {
        assert(all.skip(i as int) =~= Seq::<Seq<char>>::empty());
    }
    None
}

pub open spec fn opt_bytes_vec(o: Option<Vec<u8>>) -> Option<Seq<u8>> {
    match o {
        Some(b) => Some(b@),
        None => None,
    }
}

/// The version of WirePlumber from what the probes printed: the output of
/// `wireplumber --version` (`None` where it could not run), the outputs of
/// the package queries that succeeded (`None` for the others), and whether
/// the binary was found on the path or at a usual location.
pub fn wireplumber_version_from(
    version_out: Option<&[u8]>,
    listings: &Vec<Option<Vec<u8>>>,
    binary_found: bool,
) -> (r: Result<String, String>)
    ensures
        match r {
            Ok(v) => wireplumber_version(
                crate::audio::opt_bytes(version_out),
                listings@.map_values(|o: Option<Vec<u8>>| opt_bytes_vec(o)),
                binary_found,
            ) == Ok::<Seq<char>, Seq<char>>(v@),
            Err(e) => wireplumber_version(
                crate::audio::opt_bytes(version_out),
                listings@.map_values(|o: Option<Vec<u8>>| opt_bytes_vec(o)),
                binary_found,
            ) == Err::<Seq<char>, Seq<char>>(e@),
        },
{
    let ghost outs = listings@.map_values(|o: Option<Vec<u8>>| opt_bytes_vec(o));
    if let Some(b) = version_out {
        let text = utf8_lossy_of(b);
        let t = version_in_lines_of(&chars_of(text.as_str()), false);
        if let Some(v) = t {
            return Ok(string_of(&v));
        }
    }
    let mut i: usize = 0;
    proof {
        assert(outs.skip(0) =~= outs);
    }
    while i < listings.len()
        invariant
            outs == listings@.map_values(|o: Option<Vec<u8>>| opt_bytes_vec(o)),
            i <= listings.len(),
            (match crate::audio::opt_bytes(version_out) {
                Some(b) => version_in_lines(lines(lossy_utf8(b)), false),
                None => None,
            }) is None,
            version_in_listings(outs) == version_in_listings(outs.skip(i as int)),
        decreases listings.len() - i,
    {
        proof {
            assert(outs.skip(i as int)[0] == opt_bytes_vec(listings@[i as int]));
            assert(outs.skip(i as int).drop_first() =~= outs.skip(i + 1));
        }
        if let Some(b) = &listings[i] {
            let text = utf8_lossy_of(b.as_slice());
            let t = version_in_lines_of(&chars_of(text.as_str()), true);
            if let Some(v) = t {
                return Ok(string_of(&v));
            }
        }
        i += 1;
    }
    proof {
        assert(outs.skip(i as int) =~= Seq::<Option<Seq<u8>>>::empty());
    }
    if binary_found {
        Ok("0.5".to_string())
    } else {
        Err("Could not detect WirePlumber version - WirePlumber may not be installed".to_string())
    }
}

/// The major and minor numbers of a version text: its first two
/// dot-separated fields read as numbers (`None` where there are fewer than
/// two fields or one of them is not a number).
pub open spec fn version_numbers(v: Seq<char>) -> Option<(u32, u32)> {
    let ps = split_by(v, Strip::Ch('.'));
    if ps.len() >= 2 {
        match (parse_u32(ps[0]), parse_u32(ps[1])) {
            (Some(major), Some(minor)) => Some((major, minor)),
            _ => None,
        }
    } else {
        None
    }
}

/// The legacy Lua configuration is for WirePlumber before 0.5: a detected
/// version whose numbers come before 0.5 (major 0, minor below 5), so that
/// 0.4 is legacy while 0.5 and 0.10 are not. A version that could not be
/// detected or read counts as modern.
pub open spec fn uses_legacy(version: Result<Seq<char>, Seq<char>>) -> bool {
    match version {
        Ok(v) => match version_numbers(v) {
            Some((major, minor)) => major == 0 && minor < 5,
            None => false,
        },
        Err(_) => false,
    }
}

fn version_numbers_of(v: &String) -> (r: Option<(u32, u32)>)
    ensures
        r == version_numbers(v@),
{
    let ps = split_of(&chars_of(v.as_str()), Strip::Ch('.'));
    if ps.len() >= 2 {
        proof {
            assert(deep(ps@)[0] == ps@[0]@);
            assert(deep(ps@)[1] == ps@[1]@);
        }
        match (parse_u32_of(&ps[0]), parse_u32_of(&ps[1])) {
            (Some(major), Some(minor)) => Some((major, minor)),
            _ => None,
        }
    } else {
        None
    }
}

pub fn should_use_legacy_wireplumber_config(version: &Result<String, String>) -> (b: bool)
    ensures
        b == uses_legacy(
            match version {
                Ok(v) => Ok::<Seq<char>, Seq<char>>(v@),
                Err(e) => Err::<Seq<char>, Seq<char>>(e@),
            },
        ),
{
    match version {
        Ok(v) => match version_numbers_of(v) {
            Some((major, minor)) => major == 0 && minor < 5,
            None => false,
        },
        Err(_) => false,
    }
}

/// The value of an outcome, with the error as characters.
pub open spec fn outcome(r: Result<(), String>) -> Result<(), Seq<char>> {
    match r {
        Ok(()) => Ok(()),
        Err(e) => Err(e@),
    }
}

/// The next piece of outside work while settings are applied system-wide
/// with authentication, or the result.
pub enum AuthStep {
    /// Apply the settings system-wide through the configuration fragments.
    UpdateSystemWide,
    /// Find out whether WirePlumber predates 0.5.
    CheckLegacy,
    /// Write the legacy Lua rules for the stream type and restart the services.
    ApplyLegacy,
    /// Finished with this result.
    Done(Result<(), String>),
}

pub enum AuthStepView {
    UpdateSystemWide,
    CheckLegacy,
    ApplyLegacy,
    Done(Result<(), Seq<char>>),
}

impl View for AuthStep {
    type V = AuthStepView;

    open spec fn view(&self) -> AuthStepView {
        match self {
            AuthStep::UpdateSystemWide => AuthStepView::UpdateSystemWide,
            AuthStep::CheckLegacy => AuthStepView::CheckLegacy,
            AuthStep::ApplyLegacy => AuthStepView::ApplyLegacy,
            AuthStep::Done(r) => AuthStepView::Done(outcome(*r)),
        }
    }
}

/// What the outside work of an [`AuthStep`] reported.
pub enum AuthEvent {
    /// The system-wide update finished with this result.
    Updated(Result<(), String>),
    /// Whether the legacy configuration applies.
    LegacyChecked(bool),
    /// The legacy configuration was written (or not) with this result.
    LegacyApplied(Result<(), String>),
}

pub enum AuthEventView {
    Updated(Result<(), Seq<char>>),
    LegacyChecked(bool),
    LegacyApplied(Result<(), Seq<char>>),
}

impl View for AuthEvent {
    type V = AuthEventView;

    open spec fn view(&self) -> AuthEventView {
        match self {
            AuthEvent::Updated(r) => AuthEventView::Updated(outcome(*r)),
            AuthEvent::LegacyChecked(b) => AuthEventView::LegacyChecked(*b),
            AuthEvent::LegacyApplied(r) => AuthEventView::LegacyApplied(outcome(*r)),
        }
    }
}

pub open spec fn legacy_unavailable() -> Seq<char> {
    "Legacy WirePlumber configuration not applicable for current WirePlumber version"@
}

/// The authenticated apply: the system-wide update first; when it fails, the
/// legacy Lua rules where WirePlumber predates 0.5, and otherwise an error.
/// An event that does not answer the step leaves it as it is.
pub open spec fn auth_next(s: AuthStepView, e: AuthEventView) -> AuthStepView {
    match (s, e) {
        (AuthStepView::UpdateSystemWide, AuthEventView::Updated(Ok(()))) => AuthStepView::Done(Ok(())),
        (AuthStepView::UpdateSystemWide, AuthEventView::Updated(Err(_))) => AuthStepView::CheckLegacy,
        (AuthStepView::CheckLegacy, AuthEventView::LegacyChecked(true)) => AuthStepView::ApplyLegacy,
        (AuthStepView::CheckLegacy, AuthEventView::LegacyChecked(false)) => AuthStepView::Done(
            Err(legacy_unavailable()),
        ),
        (AuthStepView::ApplyLegacy, AuthEventView::LegacyApplied(r)) => AuthStepView::Done(r),
        _ => s,
    }
}

pub fn auth_next_step(step: &AuthStep, event: AuthEvent) -> (n: AuthStep)
    ensures
        n@ == auth_next(step@, event@),
{
    match (step, event) {
        (AuthStep::UpdateSystemWide, AuthEvent::Updated(Ok(()))) => AuthStep::Done(Ok(())),
        (AuthStep::UpdateSystemWide, AuthEvent::Updated(Err(_))) => AuthStep::CheckLegacy,
        (AuthStep::CheckLegacy, AuthEvent::LegacyChecked(true)) => AuthStep::ApplyLegacy,
        (AuthStep::CheckLegacy, AuthEvent::LegacyChecked(false)) => AuthStep::Done(
            Err(
                "Legacy WirePlumber configuration not applicable for current WirePlumber version".to_string(),
            ),
        ),
        (AuthStep::ApplyLegacy, AuthEvent::LegacyApplied(r)) => AuthStep::Done(r),
        (AuthStep::UpdateSystemWide, _) => AuthStep::UpdateSystemWide,
        (AuthStep::CheckLegacy, _) => AuthStep::CheckLegacy,
        (AuthStep::ApplyLegacy, _) => AuthStep::ApplyLegacy,
        (AuthStep::Done(Ok(())), _) => AuthStep::Done(Ok(())),
        (AuthStep::Done(Err(m)), _) => AuthStep::Done(Err(m.clone())),
    }
}

/// Settings being applied with authentication for one stream type.
pub struct AuthFlow {
    pub settings: AudioSettings,
    pub stream_type: String,
    pub step: AuthStep,
}

impl AuthFlow {
    /// Hands the flow the report of its current step.
    pub fn advance(&mut self, event: AuthEvent)
        ensures
            final(self).step@ == auth_next(old(self).step@, event@),
            final(self).settings == old(self).settings,
            final(self).stream_type == old(self).stream_type,
    {
        let n = auth_next_step(&self.step, event);
        self.step = n;
    }
}

/// Starts applying output settings with authentication.
pub fn apply_output_audio_settings_with_auth_blocking(settings: AudioSettings) -> (f: AuthFlow)
    ensures
        f.settings == settings,
        f.stream_type@ == "output"@,
        f.step@ == AuthStepView::UpdateSystemWide,
{
    AuthFlow { settings, stream_type: "output".to_string(), step: AuthStep::UpdateSystemWide }
}

/// Starts applying input settings with authentication.
pub fn apply_input_audio_settings_with_auth_blocking(settings: AudioSettings) -> (f: AuthFlow)
    ensures
        f.settings == settings,
        f.stream_type@ == "input"@,
        f.step@ == AuthStepView::UpdateSystemWide,
{
    AuthFlow { settings, stream_type: "input".to_string(), step: AuthStep::UpdateSystemWide }
}

/// The next piece of outside work while settings are written through the
/// configuration files, or the result.
pub enum UpdateStep {
    /// Remove the configurations of the other scope (user files for a
    /// system-wide update, system files otherwise).
    Cleanup,
    /// Write the high-priority PipeWire fragment.
    WriteFragment,
    /// Write the WirePlumber rules.
    WriteWirePlumber,
    /// Edit the main `pipewire.conf`.
    ModifyMainConfig,
    /// Restart the audio services.
    Restart,
    /// Read back the active settings and compare them.
    Verify,
    /// Finished with this result.
    Done(Result<(), String>),
}

pub enum UpdateStepView {
    Cleanup,
    WriteFragment,
    WriteWirePlumber,
    ModifyMainConfig,
    Restart,
    Verify,
    Done(Result<(), Seq<char>>),
}

impl View for UpdateStep {
    type V = UpdateStepView;

    open spec fn view(&self) -> UpdateStepView {
        match self {
            UpdateStep::Cleanup => UpdateStepView::Cleanup,
            UpdateStep::WriteFragment => UpdateStepView::WriteFragment,
            UpdateStep::WriteWirePlumber => UpdateStepView::WriteWirePlumber,
            UpdateStep::ModifyMainConfig => UpdateStepView::ModifyMainConfig,
            UpdateStep::Restart => UpdateStepView::Restart,
            UpdateStep::Verify => UpdateStepView::Verify,
            UpdateStep::Done(r) => UpdateStepView::Done(outcome(*r)),
        }
    }
}

/// The update tries the PipeWire fragment, then the WirePlumber rules, then
/// the main configuration; the first that succeeds is followed by a restart
/// and a verification. A failed cleanup, restart or verification ends the
/// update with its error; when the last fallback fails too, its error is
/// reported as the failure of all approaches.
pub open spec fn update_next(s: UpdateStepView, r: Result<(), Seq<char>>) -> UpdateStepView {
    match s {
        UpdateStepView::Cleanup => match r {
            Ok(()) => UpdateStepView::WriteFragment,
            Err(e) => UpdateStepView::Done(Err(e)),
        },
        UpdateStepView::WriteFragment => match r {
            Ok(()) => UpdateStepView::Restart,
            Err(_) => UpdateStepView::WriteWirePlumber,
        },
        UpdateStepView::WriteWirePlumber => match r {
            Ok(()) => UpdateStepView::Restart,
            Err(_) => UpdateStepView::ModifyMainConfig,
        },
        UpdateStepView::ModifyMainConfig => match r {
            Ok(()) => UpdateStepView::Restart,
            Err(e) => UpdateStepView::Done(Err("All configuration approaches failed: "@ + e)),
        },
        UpdateStepView::Restart => match r {
            Ok(()) => UpdateStepView::Verify,
            Err(e) => UpdateStepView::Done(Err(e)),
        },
        UpdateStepView::Verify => UpdateStepView::Done(r),
        UpdateStepView::Done(_) => s,
    }
}

fn copy_step_result(r: &Result<(), String>) -> (c: Result<(), String>)
    ensures
        outcome(c) == outcome(*r),
{
    match r {
        Ok(()) => Ok(()),
        Err(e) => Err(e.clone()),
    }
}

pub fn update_next_step(step: &UpdateStep, r: Result<(), String>) -> (n: UpdateStep)
    ensures
        n@ == update_next(step@, outcome(r)),
{
    match step {
        UpdateStep::Cleanup => match r {
            Ok(()) => UpdateStep::WriteFragment,
            Err(e) => UpdateStep::Done(Err(e)),
        },
        UpdateStep::WriteFragment => match r {
            Ok(()) => UpdateStep::Restart,
            Err(_) => UpdateStep::WriteWirePlumber,
        },
        UpdateStep::WriteWirePlumber => match r {
            Ok(()) => UpdateStep::Restart,
            Err(_) => UpdateStep::ModifyMainConfig,
        },
        UpdateStep::ModifyMainConfig => match r {
            Ok(()) => UpdateStep::Restart,
            Err(e) => {
                let mut m = chars_of("All configuration approaches failed: ");
                push_str(&mut m, e.as_str());
                UpdateStep::Done(Err(string_of(&m)))
            },
        },
        UpdateStep::Restart => match r {
            Ok(()) => UpdateStep::Verify,
            Err(e) => UpdateStep::Done(Err(e)),
        },
        UpdateStep::Verify => UpdateStep::Done(r),
        UpdateStep::Done(d) => UpdateStep::Done(copy_step_result(d)),
    }
}

/// The next piece of outside work while the exclusive mode is configured,
/// or the result.
pub enum ExclusiveStep {
    /// Write the exclusive-mode PipeWire fragment.
    WritePipeWire,
    /// Write the exclusive-mode WirePlumber rules.
    WriteWirePlumber,
    /// Restart the audio services system-wide.
    Restart,
    /// Finished with this result.
    Done(Result<(), String>),
}

pub enum ExclusiveStepView {
    WritePipeWire,
    WriteWirePlumber,
    Restart,
    Done(Result<(), Seq<char>>),
}

impl View for ExclusiveStep {
    type V = ExclusiveStepView;

    open spec fn view(&self) -> ExclusiveStepView {
        match self {
            ExclusiveStep::WritePipeWire => ExclusiveStepView::WritePipeWire,
            ExclusiveStep::WriteWirePlumber => ExclusiveStepView::WriteWirePlumber,
            ExclusiveStep::Restart => ExclusiveStepView::Restart,
            ExclusiveStep::Done(r) => ExclusiveStepView::Done(outcome(*r)),
        }
    }
}

/// The exclusive mode tries the PipeWire fragment, then the WirePlumber
/// rules; whichever is written is followed by a restart, whose result is the
/// result.
pub open spec fn exclusive_next(s: ExclusiveStepView, r: Result<(), Seq<char>>) -> ExclusiveStepView {
    match s {
        ExclusiveStepView::WritePipeWire => match r {
            Ok(()) => ExclusiveStepView::Restart,
            Err(_) => ExclusiveStepView::WriteWirePlumber,
        },
        ExclusiveStepView::WriteWirePlumber => match r {
            Ok(()) => ExclusiveStepView::Restart,
            Err(e) => ExclusiveStepView::Done(Err("All exclusive mode approaches failed: "@ + e)),
        },
        ExclusiveStepView::Restart => ExclusiveStepView::Done(r),
        ExclusiveStepView::Done(_) => s,
    }
}

pub fn exclusive_next_step(step: &ExclusiveStep, r: Result<(), String>) -> (n: ExclusiveStep)
    ensures
        n@ == exclusive_next(step@, outcome(r)),
{
    match step {
        ExclusiveStep::WritePipeWire => match r {
            Ok(()) => ExclusiveStep::Restart,
            Err(_) => ExclusiveStep::WriteWirePlumber,
        },
        ExclusiveStep::WriteWirePlumber => match r {
            Ok(()) => ExclusiveStep::Restart,
            Err(e) => {
                let mut m = chars_of("All exclusive mode approaches failed: ");
                push_str(&mut m, e.as_str());
                ExclusiveStep::Done(Err(string_of(&m)))
            },
        },
        ExclusiveStep::Restart => ExclusiveStep::Done(r),
        ExclusiveStep::Done(d) => ExclusiveStep::Done(copy_step_result(d)),
    }
}

/// The value of `v as i32`: the same bits read as a signed number.
pub open spec fn as_i32(v: u32) -> int {
    if v > 0x7fff_ffff {
        v - 0x1_0000_0000
    } else {
        v as int
    }
}

/// The buffer-size difference the check computes in `i32`.
pub open spec fn buffer_offset(current: AudioSettings, expected: AudioSettings) -> int {
    as_i32(current.buffer_size) - as_i32(expected.buffer_size)
}

/// The comparison of the settings read back after a restart with those that
/// were written: the rate must match; the buffer size may differ by up to
/// 256 samples, as PipeWire may adjust it.
pub open spec fn applied_check(
    expected: AudioSettings,
    current: Result<AudioSettings, Seq<char>>,
) -> Result<(), Seq<char>> {
    match current {
        Err(e) => Err("Failed to detect current settings for verification: "@ + e),
        Ok(c) => if c.sample_rate != expected.sample_rate {
            Err(
                "Sample rate not applied: expected "@ + dec(expected.sample_rate as nat)
                    + "Hz, got "@ + dec(c.sample_rate as nat) + "Hz"@,
            )
        } else if buffer_offset(c, expected) > 256 || buffer_offset(c, expected) < -256 {
            Err(
                "Buffer size significantly different: expected "@ + dec(
                    expected.buffer_size as nat,
                ) + ", got "@ + dec(c.buffer_size as nat),
            )
        } else {
            Ok(())
        },
    }
}

pub open spec fn detected(current: Result<AudioSettings, String>) -> Result<AudioSettings, Seq<char>> {
    match current {
        Ok(c) => Ok(c),
        Err(e) => Err(e@),
    }
}

/// Checks the settings read back (or the detection error) against those
/// that were written. Where the rates match, the difference of the buffer
/// sizes, taken as `i32`, must fit in `i32` with its absolute value.
pub fn verify_settings_result(expected: &AudioSettings, current: &Result<AudioSettings, String>) -> (r: Result<(), String>)
    requires
        (match *current {
            Ok(c) => c.sample_rate == expected.sample_rate ==> i32::MIN < buffer_offset(c, *expected)
                <= i32::MAX,
            Err(_) => true,
        }),
    ensures
        outcome(r) == applied_check(*expected, detected(*current)),
        r is Ok ==> (current matches Ok(c) && c.sample_rate == expected.sample_rate),
{
    match current {
        Err(e) => {
            let mut m = chars_of("Failed to detect current settings for verification: ");
            push_str(&mut m, e.as_str());
            Err(string_of(&m))
        },
        Ok(c) => {
            if c.sample_rate != expected.sample_rate {
                let mut m = chars_of("Sample rate not applied: expected ");
                push_dec(&mut m, expected.sample_rate as u64);
                push_str(&mut m, "Hz, got ");
                push_dec(&mut m, c.sample_rate as u64);
                push_str(&mut m, "Hz");
                return Err(string_of(&m));
            }
            let cur: i64 = if c.buffer_size > 0x7fff_ffff {
                c.buffer_size as i64 - 0x1_0000_0000
            } else {
                c.buffer_size as i64
            };
            let exp: i64 = if expected.buffer_size > 0x7fff_ffff {
                expected.buffer_size as i64 - 0x1_0000_0000
            } else {
                expected.buffer_size as i64
            };
            let diff = cur - exp;
            if diff > 256 || diff < -256 {
                let mut m = chars_of("Buffer size significantly different: expected ");
                push_dec(&mut m, expected.buffer_size as u64);
                push_str(&mut m, ", got ");
                push_dec(&mut m, c.buffer_size as u64);
                return Err(string_of(&m));
            }
            Ok(())
        },
    }
}

/// The clock rate and quantum read from `pw-cli info 0`.
#[derive(Clone, Copy, Debug, PartialEq, Eq, Structural)]
pub struct ClockReadings {
    pub rate: Option<u32>,
    pub quantum: Option<u32>,
}

/// The readings of the quantum check: every (trimmed) line that mentions
/// the quantum or the rate sets that reading to the number in the line, or
/// clears it where the line holds none; the last such line counts.
pub open spec fn quantum_scan(ls: Seq<Seq<char>>) -> ClockReadings
    decreases ls.len(),
{
    if ls.len() == 0 {
        ClockReadings { rate: None, quantum: None }
    } else {
        let prev = quantum_scan(ls.drop_last());
        let t = trim(ls.last());
        ClockReadings {
            rate: if contains(t, "default.clock.rate"@) {
                number_in_line(t)
            } else {
                prev.rate
            },
            quantum: if contains(t, "default.clock.quantum"@) {
                number_in_line(t)
            } else {
                prev.quantum
            },
        }
    }
}

/// The readings of the advanced check: only lines that start with `*`
/// (after trimming) count, a rate line before a quantum line, and a line
/// without a number leaves the reading as it was.
pub open spec fn starred_scan(ls: Seq<Seq<char>>) -> ClockReadings
    decreases ls.len(),
{
    if ls.len() == 0 {
        ClockReadings { rate: None, quantum: None }
    } else {
        let prev = starred_scan(ls.drop_last());
        let t = trim(ls.last());
        let starred = starts_with(t, "*"@);
        if starred && contains(t, "default.clock.rate"@) {
            ClockReadings {
                rate: if number_in_line(t) is Some {
                    number_in_line(t)
                } else {
                    prev.rate
                },
                quantum: prev.quantum,
            }
        } else if starred && contains(t, "default.clock.quantum"@) {
            ClockReadings {
                rate: prev.rate,
                quantum: if number_in_line(t) is Some {
                    number_in_line(t)
                } else {
                    prev.quantum
                },
            }
        } else {
            prev
        }
    }
}

/// Reads the clock settings from the output of `pw-cli info 0`: the plain
/// reading of the quantum check (`starred` false) or the starred-property
/// reading of the advanced check (`starred` true).
pub fn clock_readings(info: &[u8], starred: bool) -> (r: ClockReadings)
    ensures
        r == (if starred {
            starred_scan(lines(lossy_utf8(info@)))
        } else {
            quantum_scan(lines(lossy_utf8(info@)))
        }),
{
    let text = utf8_lossy_of(info);
    let ls = lines_of(&chars_of(text.as_str()));
    let ghost all = deep(ls@);
    let rate_key = chars_of("default.clock.rate");
    let quantum_key = chars_of("default.clock.quantum");
    let star = chars_of("*");
    let mut r = ClockReadings { rate: None, quantum: None };
    let mut i: usize = 0;
    proof {
        assert(all.take(0) =~= Seq::<Seq<char>>::empty());
    }
    while i < ls.len()
        invariant
            all == deep(ls@),
            i <= ls.len(),
            rate_key@ == "default.clock.rate"@,
            quantum_key@ == "default.clock.quantum"@,
            star@ == "*"@,
            r == (if starred {
                starred_scan(all.take(i as int))
            } else {
                quantum_scan(all.take(i as int))
            }),
        decreases ls.len() - i,
    {
        proof {
            assert(all.take(i + 1).drop_last() =~= all.take(i as int));
            assert(all.take(i + 1).last() == ls@[i as int]@);
        }
        let t = trim_of(&ls[i]);
        let has_rate = contains_of(&t, &rate_key);
        let has_quantum = contains_of(&t, &quantum_key);
        if starred {
            let is_starred = crate::text::starts_with_of(&t, &star);
            if is_starred && has_rate {
                let n = extract_number_from_line(string_of(&t).as_str());
                if n.is_some() {
                    r.rate = n;
                }
            } else if is_starred && has_quantum {
                let n = extract_number_from_line(string_of(&t).as_str());
                if n.is_some() {
                    r.quantum = n;
                }
            }
        } else {
            if has_rate {
                r.rate = extract_number_from_line(string_of(&t).as_str());
            }
            if has_quantum {
                r.quantum = extract_number_from_line(string_of(&t).as_str());
            }
        }
        i += 1;
    }
    proof {
        assert(all.take(ls.len() as int) =~= all);
    }
    r
}

/// The quantum override took effect: the quantum read is the buffer size.
pub fn quantum_verified(readings: &ClockReadings, settings: &AudioSettings) -> (b: bool)
    ensures
        b == (readings.quantum == Some(settings.buffer_size)),
{
    match readings.quantum {
        Some(q) => q == settings.buffer_size,
        None => false,
    }
}

/// The advanced settings took effect: both the rate and the quantum were
/// read, and both match.
pub fn advanced_settings_match(readings: &ClockReadings, settings: &AudioSettings) -> (b: bool)
    ensures
        b == (readings.rate == Some(settings.sample_rate) && readings.quantum == Some(
            settings.buffer_size,
        )),
{
    match (readings.rate, readings.quantum) {
        (Some(r), Some(q)) => r == settings.sample_rate && q == settings.buffer_size,
        _ => false,
    }
}

pub open spec fn opt_or_zero(v: Option<u32>) -> u32 {
    match v {
        Some(x) => x,
        None => 0,
    }
}

fn opt_u32_or_zero(v: Option<u32>) -> (x: u32)
    ensures
        x == opt_or_zero(v),
{
    match v {
        Some(x) => x,
        None => 0,
    }
}

pub const DIAGNOSTIC_0: &'static str = r#"
=== TROUBLESHOOTING INFORMATION ===

DETECTED SETTINGS:
- Sample Rate: "#;
pub const DIAGNOSTIC_1: &'static str = r#"Hz (expected: "#;
pub const DIAGNOSTIC_2: &'static str = r#"Hz)
- Buffer Size: "#;
pub const DIAGNOSTIC_3: &'static str = r#" samples (expected: "#;
pub const DIAGNOSTIC_4: &'static str = r#" samples)

CONFIGURATION STATUS:
- Config file: "#;
pub const DIAGNOSTIC_5: &'static str = r#"/99-pro-audio-advanced.conf
- System-wide: "#;
pub const DIAGNOSTIC_6: &'static str = r#"

IMMEDIATE TROUBLESHOOTING STEPS:
1. Check config syntax:
cat "#;
pub const DIAGNOSTIC_7: &'static str = r#"/99-pro-audio-advanced.conf | grep -E '(default.clock|audio.rate)'

2. Force full restart:
systemctl --user stop pipewire pipewire-pulse wireplumber
pkill -9 pipewire wireplumber
systemctl --user start pipewire pipewire-pulse wireplumber

3. Check for conflicting configs:
ls -la /usr/share/pipewire/pipewire.conf.d/
ls -la ~/.config/pipewire/pipewire.conf.d/
ls -la /etc/pipewire/pipewire.conf.d/

4. Test with minimal config:
echo 'context.properties = { default.clock.rate = "#;
pub const DIAGNOSTIC_8: &'static str = r#", default.clock.quantum = "#;
pub const DIAGNOSTIC_9: &'static str = r#" }' > /tmp/test.conf
PW_CONFIG_FILE=/tmp/test.conf pipewire --verbose

5. Check PipeWire logs:
journalctl --user -u pipewire -n 50
journalctl --user -u wireplumber -n 50"#;

/// The troubleshooting text shown when the advanced settings could not be
/// confirmed: what was read (0 where nothing was), what was expected, the
/// configuration directory and the steps to try.
pub open spec fn advanced_diagnostic_text(readings: ClockReadings, settings: AudioSettings, config_dir: Seq<char>, system_wide: bool) -> Seq<char> {
    DIAGNOSTIC_0@
        + dec(opt_or_zero(readings.rate) as nat)
        + DIAGNOSTIC_1@
        + dec(settings.sample_rate as nat)
        + DIAGNOSTIC_2@
        + dec(opt_or_zero(readings.quantum) as nat)
        + DIAGNOSTIC_3@
        + dec(settings.buffer_size as nat)
        + DIAGNOSTIC_4@
        + config_dir
        + DIAGNOSTIC_5@
        + bool_text(system_wide)
        + DIAGNOSTIC_6@
        + config_dir
        + DIAGNOSTIC_7@
        + dec(settings.sample_rate as nat)
        + DIAGNOSTIC_8@
        + dec(settings.buffer_size as nat)
        + DIAGNOSTIC_9@
}

/// Builds [`advanced_diagnostic_text`].
pub fn advanced_diagnostic(
    readings: &ClockReadings,
    settings: &AudioSettings,
    config_dir: &str,
    system_wide: bool,
) -> (text: String)
    ensures
        text@ == advanced_diagnostic_text(*readings, *settings, config_dir@, system_wide),
{
    let mut out: Vec<char> = Vec::new();
    let dir = chars_of(config_dir);
    push_str(&mut out, DIAGNOSTIC_0);
    push_dec(&mut out, opt_u32_or_zero(readings.rate) as u64);
    push_str(&mut out, DIAGNOSTIC_1);
    push_dec(&mut out, settings.sample_rate as u64);
    push_str(&mut out, DIAGNOSTIC_2);
    push_dec(&mut out, opt_u32_or_zero(readings.quantum) as u64);
    push_str(&mut out, DIAGNOSTIC_3);
    push_dec(&mut out, settings.buffer_size as u64);
    push_str(&mut out, DIAGNOSTIC_4);
    push_chars(&mut out, &dir);
    push_str(&mut out, DIAGNOSTIC_5);
    push_bool(&mut out, system_wide);
    push_str(&mut out, DIAGNOSTIC_6);
    push_chars(&mut out, &dir);
    push_str(&mut out, DIAGNOSTIC_7);
    push_dec(&mut out, settings.sample_rate as u64);
    push_str(&mut out, DIAGNOSTIC_8);
    push_dec(&mut out, settings.buffer_size as u64);
    push_str(&mut out, DIAGNOSTIC_9);
    string_of(&out)
}


/// Advanced settings of the exclusive mode.
#[derive(Clone, Debug)]
pub struct AdvancedAudioSettings {
    pub exclusive_mode: bool,
    pub direct_hardware: bool,
    pub low_latency: bool,
    pub buffer_size: u32,
    pub sample_rate: u32,
}

/// What applying the advanced settings does.
pub enum AdvancedPlan {
    /// Configure the exclusive mode, starting with this step.
    Exclusive(ExclusiveStep),
    /// Go back to the standard shared mode.
    RestoreShared,
}

/// The exclusive mode is configured when it is asked for; otherwise the
/// shared mode is restored.
pub fn advanced_audio_plan(exclusive_mode: bool) -> (p: AdvancedPlan)
    ensures
        exclusive_mode ==> (p matches AdvancedPlan::Exclusive(s) && s@ == ExclusiveStepView::WritePipeWire),
        !exclusive_mode ==> p is RestoreShared,
{
    if exclusive_mode {
        AdvancedPlan::Exclusive(ExclusiveStep::WritePipeWire)
    } else {
        AdvancedPlan::RestoreShared
    }
}

/// A command of the service restart.
pub struct ServiceCommand {
    pub program: String,
    pub args: Vec<String>,
    /// The text put before the error when the command cannot be started;
    /// `None` where that is ignored.
    pub launch_error: Option<String>,
    /// The error when the command runs and fails; `None` where a failure is
    /// ignored.
    pub failure: Option<String>,
}

pub struct CommandView {
    pub program: Seq<char>,
    pub args: Seq<Seq<char>>,
    pub launch_error: Option<Seq<char>>,
    pub failure: Option<Seq<char>>,
}

pub open spec fn opt_string(o: Option<String>) -> Option<Seq<char>> {
    match o {
        Some(s) => Some(s@),
        None => None,
    }
}

impl View for ServiceCommand {
    type V = CommandView;

    open spec fn view(&self) -> CommandView {
        CommandView {
            program: self.program@,
            args: self.args@.map_values(|a: String| a@),
            launch_error: opt_string(self.launch_error),
            failure: opt_string(self.failure),
        }
    }
}

pub open spec fn command_views(v: Seq<ServiceCommand>) -> Seq<CommandView> {
    v.map_values(|c: ServiceCommand| c@)
}

pub open spec fn cmd(
    program: Seq<char>,
    args: Seq<Seq<char>>,
    launch_error: Option<Seq<char>>,
    failure: Option<Seq<char>>,
) -> CommandView {
    CommandView { program, args, launch_error, failure }
}

/// The commands that restart the audio services. System-wide: the user's
/// services restarted through `sudo -u`, which must succeed. Legacy: each
/// service on its own, failures ignored. Otherwise through systemd, which
/// must succeed, where systemd runs; else the daemons are killed so that
/// they restart on their own.
pub open spec fn restart_plan(
    use_legacy: bool,
    system_wide: bool,
    systemd_present: bool,
    user: Seq<char>,
) -> Seq<CommandView> {
    if system_wide {
        seq![
            cmd(
                "sudo"@,
                seq![
                    "-u"@,
                    user,
                    "systemctl"@,
                    "--user"@,
                    "restart"@,
                    "pipewire"@,
                    "pipewire-pulse"@,
                    "wireplumber"@,
                ],
                Some("Failed to restart user services"@),
                Some("Failed to restart user audio services via systemd"@),
            ),
        ]
    } else if use_legacy {
        seq![
            cmd("systemctl"@, seq!["--user"@, "restart"@, "pipewire"@], Some("Failed to restart pipewire"@), None),
            cmd(
                "systemctl"@,
                seq!["--user"@, "restart"@, "pipewire-pulse"@],
                Some("Failed to restart pipewire-pulse"@),
                None,
            ),
            cmd(
                "systemctl"@,
                seq!["--user"@, "restart"@, "wireplumber"@],
                Some("Failed to restart wireplumber"@),
                None,
            ),
        ]
    } else if systemd_present {
        seq![
            cmd(
                "systemctl"@,
                seq!["--user"@, "restart"@, "pipewire"@, "pipewire-pulse"@, "wireplumber"@],
                Some("Failed to restart services"@),
                Some("Failed to restart audio services via systemd"@),
            ),
        ]
    } else {
        seq![
            cmd("pkill"@, seq!["-f"@, "pipewire"@], None, None),
            cmd("pkill"@, seq!["-f"@, "wireplumber"@], None, None),
        ]
    }
}

fn strs(items: &[&str]) -> (v: Vec<String>)
    ensures
        v@.map_values(|a: String| a@) == items@.map_values(|a: &str| a@),
{
    let mut v: Vec<String> = Vec::new();
    let mut i: usize = 0;
    while i < items.len()
        invariant
            i <= items.len(),
            v@.map_values(|a: String| a@) == items@.take(i as int).map_values(|a: &str| a@),
        decreases items.len() - i,
    {
        let ghost before = v@.map_values(|a: String| a@);
        let s = items[i].to_string();
        v.push(s);
        proof {
            assert(v@.map_values(|a: String| a@) =~= before.push(items@[i as int]@));
            assert(items@.take(i + 1).map_values(|a: &str| a@) =~= items@.take(i as int).map_values(
                |a: &str| a@,
            ).push(items@[i as int]@));
        }
        i += 1;
    }
    proof {
        assert(items@.take(items.len() as int) =~= items@);
    }
    v
}

fn command(
    program: &str,
    args: Vec<String>,
    launch_error: Option<&str>,
    failure: Option<&str>,
) -> (c: ServiceCommand)
    ensures
        c@.program == program@,
        c@.args == args@.map_values(|a: String| a@),
        c@.launch_error == (match launch_error {
            Some(s) => Some(s@),
            None => None::<Seq<char>>,
        }),
        c@.failure == (match failure {
            Some(s) => Some(s@),
            None => None::<Seq<char>>,
        }),
{
    ServiceCommand {
        program: program.to_string(),
        args,
        launch_error: match launch_error {
            Some(s) => Some(s.to_string()),
            None => None,
        },
        failure: match failure {
            Some(s) => Some(s.to_string()),
            None => None,
        },
    }
}

/// The commands of [`restart_plan`] for the given user.
pub fn restart_commands(use_legacy: bool, system_wide: bool, systemd_present: bool, user: &str) -> (v: Vec<ServiceCommand>)
    ensures
        command_views(v@) == restart_plan(use_legacy, system_wide, systemd_present, user@),
{
    let mut v: Vec<ServiceCommand> = Vec::new();
    if system_wide {
        let items = ["-u", user, "systemctl", "--user", "restart", "pipewire", "pipewire-pulse", "wireplumber"];
        proof {
            assert(items@.map_values(|a: &str| a@) =~= seq![
                "-u"@,
                user@,
                "systemctl"@,
                "--user"@,
                "restart"@,
                "pipewire"@,
                "pipewire-pulse"@,
                "wireplumber"@,
            ]);
        }
        let args = strs(&items);
        v.push(
            command(
                "sudo",
                args,
                Some("Failed to restart user services"),
                Some("Failed to restart user audio services via systemd"),
            ),
        );
    } else if use_legacy {
        let ia = ["--user", "restart", "pipewire"];
        let ib = ["--user", "restart", "pipewire-pulse"];
        let ic = ["--user", "restart", "wireplumber"];
        proof {
            assert(ia@.map_values(|a: &str| a@) =~= seq!["--user"@, "restart"@, "pipewire"@]);
            assert(ib@.map_values(|a: &str| a@) =~= seq!["--user"@, "restart"@, "pipewire-pulse"@]);
            assert(ic@.map_values(|a: &str| a@) =~= seq!["--user"@, "restart"@, "wireplumber"@]);
        }
        let a = strs(&ia);
        v.push(command("systemctl", a, Some("Failed to restart pipewire"), None));
        let b = strs(&ib);
        v.push(command("systemctl", b, Some("Failed to restart pipewire-pulse"), None));
        let c = strs(&ic);
        v.push(command("systemctl", c, Some("Failed to restart wireplumber"), None));
    } else if systemd_present {
        let items = ["--user", "restart", "pipewire", "pipewire-pulse", "wireplumber"];
        proof {
            assert(items@.map_values(|a: &str| a@) =~= seq![
                "--user"@,
                "restart"@,
                "pipewire"@,
                "pipewire-pulse"@,
                "wireplumber"@,
            ]);
        }
        let args = strs(&items);
        v.push(
            command(
                "systemctl",
                args,
                Some("Failed to restart services"),
                Some("Failed to restart audio services via systemd"),
            ),
        );
    } else {
        let ia = ["-f", "pipewire"];
        let ib = ["-f", "wireplumber"];
        proof {
            assert(ia@.map_values(|a: &str| a@) =~= seq!["-f"@, "pipewire"@]);
            assert(ib@.map_values(|a: &str| a@) =~= seq!["-f"@, "wireplumber"@]);
        }
        let a = strs(&ia);
        v.push(command("pkill", a, None, None));
        let b = strs(&ib);
        v.push(command("pkill", b, None, None));
    }
    proof {
        assert(command_views(v@) =~= restart_plan(use_legacy, system_wide, systemd_present, user@));
    }
    v
}

/// The services that are not running, in the order pipewire,
/// pipewire-pulse, wireplumber.
pub open spec fn missing_services(pipewire: bool, pulse: bool, wireplumber: bool) -> Seq<Seq<char>> {
    (if pipewire { Seq::empty() } else { seq!["pipewire"@] })
        + (if pulse { Seq::empty() } else { seq!["pipewire-pulse"@] })
        + (if wireplumber { Seq::empty() } else { seq!["wireplumber"@] })
}

/// All three services run, or the error names those that do not.
pub open spec fn services_report(pipewire: bool, pulse: bool, wireplumber: bool) -> Result<(), Seq<char>> {
    let missing = missing_services(pipewire, pulse, wireplumber);
    if missing.len() == 0 {
        Ok(())
    } else {
        Err("Missing audio services: "@ + join(missing, ", "@))
    }
}

/// Reports on the audio services from whether each one was found running.
pub fn audio_services_report(pipewire: bool, pulse: bool, wireplumber: bool) -> (r: Result<(), String>)
    ensures
        outcome(r) == services_report(pipewire, pulse, wireplumber),
{
    let mut missing: Vec<Vec<char>> = Vec::new();
    if !pipewire {
        missing.push(chars_of("pipewire"));
    }
    let ghost m1 = deep(missing@);
    if !pulse {
        missing.push(chars_of("pipewire-pulse"));
    }
    let ghost m2 = deep(missing@);
    if !wireplumber {
        missing.push(chars_of("wireplumber"));
    }
    proof {
        assert(m1 =~= (if pipewire { Seq::<Seq<char>>::empty() } else { seq!["pipewire"@] }));
        assert(m2 =~= m1 + (if pulse { Seq::<Seq<char>>::empty() } else { seq!["pipewire-pulse"@] }));
        assert(deep(missing@) =~= missing_services(pipewire, pulse, wireplumber));
    }
    if missing.len() == 0 {
        Ok(())
    } else {
        let mut m = chars_of("Missing audio services: ");
        let joined = join_of(&missing, &chars_of(", "));
        push_chars(&mut m, &joined);
        Err(string_of(&m))
    }
}

/// What running a command gave: it ran (successfully or not), or it could
/// not be started, with the error.
pub enum CommandOutcome {
    Ran(bool),
    NotStarted(String),
}

pub enum CommandOutcomeView {
    Ran(bool),
    NotStarted(Seq<char>),
}

impl View for CommandOutcome {
    type V = CommandOutcomeView;

    open spec fn view(&self) -> CommandOutcomeView {
        match self {
            CommandOutcome::Ran(ok) => CommandOutcomeView::Ran(*ok),
            CommandOutcome::NotStarted(e) => CommandOutcomeView::NotStarted(e@),
        }
    }
}

/// The next attempt at running a command with administrator rights, or
/// the result.
pub enum PrivilegeStep {
    /// Run it through `pkexec`.
    Pkexec,
    /// Run it through `sudo`.
    Sudo,
    /// Finished with this result.
    Done(Result<(), String>),
}

pub enum PrivilegeStepView {
    Pkexec,
    Sudo,
    Done(Result<(), Seq<char>>),
}

impl View for PrivilegeStep {
    type V = PrivilegeStepView;

    open spec fn view(&self) -> PrivilegeStepView {
        match self {
            PrivilegeStep::Pkexec => PrivilegeStepView::Pkexec,
            PrivilegeStep::Sudo => PrivilegeStepView::Sudo,
            PrivilegeStep::Done(r) => PrivilegeStepView::Done(outcome(*r)),
        }
    }
}

/// `pkexec` first; where it runs and fails, `sudo`; a helper that cannot be
/// started ends the attempt with its error.
pub open spec fn privilege_next(s: PrivilegeStepView, o: CommandOutcomeView) -> PrivilegeStepView {
    match (s, o) {
        (PrivilegeStepView::Pkexec, CommandOutcomeView::Ran(true)) => PrivilegeStepView::Done(Ok(())),
        (PrivilegeStepView::Pkexec, CommandOutcomeView::Ran(false)) => PrivilegeStepView::Sudo,
        (PrivilegeStepView::Pkexec, CommandOutcomeView::NotStarted(e)) => PrivilegeStepView::Done(
            Err("Failed to execute with pkexec: "@ + e + ". Make sure pkexec is available."@),
        ),
        (PrivilegeStepView::Sudo, CommandOutcomeView::Ran(true)) => PrivilegeStepView::Done(Ok(())),
        (PrivilegeStepView::Sudo, CommandOutcomeView::Ran(false)) => PrivilegeStepView::Done(
            Err("Privilege escalation failed. Please run as root or configure sudo/pkexec."@),
        ),
        (PrivilegeStepView::Sudo, CommandOutcomeView::NotStarted(e)) => PrivilegeStepView::Done(
            Err("Failed to execute with sudo: "@ + e + ". Please run with administrator privileges."@),
        ),
        (PrivilegeStepView::Done(_), _) => s,
    }
}

pub fn privilege_next_step(step: &PrivilegeStep, o: CommandOutcome) -> (n: PrivilegeStep)
    ensures
        n@ == privilege_next(step@, o@),
{
    match (step, o) {
        (PrivilegeStep::Pkexec, CommandOutcome::Ran(true)) => PrivilegeStep::Done(Ok(())),
        (PrivilegeStep::Pkexec, CommandOutcome::Ran(false)) => PrivilegeStep::Sudo,
        (PrivilegeStep::Pkexec, CommandOutcome::NotStarted(e)) => {
            let mut m = chars_of("Failed to execute with pkexec: ");
            push_str(&mut m, e.as_str());
            push_str(&mut m, ". Make sure pkexec is available.");
            PrivilegeStep::Done(Err(string_of(&m)))
        },
        (PrivilegeStep::Sudo, CommandOutcome::Ran(true)) => PrivilegeStep::Done(Ok(())),
        (PrivilegeStep::Sudo, CommandOutcome::Ran(false)) => PrivilegeStep::Done(
            Err("Privilege escalation failed. Please run as root or configure sudo/pkexec.".to_string()),
        ),
        (PrivilegeStep::Sudo, CommandOutcome::NotStarted(e)) => {
            let mut m = chars_of("Failed to execute with sudo: ");
            push_str(&mut m, e.as_str());
            push_str(&mut m, ". Please run with administrator privileges.");
            PrivilegeStep::Done(Err(string_of(&m)))
        },
        (PrivilegeStep::Done(d), _) => PrivilegeStep::Done(copy_step_result(d)),
    }
}

/// While waiting for the services after a forced restart, they are started
/// by hand on every third failed check.
pub open spec fn manual_start_due(failed_checks: nat) -> bool {
    failed_checks % 3 == 0
}

pub fn start_services_by_hand(failed_checks: u32) -> (b: bool)
    ensures
        b == manual_start_due(failed_checks as nat),
{
    failed_checks % 3 == 0
}

/// How the services are waited for after a restart: how many failed checks
/// are made at most, the pause after each, and whether they are started by
/// hand on every third failed check.
#[derive(Clone, Copy, Debug, PartialEq, Eq, Structural)]
pub struct WaitPolicy {
    pub max_checks: u32,
    pub pause_ms: u64,
    pub start_by_hand: bool,
}

/// The ordinary restart waits up to ten seconds, checking every half second.
pub fn restart_wait_policy() -> (p: WaitPolicy)
    ensures
        p == (WaitPolicy { max_checks: 20, pause_ms: 500, start_by_hand: false }),
{
    WaitPolicy { max_checks: 20, pause_ms: 500, start_by_hand: false }
}

/// The forced restart checks ten times, a second apart, and starts the
/// services by hand on every third failed check.
pub fn aggressive_wait_policy() -> (p: WaitPolicy)
    ensures
        p == (WaitPolicy { max_checks: 10, pause_ms: 1000, start_by_hand: true }),
{
    WaitPolicy { max_checks: 10, pause_ms: 1000, start_by_hand: true }
}

/// What follows a check of the services.
#[derive(Clone, Copy, Debug, PartialEq, Eq, Structural)]
pub enum WaitAction {
    /// The services run: the wait ends.
    Running,
    /// The check failed (the `failed`-th failure): pause, start the
    /// services by hand where asked, and check again unless the wait gives
    /// up.
    Failed { failed: u32, pause_ms: u64, start_by_hand: bool, give_up: bool },
}

/// The action after a check, when `failed_before` checks failed before it.
pub open spec fn wait_next(p: WaitPolicy, failed_before: u32, running: bool) -> WaitAction {
    if running {
        WaitAction::Running
    } else {
        let k = (failed_before + 1) as u32;
        WaitAction::Failed {
            failed: k,
            pause_ms: p.pause_ms,
            start_by_hand: p.start_by_hand && manual_start_due(k as nat),
            give_up: k >= p.max_checks,
        }
    }
}

pub fn after_service_check(p: &WaitPolicy, failed_before: u32, running: bool) -> (a: WaitAction)
    requires
        failed_before < p.max_checks,
    ensures
        a == wait_next(*p, failed_before, running),
{
    if running {
        WaitAction::Running
    } else {
        let k = failed_before + 1;
        WaitAction::Failed {
            failed: k,
            pause_ms: p.pause_ms,
            start_by_hand: p.start_by_hand && start_services_by_hand(k),
            give_up: k >= p.max_checks,
        }
    }
}

} // verus!
