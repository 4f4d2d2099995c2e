//! The decisions and the output of the `list`, `get`, `set`, `profile`,
//! `scan` and `probe` commands, apart from talking to the monitors.

use vstd::prelude::*;

use crate::profile::{
    feature_name, profile_opt_view, resolve_feature, resolve_value, spec_controls_for,
    spec_feature_name, spec_feature_title, spec_observed_codes, spec_resolve_feature,
    spec_resolve_value, spec_value_label, spec_write_options, spec_write_value_label, str_opt_view,
    string_opt_view, value_label, write_options, write_value_label, controls_for, observed_codes,
    options_view, strs_view, FeatureModel, FeatureSpec, MonitorProfile, ProfileModel, ResolvedFeature,
    ResolvedModel, ValueOption, ValueOptionModel,
};
use crate::readback::{
    bool_text, decimal_opt, opt_decimal, opt_line, spec_value_report, strings_view, value_report_lines, ProbeModel,
    ProbeResult,
};
use crate::selection::{DisplaySelector, FeatureArg, SelectorModel};
use crate::lines::{append_lines, cat2, opt_str, push_line, push_opt};
use crate::text::{chars_eq, chars_of, decimal, decimal_string, hex_code, hex_code_string, join, join_strings, owned};

verus! {

// ---------------------------------------------------------------------
// list
// ---------------------------------------------------------------------

/// What `list` shows of one monitor.
#[derive(Debug)]
pub struct MonitorSummary {
    pub index: usize,
    pub description: String,
    pub controller: String,
    pub backend: String,
    pub identifier: String,
    pub product_name: Option<String>,
    pub serial_number: Option<String>,
}

/// The lines that `list` prints for one monitor.
pub open spec fn spec_summary_lines(m: MonitorSummary) -> Seq<Seq<char>> {
    seq![
        "["@ + decimal(m.index as nat) + "] "@ + m.description@,
        "  controller: "@ + m.controller@,
        "  backend: "@ + m.backend@,
        "  id: "@ + m.identifier@,
    ] + opt_line("  name: "@, string_opt_view(m.product_name)) + opt_line(
        "  serial: "@,
        string_opt_view(m.serial_number),
    )
}

pub open spec fn summaries_lines(ms: Seq<MonitorSummary>) -> Seq<Seq<char>>
    decreases ms.len(),
{
    if ms.len() == 0 {
        Seq::empty()
    } else {
        summaries_lines(ms.drop_last()) + spec_summary_lines(ms.last())
    }
}

/// What `list` prints.
pub open spec fn spec_list_lines(ms: Seq<MonitorSummary>) -> Seq<Seq<char>> {
    if ms.len() == 0 {
        seq!["No DDC/CI-capable external monitors found."@]
    } else {
        summaries_lines(ms)
    }
}

fn summary_lines(m: &MonitorSummary) -> (r: Vec<String>)
    ensures
        strings_view(r@) == spec_summary_lines(*m),
{
    let mut lines: Vec<String> = Vec::new();
    let mut first = owned("[");
    first.append(decimal_string(m.index as u64).as_str());
    first.append("] ");
    first.append(m.description.as_str());
    push_line(&mut lines, first);
    push_line(&mut lines, cat2("  controller: ", m.controller.as_str()));
    push_line(&mut lines, cat2("  backend: ", m.backend.as_str()));
    push_line(&mut lines, cat2("  id: ", m.identifier.as_str()));
    assert(strings_view(lines@) =~= seq![
        "["@ + decimal(m.index as nat) + "] "@ + m.description@,
        "  controller: "@ + m.controller@,
        "  backend: "@ + m.backend@,
        "  id: "@ + m.identifier@,
    ]);
    push_opt(&mut lines, "  name: ", opt_str(&m.product_name));
    push_opt(&mut lines, "  serial: ", opt_str(&m.serial_number));
    lines
}

/// The lines that `list` prints for the monitors found.
pub fn list_lines(monitors: &Vec<MonitorSummary>) -> (r: Vec<String>)
    ensures
        strings_view(r@) == spec_list_lines(monitors@),
{
    let mut lines: Vec<String> = Vec::new();
    if monitors.len() == 0 {
        push_line(&mut lines, owned("No DDC/CI-capable external monitors found."));
        assert(strings_view(lines@) =~= seq!["No DDC/CI-capable external monitors found."@]);
        return lines;
    }
    let mut i: usize = 0;
    while i < monitors.len()
        invariant
            i <= monitors@.len(),
            strings_view(lines@) == summaries_lines(monitors@.take(i as int)),
        decreases monitors@.len() - i,
    {
        append_lines(&mut lines, summary_lines(&monitors[i]));
        assert(monitors@.take(i + 1).drop_last() =~= monitors@.take(i as int));
        i = i + 1;
    }
    assert(monitors@.take(monitors@.len() as int) =~= monitors@);
    lines
}

// ---------------------------------------------------------------------
// get and probe
// ---------------------------------------------------------------------

/// The lines that head the report of a read value.
pub open spec fn spec_value_header(display: usize, controller: Seq<char>, f: ResolvedModel) -> Seq<Seq<char>> {
    seq!["display="@ + decimal(display as nat), "controller="@ + controller, "feature="@ + spec_feature_title(f)]
}

/// What `get` prints for one display.
pub open spec fn spec_get_lines(display: usize, controller: Seq<char>, f: ResolvedModel, current: u16, maximum: u16) -> Seq<Seq<char>> {
    spec_value_header(display, controller, f) + spec_value_report(f.spec, current, maximum)
}

/// The lines that `get` prints for one display.
pub fn get_lines(display: usize, controller: &str, feature: &ResolvedFeature, current: u16, maximum: u16) -> (r: Vec<String>)
    ensures
        strings_view(r@) == spec_get_lines(display, controller@, feature@, current, maximum),
{
    let mut lines: Vec<String> = Vec::new();
    push_line(&mut lines, cat2("display=", decimal_string(display as u64).as_str()));
    push_line(&mut lines, cat2("controller=", controller));
    push_line(&mut lines, cat2("feature=", feature.describe().as_str()));
    assert(strings_view(lines@) =~= spec_value_header(display, controller@, feature@));
    append_lines(&mut lines, value_report_lines(feature, current, maximum));
    lines
}

/// The arguments with which `scan` runs a probe of one VCP code.
pub open spec fn spec_probe_args(s: SelectorModel, code: u8) -> Seq<Seq<char>> {
    seq!["probe"@] + (match s.display {
        Some(n) => seq!["--display"@, decimal(n as nat)],
        None => Seq::empty(),
    }) + (match s.id {
        Some(id) => seq!["--id"@, id],
        None => Seq::empty(),
    }) + (match s.name {
        Some(name) => seq!["--name"@, name],
        None => Seq::empty(),
    }) + seq![hex_code(code as nat)]
}

/// The arguments with which `scan` runs a probe of one VCP code.
pub fn probe_args(selector: &DisplaySelector, feature_code: u8) -> (r: Vec<String>)
    ensures
        strings_view(r@) == spec_probe_args(selector@, feature_code),
{
    let mut args: Vec<String> = Vec::new();
    push_line(&mut args, owned("probe"));
    let ghost a0 = strings_view(args@);
    if let Some(display) = selector.display {
        push_line(&mut args, owned("--display"));
        push_line(&mut args, decimal_string(display as u64));
    }
    let ghost a1 = strings_view(args@);
    assert(a1 =~= a0 + match selector@.display {
        Some(n) => seq!["--display"@, decimal(n as nat)],
        None => Seq::<Seq<char>>::empty(),
    });
    if let Some(id) = &selector.id {
        push_line(&mut args, owned("--id"));
        push_line(&mut args, id.clone());
    }
    let ghost a2 = strings_view(args@);
    assert(a2 =~= a1 + match selector@.id {
        Some(id) => seq!["--id"@, id],
        None => Seq::<Seq<char>>::empty(),
    });
    if let Some(name) = &selector.name {
        push_line(&mut args, owned("--name"));
        push_line(&mut args, name.clone());
    }
    let ghost a3 = strings_view(args@);
    assert(a3 =~= a2 + match selector@.name {
        Some(name) => seq!["--name"@, name],
        None => Seq::<Seq<char>>::empty(),
    });
    push_line(&mut args, hex_code_string(feature_code as u64));
    assert(strings_view(args@) =~= spec_probe_args(selector@, feature_code));
    args
}

// ---------------------------------------------------------------------
// set
// ---------------------------------------------------------------------

pub open spec fn read_only_message(f: FeatureModel) -> Seq<char> {
    "Feature "@ + f.name + " ("@ + hex_code(f.code as nat) + ") is read-only."@
}

/// What `set` writes, or why it refuses: the feature and the value are
/// resolved in turn, and a feature known to be read-only is refused.
pub open spec fn spec_prepare_set(p: Option<ProfileModel>, feature: Seq<char>, value: Seq<char>) -> Result<(ResolvedModel, u16), Seq<char>> {
    match spec_resolve_feature(p, feature) {
        Err(e) => Err(e),
        Ok(f) => match spec_resolve_value(f.spec, value) {
            Err(e) => Err(e),
            Ok(v) => match f.spec {
                Some(s) => if !s.writable {
                    Err(read_only_message(s))
                } else {
                    Ok((f, v))
                },
                None => Ok((f, v)),
            },
        },
    }
}

/// Resolves what `set` writes (see [`spec_prepare_set`]).
pub fn prepare_set(profile: Option<&'static MonitorProfile>, feature: &FeatureArg, value: &str) -> (r: Result<(ResolvedFeature, u16), String>)
    ensures
        match spec_prepare_set(profile_opt_view(profile), feature@, value@) {
            Ok((f, v)) => r is Ok && r->Ok_0.0@ == f && r->Ok_0.1 == v,
            Err(e) => r is Err && r->Err_0@ == e,
        },
{
    let resolved = resolve_feature(profile, feature.as_str())?;
    let value = resolve_value(resolved.spec, value)?;
    if let Some(spec) = resolved.spec {
        if !spec.writable {
            let mut message = owned("Feature ");
            message.append(spec.name);
            message.append(" (");
            message.append(hex_code_string(spec.code as u64).as_str());
            message.append(") is read-only.");
            return Err(message);
        }
    }
    Ok((resolved, value))
}

/// What `set` prints after writing a value.
pub open spec fn spec_set_lines(display: usize, controller: Seq<char>, f: ResolvedModel, value: u16) -> Seq<Seq<char>> {
    spec_value_header(display, controller, f) + seq!["set="@ + decimal(value as nat)] + opt_line(
        "set_label="@,
        spec_write_value_label(f.spec, value),
    )
}

/// The lines that `set` prints after writing a value.
pub fn set_lines(display: usize, controller: &str, feature: &ResolvedFeature, value: u16) -> (r: Vec<String>)
    ensures
        strings_view(r@) == spec_set_lines(display, controller@, feature@, value),
{
    let mut lines: Vec<String> = Vec::new();
    push_line(&mut lines, cat2("display=", decimal_string(display as u64).as_str()));
    push_line(&mut lines, cat2("controller=", controller));
    push_line(&mut lines, cat2("feature=", feature.describe().as_str()));
    push_line(&mut lines, cat2("set=", decimal_string(value as u64).as_str()));
    assert(strings_view(lines@) =~= spec_value_header(display, controller@, feature@) + seq![
        "set="@ + decimal(value as nat),
    ]);
    push_opt(&mut lines, "set_label=", write_value_label(feature.spec, value));
    lines
}

// ---------------------------------------------------------------------
// profile
// ---------------------------------------------------------------------

/// `label=value`.
pub open spec fn option_pair(o: ValueOptionModel) -> Seq<char> {
    o.label + "="@ + decimal(o.value as nat)
}

/// The options as `label=value`, separated by commas.
pub open spec fn options_text(os: Seq<ValueOptionModel>) -> Seq<char> {
    join(os.map_values(|o: ValueOptionModel| option_pair(o)), ", "@)
}

/// The write table is listed when it offers something that the read table
/// does not already show.
pub open spec fn lists_write_values(f: FeatureModel) -> bool {
    spec_write_options(f).len() > 0 && (f.value_options.len() == 0 || f.write_options != f.value_options)
}

/// What `profile` prints of one feature.
pub open spec fn spec_feature_lines(f: FeatureModel) -> Seq<Seq<char>> {
    seq!["  "@ + f.name + " "@ + hex_code(f.code as nat) + " writable="@ + bool_text(f.writable)] + (if f.value_options.len()
        > 0 {
        seq!["    values: "@ + options_text(f.value_options)]
    } else {
        Seq::empty()
    }) + (if lists_write_values(f) {
        seq!["    write_values: "@ + options_text(spec_write_options(f))]
    } else {
        Seq::empty()
    })
}

pub open spec fn features_lines(fs: Seq<FeatureModel>) -> Seq<Seq<char>>
    decreases fs.len(),
{
    if fs.len() == 0 {
        Seq::empty()
    } else {
        features_lines(fs.drop_last()) + spec_feature_lines(fs.last())
    }
}

/// The codes in hex, separated by spaces.
pub open spec fn codes_text(codes: Seq<u8>) -> Seq<char> {
    join(codes.map_values(|c: u8| hex_code(c as nat)), " "@)
}

/// What `profile` prints for one display.
pub open spec fn spec_profile_lines(
    display: usize,
    controller: Seq<char>,
    description: Seq<char>,
    model: Option<Seq<char>>,
    p: Option<ProfileModel>,
) -> Seq<Seq<char>> {
    let observed = spec_observed_codes(p);
    seq!["display="@ + decimal(display as nat), "controller="@ + controller, "description="@ + description]
        + opt_line("model="@, model) + seq![
        "profile_key="@ + match p {
            Some(p) => p.key,
            None => "generic"@,
        },
        "controls:"@,
    ] + features_lines(spec_controls_for(p)) + (if observed.len() > 0 {
        seq!["observed_readable_codes="@ + codes_text(observed)]
    } else {
        Seq::empty()
    })
}

fn strs_equal(a: &'static [&'static str], b: &'static [&'static str]) -> (r: bool)
    ensures
        r == (strs_view(a@) == strs_view(b@)),
{
    if a.len() != b.len() {
        return false;
    }
    let mut i: usize = 0;
    while i < a.len()
        invariant
            a@.len() == b@.len(),
            i <= a@.len(),
            forall|k: int| 0 <= k < i ==> a@[k]@ == b@[k]@,
        decreases a@.len() - i,
    {
        if !chars_eq(&chars_of(a[i]), &chars_of(b[i])) {
            assert(strs_view(a@)[i as int] != strs_view(b@)[i as int]);
            return false;
        }
        i = i + 1;
    }
    assert(strs_view(a@) =~= strs_view(b@));
    true
}

fn options_equal(a: &'static [ValueOption], b: &'static [ValueOption]) -> (r: bool)
    ensures
        r == (options_view(a@) == options_view(b@)),
{
    if a.len() != b.len() {
        return false;
    }
    let mut i: usize = 0;
    while i < a.len()
        invariant
            a@.len() == b@.len(),
            i <= a@.len(),
            forall|k: int| 0 <= k < i ==> a@[k]@ == b@[k]@,
        decreases a@.len() - i,
    {
        let same = a[i].value == b[i].value && chars_eq(&chars_of(a[i].label), &chars_of(b[i].label))
            && strs_equal(a[i].aliases, b[i].aliases);
        if !same {
            assert(options_view(a@)[i as int] != options_view(b@)[i as int]);
            return false;
        }
        assert(a@[i as int]@ =~= b@[i as int]@);
        i = i + 1;
    }
    assert(options_view(a@) =~= options_view(b@));
    true
}

fn options_text_exec(options: &'static [ValueOption]) -> (r: String)
    ensures
        r@ == options_text(options_view(options@)),
{
    let mut parts: Vec<String> = Vec::new();
    let mut i: usize = 0;
    while i < options.len()
        invariant
            i <= options@.len(),
            strings_view(parts@) == options_view(options@).take(i as int).map_values(
                |o: ValueOptionModel| option_pair(o),
            ),
        decreases options@.len() - i,
    {
        let mut part = owned(options[i].label);
        part.append("=");
        part.append(decimal_string(options[i].value as u64).as_str());
        push_line(&mut parts, part);
        assert(options_view(options@).take(i + 1) =~= options_view(options@).take(i as int).push(options@[i as int]@));
        assert(strings_view(parts@) =~= options_view(options@).take(i + 1).map_values(
            |o: ValueOptionModel| option_pair(o),
        ));
        i = i + 1;
    }
    assert(options_view(options@).take(options@.len() as int) =~= options_view(options@));
    assert(strings_view(parts@) == parts@.map_values(|p: String| p@));
    join_strings(&parts, ", ")
}

fn feature_lines(f: &'static FeatureSpec) -> (r: Vec<String>)
    ensures
        strings_view(r@) == spec_feature_lines(f@),
{
    let mut lines: Vec<String> = Vec::new();
    let mut first = owned("  ");
    first.append(f.name);
    first.append(" ");
    first.append(hex_code_string(f.code as u64).as_str());
    first.append(" writable=");
    first.append(if f.writable { "true" } else { "false" });
    push_line(&mut lines, first);
    let ghost l1 = strings_view(lines@);
    if f.value_options.len() > 0 {
        push_line(&mut lines, cat2("    values: ", options_text_exec(f.value_options).as_str()));
    }
    let ghost l2 = strings_view(lines@);
    assert(l2 =~= l1 + (if f@.value_options.len() > 0 {
        seq!["    values: "@ + options_text(f@.value_options)]
    } else {
        Seq::<Seq<char>>::empty()
    }));
    let write_values = write_options(f);
    if write_values.len() > 0 && (f.value_options.len() == 0 || !options_equal(f.write_options, f.value_options)) {
        push_line(&mut lines, cat2("    write_values: ", options_text_exec(write_values).as_str()));
    }
    assert(strings_view(lines@) =~= spec_feature_lines(f@));
    lines
}

fn codes_text_exec(codes: &'static [u8]) -> (r: String)
    ensures
        r@ == codes_text(codes@),
{
    let mut parts: Vec<String> = Vec::new();
    let mut i: usize = 0;
    while i < codes.len()
        invariant
            i <= codes@.len(),
            strings_view(parts@) == codes@.take(i as int).map_values(|c: u8| hex_code(c as nat)),
        decreases codes@.len() - i,
    {
        push_line(&mut parts, hex_code_string(codes[i] as u64));
        assert(codes@.take(i + 1) =~= codes@.take(i as int).push(codes@[i as int]));
        assert(strings_view(parts@) =~= codes@.take(i + 1).map_values(|c: u8| hex_code(c as nat)));
        i = i + 1;
    }
    assert(codes@.take(codes@.len() as int) =~= codes@);
    assert(strings_view(parts@) == parts@.map_values(|p: String| p@));
    join_strings(&parts, " ")
}

/// The lines that `profile` prints for one display (see [`spec_profile_lines`]).
pub fn profile_lines(
    display: usize,
    controller: &str,
    description: &str,
    model: Option<&str>,
    profile: Option<&'static MonitorProfile>,
) -> (r: Vec<String>)
    ensures
        strings_view(r@) == spec_profile_lines(
            display,
            controller@,
            description@,
            str_opt_view(model),
            profile_opt_view(profile),
        ),
{
    let mut lines: Vec<String> = Vec::new();
    push_line(&mut lines, cat2("display=", decimal_string(display as u64).as_str()));
    push_line(&mut lines, cat2("controller=", controller));
    push_line(&mut lines, cat2("description=", description));
    let ghost l0 = strings_view(lines@);
    assert(l0 =~= seq!["display="@ + decimal(display as nat), "controller="@ + controller@, "description="@ + description@]);
    push_opt(&mut lines, "model=", model);
    let key = match profile {
        Some(p) => p.key,
        None => "generic",
    };
    push_line(&mut lines, cat2("profile_key=", key));
    push_line(&mut lines, owned("controls:"));
    let ghost l1 = strings_view(lines@);
    let features = controls_for(profile);
    let ghost fv = spec_controls_for(profile_opt_view(profile));
    let mut i: usize = 0;
    while i < features.len()
        invariant
            i <= features@.len(),
            fv == spec_controls_for(profile_opt_view(profile)),
            fv == features@.map_values(|f: FeatureSpec| f@),
            strings_view(lines@) == l1 + features_lines(fv.take(i as int)),
        decreases features@.len() - i,
    {
        let ghost before = strings_view(lines@);
        append_lines(&mut lines, feature_lines(&features[i]));
        assert(fv.take(i + 1).drop_last() =~= fv.take(i as int));
        assert(fv.take(i + 1).last() == features@[i as int]@);
        assert(strings_view(lines@) =~= l1 + features_lines(fv.take(i + 1)));
        i = i + 1;
    }
    assert(fv.take(features@.len() as int) =~= fv);
    let ghost l2 = strings_view(lines@);
    let observed = observed_codes(profile);
    if observed.len() > 0 {
        push_line(&mut lines, cat2("observed_readable_codes=", codes_text_exec(observed).as_str()));
    }
    assert(strings_view(lines@) =~= spec_profile_lines(
        display,
        controller@,
        description@,
        str_opt_view(model),
        profile_opt_view(profile),
    ));
    lines
}

// ---------------------------------------------------------------------
// scan
// ---------------------------------------------------------------------

pub open spec fn invalid_range_message(start: u8, end: u8) -> Seq<char> {
    "Invalid scan range: start "@ + hex_code(start as nat) + " is greater than end "@ + hex_code(end as nat) + "."@
}

/// A scan range is refused when it starts after it ends.
pub fn check_scan_range(start: u8, end: u8) -> (r: Result<(), String>)
    ensures
        start <= end ==> r is Ok,
        start > end ==> r is Err && r->Err_0@ == invalid_range_message(start, end),
{
    if start > end {
        let mut message = owned("Invalid scan range: start ");
        message.append(hex_code_string(start as u64).as_str());
        message.append(" is greater than end ");
        message.append(hex_code_string(end as u64).as_str());
        message.append(".");
        return Err(message);
    }
    Ok(())
}

/// What `scan` prints before probing a display.
pub open spec fn spec_scan_header(display: usize, controller: Seq<char>, start: u8, end: u8, timeout_ms: u64) -> Seq<Seq<char>> {
    seq![
        "display="@ + decimal(display as nat),
        "controller="@ + controller,
        "scan_range="@ + hex_code(start as nat) + "-"@ + hex_code(end as nat),
        "timeout_ms="@ + decimal(timeout_ms as nat),
    ]
}

/// The lines that `scan` prints before probing a display.
pub fn scan_header_lines(display: usize, controller: &str, start: u8, end: u8, timeout_ms: u64) -> (r: Vec<String>)
    ensures
        strings_view(r@) == spec_scan_header(display, controller@, start, end, timeout_ms),
{
    let mut lines: Vec<String> = Vec::new();
    push_line(&mut lines, cat2("display=", decimal_string(display as u64).as_str()));
    push_line(&mut lines, cat2("controller=", controller));
    let mut range = owned("scan_range=");
    range.append(hex_code_string(start as u64).as_str());
    range.append("-");
    range.append(hex_code_string(end as u64).as_str());
    push_line(&mut lines, range);
    push_line(&mut lines, cat2("timeout_ms=", decimal_string(timeout_ms).as_str()));
    assert(strings_view(lines@) =~= spec_scan_header(display, controller@, start, end, timeout_ms));
    lines
}

pub open spec fn or_text(v: Option<Seq<char>>, fallback: Seq<char>) -> Seq<char> {
    match v {
        Some(t) => t,
        None => fallback,
    }
}

/// The feature that `scan` consults for labels: what the code resolves to.
pub open spec fn scanned_spec(p: Option<ProfileModel>, code: u8) -> Option<FeatureModel> {
    match spec_resolve_feature(p, hex_code(code as nat)) {
        Ok(m) => m.spec,
        Err(_) => None,
    }
}

/// The first line that `scan` prints of a readable code.
pub open spec fn scan_first_line(p: Option<ProfileModel>, code: u8, r: ProbeModel) -> Seq<char> {
    let prefix = hex_code(code as nat);
    let name = spec_feature_name(p, code);
    let label = match r.current_label {
        Some(l) => Some(l),
        None => spec_value_label(scanned_spec(p, code), r.current),
    };
    match label {
        Some(l) => prefix + " name="@ + name + " current="@ + decimal(r.current as nat) + " current_label="@ + l
            + " maximum="@ + decimal(r.maximum as nat),
        None => prefix + " name="@ + name + " current="@ + decimal(r.current as nat) + " maximum="@ + decimal(
            r.maximum as nat,
        ),
    }
}

pub open spec fn scan_decoded_lines(prefix: Seq<char>, r: ProbeModel) -> Seq<Seq<char>> {
    match r.decoded_current {
        Some(d) => {
            let source = or_text(r.decoded_current_source, "heuristic"@);
            seq![
                match r.decoded_current_label {
                    Some(l) => prefix + " decoded_current="@ + decimal(d as nat) + " decoded_label="@ + l + " source="@
                        + source,
                    None => prefix + " decoded_current="@ + decimal(d as nat) + " source="@ + source,
                },
            ]
        },
        None => Seq::empty(),
    }
}

pub open spec fn scan_writeback_lines(prefix: Seq<char>, r: ProbeModel) -> Seq<Seq<char>> {
    match r.writeback_value {
        Some(v) => {
            let source = or_text(r.writeback_source, "unknown"@);
            seq![
                match r.writeback_label {
                    Some(l) => prefix + " writeback_value="@ + decimal(v as nat) + " writeback_label="@ + l + " source="@
                        + source + " safe="@ + bool_text(r.writeback_safe),
                    None => prefix + " writeback_value="@ + decimal(v as nat) + " source="@ + source + " safe="@
                        + bool_text(r.writeback_safe),
                },
            ]
        },
        None => Seq::empty(),
    }
}

/// What `scan` prints of a code that a probe could read.
pub open spec fn spec_scan_entry(p: Option<ProfileModel>, code: u8, r: ProbeModel) -> Seq<Seq<char>> {
    let prefix = hex_code(code as nat);
    seq![scan_first_line(p, code, r)] + opt_line(prefix + " current_hex="@, r.current_hex) + opt_line(
        prefix + " current_high_byte="@,
        opt_decimal(r.current_high_byte),
    ) + opt_line(prefix + " current_low_byte="@, opt_decimal(r.current_low_byte)) + scan_decoded_lines(
        prefix,
        r,
    ) + scan_writeback_lines(prefix, r) + opt_line(prefix + " writeback_reason="@, r.writeback_reason)
}

/// The line that `scan` prints of a code's writeback starts with the code
/// and the writeback value, and ends with the probe's safety verdict as the
/// probe reported it: `safe=true` exactly when the probe said so, whether
/// or not the writeback has a label.
pub proof fn law_scan_reports_writeback_safety(p: Option<ProfileModel>, code: u8, r: ProbeModel)
    requires
        r.writeback_value is Some,
    ensures
        ({
            let e = spec_scan_entry(p, code, r);
            let head = hex_code(code as nat) + " writeback_value="@ + decimal(r.writeback_value->0 as nat);
            let tail = if r.writeback_safe {
                " safe=true"@
            } else {
                " safe=false"@
            };
            exists|i: int|
                0 <= i < e.len() && (#[trigger] e[i]).len() >= head.len() + tail.len() && e[i].subrange(
                    0,
                    head.len() as int,
                ) == head && e[i].subrange(e[i].len() - tail.len(), e[i].len() as int) == tail
        }),
{
    reveal_strlit(" safe=");
    reveal_strlit("true");
    reveal_strlit("false");
    reveal_strlit(" safe=true");
    reveal_strlit(" safe=false");
    let prefix = hex_code(code as nat);
    let v = r.writeback_value->0;
    let source = or_text(r.writeback_source, "unknown"@);
    let head = prefix + " writeback_value="@ + decimal(v as nat);
    let tail = if r.writeback_safe {
        " safe=true"@
    } else {
        " safe=false"@
    };
    assert(" safe="@ + bool_text(r.writeback_safe) =~= tail);
    let mid = match r.writeback_label {
        Some(l) => " writeback_label="@ + l + " source="@ + source,
        None => " source="@ + source,
    };
    let line = scan_writeback_lines(prefix, r)[0];
    assert(line =~= head + mid + tail);
    let pre = seq![scan_first_line(p, code, r)] + opt_line(prefix + " current_hex="@, r.current_hex) + opt_line(
        prefix + " current_high_byte="@,
        opt_decimal(r.current_high_byte),
    ) + opt_line(prefix + " current_low_byte="@, opt_decimal(r.current_low_byte)) + scan_decoded_lines(prefix, r);
    let e = spec_scan_entry(p, code, r);
    assert(scan_writeback_lines(prefix, r) =~= seq![line]);
    assert(e =~= pre + seq![line] + opt_line(prefix + " writeback_reason="@, r.writeback_reason));
    let i = pre.len() as int;
    assert(e[i] == line);
    assert(line.subrange(0, head.len() as int) =~= head);
    assert(line.subrange(line.len() - tail.len(), line.len() as int) =~= tail);
}

fn push_opt_string(lines: &mut Vec<String>, key: &String, value: &Option<String>)
    ensures
        strings_view(final(lines)@) == strings_view(old(lines)@) + opt_line(key@, string_opt_view(*value)),
{
    push_opt(lines, key.as_str(), opt_str(value));
}

fn str_or<'a>(v: &'a Option<String>, fallback: &'static str) -> (r: &'a str)
    ensures
        r@ == or_text(string_opt_view(*v), fallback@),
{
    match v {
        Some(t) => t.as_str(),
        None => fallback,
    }
}

fn scan_first_line_exec(profile: Option<&'static MonitorProfile>, code: u8, result: &ProbeResult) -> (r: String)
    ensures
        r@ == scan_first_line(profile_opt_view(profile), code, result@),
{
    let prefix = hex_code_string(code as u64);
    let resolved_name = feature_name(profile, code);
    let resolved_spec = match resolve_feature(profile, prefix.as_str()) {
        Ok(feature) => feature.spec,
        Err(_) => None,
    };
    let label: Option<String> = match &result.current_label {
        Some(l) => Some(l.clone()),
        None => match value_label(resolved_spec, result.current) {
            Some(l) => Some(owned(l)),
            None => None,
        },
    };
    let mut line = prefix.clone();
    line.append(" name=");
    line.append(resolved_name);
    line.append(" current=");
    line.append(decimal_string(result.current as u64).as_str());
    if let Some(l) = &label {
        line.append(" current_label=");
        line.append(l.as_str());
    }
    line.append(" maximum=");
    line.append(decimal_string(result.maximum as u64).as_str());
    line
}

/// The lines that `scan` prints of a code that a probe could read.
pub fn scan_entry_lines(profile: Option<&'static MonitorProfile>, code: u8, result: &ProbeResult) -> (r: Vec<String>)
    ensures
        strings_view(r@) == spec_scan_entry(profile_opt_view(profile), code, result@),
{
    let prefix = hex_code_string(code as u64);
    let mut lines: Vec<String> = Vec::new();
    push_line(&mut lines, scan_first_line_exec(profile, code, result));
    push_opt_string(&mut lines, &cat2(prefix.as_str(), " current_hex="), &result.current_hex);
    push_opt_string(&mut lines, &cat2(prefix.as_str(), " current_high_byte="), &decimal_opt(result.current_high_byte));
    push_opt_string(&mut lines, &cat2(prefix.as_str(), " current_low_byte="), &decimal_opt(result.current_low_byte));
    let ghost l3 = strings_view(lines@);
    if let Some(decoded_current) = result.decoded_current {
        let source = str_or(&result.decoded_current_source, "heuristic");
        let mut line = prefix.clone();
        line.append(" decoded_current=");
        line.append(decimal_string(decoded_current as u64).as_str());
        if let Some(l) = &result.decoded_current_label {
            line.append(" decoded_label=");
            line.append(l.as_str());
        }
        line.append(" source=");
        line.append(source);
        push_line(&mut lines, line);
    }
    assert(strings_view(lines@) =~= l3 + scan_decoded_lines(prefix@, result@));
    let ghost l4 = strings_view(lines@);
    if let Some(writeback_value) = result.writeback_value {
        let source = str_or(&result.writeback_source, "unknown");
        let mut line = prefix.clone();
        line.append(" writeback_value=");
        line.append(decimal_string(writeback_value as u64).as_str());
        if let Some(l) = &result.writeback_label {
            line.append(" writeback_label=");
            line.append(l.as_str());
        }
        line.append(" source=");
        line.append(source);
        line.append(" safe=");
        line.append(if result.writeback_safe { "true" } else { "false" });
        push_line(&mut lines, line);
    }
    assert(strings_view(lines@) =~= l4 + scan_writeback_lines(prefix@, result@));
    push_opt_string(&mut lines, &cat2(prefix.as_str(), " writeback_reason="), &result.writeback_reason);
    assert(strings_view(lines@) =~= spec_scan_entry(profile_opt_view(profile), code, result@));
    lines
}

/// What `scan` prints of a code that could not be read: the error, when
/// failures are shown.
pub open spec fn spec_scan_failure(code: u8, error: Seq<char>, show_failures: bool) -> Seq<Seq<char>> {
    if show_failures {
        seq![hex_code(code as nat) + " error="@ + error]
    } else {
        Seq::empty()
    }
}

/// The lines that `scan` prints of a code that could not be read.
pub fn scan_failure_lines(code: u8, error: &str, show_failures: bool) -> (r: Vec<String>)
    ensures
        strings_view(r@) == spec_scan_failure(code, error@, show_failures),
{
    let mut lines: Vec<String> = Vec::new();
    if show_failures {
        let mut line = hex_code_string(code as u64);
        line.append(" error=");
        line.append(error);
        push_line(&mut lines, line);
    }
    assert(strings_view(lines@) =~= spec_scan_failure(code, error@, show_failures));
    lines
}

/// The counts with which `scan` ends a display.
pub open spec fn spec_scan_footer(readable: nat, failures: nat) -> Seq<Seq<char>> {
    seq!["readable="@ + decimal(readable), "unreadable="@ + decimal(failures)]
}

/// The lines with which `scan` ends a display.
pub fn scan_footer_lines(readable: usize, failures: usize) -> (r: Vec<String>)
    ensures
        strings_view(r@) == spec_scan_footer(readable as nat, failures as nat),
{
    let mut lines: Vec<String> = Vec::new();
    push_line(&mut lines, cat2("readable=", decimal_string(readable as u64).as_str()));
    push_line(&mut lines, cat2("unreadable=", decimal_string(failures as u64).as_str()));
    assert(strings_view(lines@) =~= spec_scan_footer(readable as nat, failures as nat));
    lines
}

// ---------------------------------------------------------------------
// A scan over one display
// ---------------------------------------------------------------------

/// A scan in progress over one display: the range, the next code to
/// probe, and how many codes could and could not be read so far.
pub struct ScanRun {
    start: u8,
    end: u8,
    next: u16,
    readable: usize,
    failures: usize,
    show_failures: bool,
}

/// The model of a [`ScanRun`].
pub struct ScanModel {
    pub start: u8,
    pub end: u8,
    /// The next code to probe; one past `end` once the range is done.
    pub next: nat,
    pub readable: nat,
    pub failures: nat,
    pub show_failures: bool,
}

impl View for ScanRun {
    type V = ScanModel;

    closed spec fn view(&self) -> ScanModel {
        ScanModel {
            start: self.start,
            end: self.end,
            next: self.next as nat,
            readable: self.readable as nat,
            failures: self.failures as nat,
            show_failures: self.show_failures,
        }
    }
}

/// The outcome of probing one code: its report, or why it could not be read.
pub open spec fn outcome_lines(p: Option<ProfileModel>, code: u8, outcome: Result<ProbeModel, Seq<char>>, show_failures: bool) -> Seq<Seq<char>> {
    match outcome {
        Ok(r) => spec_scan_entry(p, code, r),
        Err(e) => spec_scan_failure(code, e, show_failures),
    }
}

pub open spec fn outcome_view(outcome: Result<ProbeResult, String>) -> Result<ProbeModel, Seq<char>> {
    match outcome {
        Ok(r) => Ok(r@),
        Err(e) => Err(e@),
    }
}

/// A scan's state is consistent: the range is in order, the next code lies
/// in it or just past it, and every code before the next one was counted
/// once.
pub open spec fn scan_consistent(m: ScanModel) -> bool {
    &&& m.start <= m.end
    &&& m.start <= m.next <= m.end + 1
    &&& m.readable + m.failures == m.next - m.start
}

impl ScanRun {
    #[verifier::type_invariant]
    spec fn consistent(self) -> bool {
        scan_consistent(self@)
    }

    /// A scan of `start..=end` that has probed nothing yet.
    pub fn new(start: u8, end: u8, show_failures: bool) -> (r: ScanRun)
        requires
            start <= end,
        ensures
            r@ == (ScanModel { start, end, next: start as nat, readable: 0, failures: 0, show_failures }),
            scan_consistent(r@),
    {
        ScanRun { start, end, next: start as u16, readable: 0, failures: 0, show_failures }
    }

    /// The code to probe next, or nothing once the range is done.
    pub fn next_code(&self) -> (r: Option<u8>)
        ensures
            scan_consistent(self@),
            self@.next <= self@.end ==> r == Some(self@.next as u8),
            self@.next > self@.end ==> r is None,
    {
        proof {
            use_type_invariant(self);
        }
        if self.next <= self.end as u16 {
            Some(self.next as u8)
        } else {
            None
        }
    }

    /// Counts the outcome of probing the next code and gives the lines that
    /// report it.
    pub fn record(&mut self, profile: Option<&'static MonitorProfile>, outcome: &Result<ProbeResult, String>) -> (r: Vec<
        String,
    >)
        requires
            old(self)@.next <= old(self)@.end,
        ensures
            scan_consistent(final(self)@),
            final(self)@.start == old(self)@.start,
            final(self)@.end == old(self)@.end,
            final(self)@.show_failures == old(self)@.show_failures,
            final(self)@.next == old(self)@.next + 1,
            outcome is Ok ==> final(self)@.readable == old(self)@.readable + 1 && final(self)@.failures == old(
                self,
            )@.failures,
            outcome is Err ==> final(self)@.readable == old(self)@.readable && final(self)@.failures == old(
                self,
            )@.failures + 1,
            strings_view(r@) == outcome_lines(
                profile_opt_view(profile),
                old(self)@.next as u8,
                outcome_view(*outcome),
                old(self)@.show_failures,
            ),
    {
        proof {
            use_type_invariant(&*self);
        }
        let code = self.next as u8;
        let mut readable = self.readable;
        let mut failures = self.failures;
        let lines = match outcome {
            Ok(result) => {
                readable = readable + 1;
                scan_entry_lines(profile, code, result)
            },
            Err(error) => {
                failures = failures + 1;
                scan_failure_lines(code, error.as_str(), self.show_failures)
            },
        };
        *self = ScanRun {
            start: self.start,
            end: self.end,
            next: self.next + 1,
            readable,
            failures,
            show_failures: self.show_failures,
        };
        proof {
            use_type_invariant(&*self);
        }
        lines
    }

    /// The counts with which the scan of the display ends.
    pub fn footer_lines(&self) -> (r: Vec<String>)
        ensures
            strings_view(r@) == spec_scan_footer(self@.readable, self@.failures),
    {
        scan_footer_lines(self.readable, self.failures)
    }
}

/// A scan that went through its whole range has counted every code of it
/// once, as readable or as unreadable.
pub proof fn law_scan_counts_every_code(m: ScanModel)
    requires
        scan_consistent(m),
        m.next > m.end,
    ensures
        m.readable + m.failures == m.end - m.start + 1,
{
}

} // verus!
