//! Monitor profiles and VCP feature lookup: which features a monitor
//! offers, how a feature or a value is named on the command line, and how
//! a read value is labelled.

use vstd::prelude::*;

use crate::tables::{generic_feature_models, generic_features, profile_models, profiles};
use crate::text::{
    chars_eq, chars_eq_ignore_case, chars_of, contains, contains_chars, decimal, eq_ignore_case, trim_chars,
    hex_code, hex_code_string, lemma_hex_code_parses, lemma_normalized_idempotent, lower, normalize,
    normalized, owned, parse_number, parse_number_str, trim, lemma_eq_ignore_case_normalized,
};

verus! {

/// One named value of a VCP feature.
#[derive(Clone, Copy, Debug)]
pub struct ValueOption {
    pub value: u16,
    pub label: &'static str,
    pub aliases: &'static [&'static str],
}

/// A VCP feature that a monitor offers.
#[derive(Clone, Copy, Debug)]
pub struct FeatureSpec {
    pub code: u8,
    pub name: &'static str,
    pub aliases: &'static [&'static str],
    pub writable: bool,
    pub value_options: &'static [ValueOption],
    pub write_options: &'static [ValueOption],
}

/// A model-specific controller.
#[derive(Clone, Copy, Debug)]
pub struct MonitorProfile {
    pub key: &'static str,
    pub name: &'static str,
    pub matchers: &'static [&'static str],
    pub features: &'static [FeatureSpec],
    pub observed_readable_codes: &'static [u8],
}

/// A feature argument resolved to a VCP code.
#[derive(Clone, Debug)]
pub struct ResolvedFeature {
    pub code: u8,
    pub name: String,
    pub spec: Option<&'static FeatureSpec>,
}

/// What a monitor reports about itself, as profile detection reads it.
#[derive(Debug)]
pub struct MonitorIdentity {
    pub model_name: Option<String>,
    pub manufacturer_id: Option<String>,
    pub id: String,
}

/// The model of a [`MonitorIdentity`].
#[verifier::ext_equal]
pub struct IdentityModel {
    pub model_name: Option<Seq<char>>,
    pub manufacturer_id: Option<Seq<char>>,
    pub id: Seq<char>,
}

pub open spec fn string_opt_view(s: Option<String>) -> Option<Seq<char>> {
    match s {
        Some(s) => Some(s@),
        None => None,
    }
}

impl View for MonitorIdentity {
    type V = IdentityModel;

    open spec fn view(&self) -> IdentityModel {
        IdentityModel {
            model_name: string_opt_view(self.model_name),
            manufacturer_id: string_opt_view(self.manufacturer_id),
            id: self.id@,
        }
    }
}

/// The model of a [`ValueOption`].
#[verifier::ext_equal]
pub struct ValueOptionModel {
    pub value: u16,
    pub label: Seq<char>,
    pub aliases: Seq<Seq<char>>,
}

/// The model of a [`FeatureSpec`].
#[verifier::ext_equal]
pub struct FeatureModel {
    pub code: u8,
    pub name: Seq<char>,
    pub aliases: Seq<Seq<char>>,
    pub writable: bool,
    pub value_options: Seq<ValueOptionModel>,
    pub write_options: Seq<ValueOptionModel>,
}

/// The model of a [`MonitorProfile`].
#[verifier::ext_equal]
pub struct ProfileModel {
    pub key: Seq<char>,
    pub name: Seq<char>,
    pub matchers: Seq<Seq<char>>,
    pub features: Seq<FeatureModel>,
    pub observed_readable_codes: Seq<u8>,
}

/// The model of a [`ResolvedFeature`].
#[verifier::ext_equal]
pub struct ResolvedModel {
    pub code: u8,
    pub name: Seq<char>,
    pub spec: Option<FeatureModel>,
}

pub open spec fn strs_view(s: Seq<&'static str>) -> Seq<Seq<char>> {
    s.map_values(|x: &'static str| x@)
}

pub open spec fn options_view(s: Seq<ValueOption>) -> Seq<ValueOptionModel> {
    s.map_values(|o: ValueOption| o@)
}

pub open spec fn features_view(s: Seq<FeatureSpec>) -> Seq<FeatureModel> {
    s.map_values(|f: FeatureSpec| f@)
}

pub open spec fn profiles_view(s: Seq<MonitorProfile>) -> Seq<ProfileModel> {
    s.map_values(|p: MonitorProfile| p@)
}

impl View for ValueOption {
    type V = ValueOptionModel;

    open spec fn view(&self) -> ValueOptionModel {
        ValueOptionModel { value: self.value, label: self.label@, aliases: strs_view(self.aliases@) }
    }
}

impl View for FeatureSpec {
    type V = FeatureModel;

    open spec fn view(&self) -> FeatureModel {
        FeatureModel {
            code: self.code,
            name: self.name@,
            aliases: strs_view(self.aliases@),
            writable: self.writable,
            value_options: options_view(self.value_options@),
            write_options: options_view(self.write_options@),
        }
    }
}

impl View for MonitorProfile {
    type V = ProfileModel;

    open spec fn view(&self) -> ProfileModel {
        ProfileModel {
            key: self.key@,
            name: self.name@,
            matchers: strs_view(self.matchers@),
            features: features_view(self.features@),
            observed_readable_codes: self.observed_readable_codes@,
        }
    }
}

pub open spec fn feature_opt_view(f: Option<&FeatureSpec>) -> Option<FeatureModel> {
    match f {
        Some(f) => Some(f@),
        None => None,
    }
}

pub open spec fn profile_opt_view(p: Option<&MonitorProfile>) -> Option<ProfileModel> {
    match p {
        Some(p) => Some(p@),
        None => None,
    }
}

impl View for ResolvedFeature {
    type V = ResolvedModel;

    open spec fn view(&self) -> ResolvedModel {
        ResolvedModel { code: self.code, name: self.name@, spec: feature_opt_view(self.spec) }
    }
}


// ---------------------------------------------------------------------
// Lookup specifications
// ---------------------------------------------------------------------

/// The first element of `s` that satisfies `p`.
pub open spec fn first_match<T>(s: Seq<T>, p: spec_fn(T) -> bool) -> Option<T>
    decreases s.len(),
{
    if s.len() == 0 {
        None
    } else if p(s[0]) {
        Some(s[0])
    } else {
        first_match(s.drop_first(), p)
    }
}

/// The first element of `s` that satisfies `p`, else the first of `t`.
pub open spec fn first_match_or<T>(s: Seq<T>, t: Seq<T>, p: spec_fn(T) -> bool) -> Option<T> {
    match first_match(s, p) {
        Some(x) => Some(x),
        None => first_match(t, p),
    }
}

/// Some name of `names` normalizes to `key`.
pub open spec fn any_normalized(names: Seq<Seq<char>>, key: Seq<char>) -> bool {
    exists|i: int| 0 <= i < names.len() && normalized(names[i]) == key
}

/// The feature is called `key` (already normalized) by its name or an alias.
pub open spec fn feature_named(f: FeatureModel, key: Seq<char>) -> bool {
    normalized(f.name) == key || any_normalized(f.aliases, key)
}

/// The option is what `input` asks for: its label up to ASCII case, or an
/// alias up to trimming and ASCII case.
pub open spec fn option_named(o: ValueOptionModel, input: Seq<char>) -> bool {
    eq_ignore_case(o.label, input) || any_normalized(o.aliases, normalized(input))
}

/// The options offered for writing: the write table, or the read table
/// when the write table is empty.
pub open spec fn spec_write_options(f: FeatureModel) -> Seq<ValueOptionModel> {
    if f.write_options.len() == 0 {
        f.value_options
    } else {
        f.write_options
    }
}

/// The features that a monitor with this profile offers.
pub open spec fn spec_controls_for(p: Option<ProfileModel>) -> Seq<FeatureModel> {
    match p {
        Some(p) => p.features,
        None => generic_feature_models(),
    }
}

/// The VCP codes observed readable on a monitor with this profile.
pub open spec fn spec_observed_codes(p: Option<ProfileModel>) -> Seq<u8> {
    match p {
        Some(p) => p.observed_readable_codes,
        None => Seq::empty(),
    }
}

/// The feature of the profile, else of the generic table, with this code.
pub open spec fn feature_by_code(p: Option<ProfileModel>, code: u8) -> Option<FeatureModel> {
    first_match_or(spec_controls_for(p), generic_feature_models(), |f: FeatureModel| f.code == code)
}

/// The feature of the profile, else of the generic table, called `key`.
pub open spec fn feature_by_name(p: Option<ProfileModel>, key: Seq<char>) -> Option<FeatureModel> {
    first_match_or(spec_controls_for(p), generic_feature_models(), |f: FeatureModel| feature_named(f, key))
}

pub open spec fn unsupported_feature_message(input: Seq<char>) -> Seq<char> {
    "Unsupported feature: "@ + input + ". Use a known alias or a VCP code such as 0x10."@
}

pub open spec fn invalid_value_message(input: Seq<char>) -> Seq<char> {
    "Invalid value: "@ + input + ". Use decimal, hex, or a known profile alias."@
}

/// What `resolve_feature` gives for a feature argument: a named feature of
/// the profile or the generic table, else a VCP code in decimal or `0x` hex.
pub open spec fn spec_resolve_feature(p: Option<ProfileModel>, input: Seq<char>) -> Result<ResolvedModel, Seq<char>> {
    match feature_by_name(p, normalized(input)) {
        Some(f) => Ok(ResolvedModel { code: f.code, name: f.name, spec: Some(f) }),
        None => match parse_number(input, 0xFF) {
            None => Err(unsupported_feature_message(input)),
            Some(c) => {
                let spec = feature_by_code(p, c as u8);
                Ok(ResolvedModel {
                    code: c as u8,
                    name: match spec {
                        Some(f) => f.name,
                        None => hex_code(c),
                    },
                    spec,
                })
            },
        },
    }
}

/// What `resolve_value` gives for a value argument: the value of a named
/// write option, else a number in decimal or `0x` hex.
pub open spec fn spec_resolve_value(spec: Option<FeatureModel>, input: Seq<char>) -> Result<u16, Seq<char>> {
    let named = match spec {
        Some(f) => first_match(spec_write_options(f), |o: ValueOptionModel| option_named(o, input)),
        None => None,
    };
    match named {
        Some(o) => Ok(o.value),
        None => match parse_number(input, 0xFFFF) {
            Some(v) => Ok(v as u16),
            None => Err(invalid_value_message(input)),
        },
    }
}

/// The label of the first option in `options` with this value.
pub open spec fn label_in(options: Seq<ValueOptionModel>, value: u16) -> Option<Seq<char>> {
    match first_match(options, |o: ValueOptionModel| o.value == value) {
        Some(o) => Some(o.label),
        None => None,
    }
}

/// The read label of a value.
pub open spec fn spec_value_label(spec: Option<FeatureModel>, value: u16) -> Option<Seq<char>> {
    match spec {
        Some(f) => label_in(f.value_options, value),
        None => None,
    }
}

/// The write label of a value.
pub open spec fn spec_write_value_label(spec: Option<FeatureModel>, value: u16) -> Option<Seq<char>> {
    match spec {
        Some(f) => label_in(spec_write_options(f), value),
        None => None,
    }
}

/// The name under which a VCP code is shown.
pub open spec fn spec_feature_name(p: Option<ProfileModel>, code: u8) -> Seq<char> {
    match feature_by_code(p, code) {
        Some(f) => f.name,
        None => "unknown"@,
    }
}

/// The profile is called `key` (already normalized) by its key, its name or
/// one of its matchers.
pub open spec fn profile_named(p: ProfileModel, key: Seq<char>) -> bool {
    normalized(p.key) == key || normalized(p.name) == key || any_normalized(p.matchers, key)
}

/// The profile that a `MONITOR_PROFILE` override names.
pub open spec fn spec_find_profile_by_override(input: Seq<char>) -> Option<ProfileModel> {
    first_match(profile_models(), |p: ProfileModel| profile_named(p, normalized(input)))
}

pub open spec fn or_empty(s: Option<Seq<char>>) -> Seq<char> {
    match s {
        Some(s) => s,
        None => Seq::empty(),
    }
}

/// The normalized texts in which a profile's matchers are looked for.
pub open spec fn haystacks(info: IdentityModel) -> Seq<Seq<char>> {
    seq![normalized(or_empty(info.model_name)), normalized(or_empty(info.manufacturer_id)), normalized(info.id)]
}

/// Some matcher of the profile occurs in one of the haystacks.
pub open spec fn profile_matches(p: ProfileModel, hs: Seq<Seq<char>>) -> bool {
    exists|m: int, h: int|
        0 <= m < p.matchers.len() && 0 <= h < hs.len() && contains(hs[h], normalized(p.matchers[m]))
}

/// The profile of a monitor: the one that a non-blank override names, else
/// the first whose matcher occurs in the monitor's model name, manufacturer
/// or identifier.
pub open spec fn spec_detect_profile(override_value: Option<Seq<char>>, info: IdentityModel) -> Option<ProfileModel> {
    let chosen = match override_value {
        Some(v) => if trim(v).len() > 0 {
            spec_find_profile_by_override(v)
        } else {
            None
        },
        None => None,
    };
    match chosen {
        Some(p) => Some(p),
        None => first_match(profile_models(), |p: ProfileModel| profile_matches(p, haystacks(info))),
    }
}

pub open spec fn spec_controller_name(override_value: Option<Seq<char>>, info: IdentityModel) -> Seq<char> {
    match spec_detect_profile(override_value, info) {
        Some(p) => p.name,
        None => "Generic DDC/CI"@,
    }
}

/// How a resolved feature is shown: its name and its code in hex.
pub open spec fn spec_feature_title(m: ResolvedModel) -> Seq<char> {
    m.name + " ("@ + hex_code(m.code as nat) + ")"@
}

pub open spec fn str_opt_view(s: Option<&str>) -> Option<Seq<char>> {
    match s {
        Some(s) => Some(s@),
        None => None,
    }
}

// ---------------------------------------------------------------------
// Lemmas on first_match
// ---------------------------------------------------------------------

/// An element that fails `p` does not change what the search from it finds.
pub proof fn lemma_first_match_skip<T>(s: Seq<T>, p: spec_fn(T) -> bool, i: int)
    requires
        0 <= i < s.len(),
        !p(s[i]),
    ensures
        first_match(s.skip(i), p) == first_match(s.skip(i + 1), p),
{
    assert(s.skip(i).drop_first() =~= s.skip(i + 1));
    assert(s.skip(i)[0] == s[i]);
}

/// The search from an element that satisfies `p` finds that element.
pub proof fn lemma_first_match_hit<T>(s: Seq<T>, p: spec_fn(T) -> bool, i: int)
    requires
        0 <= i < s.len(),
        p(s[i]),
    ensures
        first_match(s.skip(i), p) == Some(s[i]),
{
    assert(s.skip(i)[0] == s[i]);
}

/// The search from the start is the whole search; from the end it finds nothing.
pub proof fn lemma_first_match_ends<T>(s: Seq<T>, p: spec_fn(T) -> bool)
    ensures
        first_match(s.skip(0), p) == first_match(s, p),
        first_match(s.skip(s.len() as int), p) is None,
{
    assert(s.skip(0) =~= s);
    assert(s.skip(s.len() as int) =~= Seq::<T>::empty());
}

/// When no element satisfies `p`, `first_match` finds nothing.
pub proof fn lemma_first_match_none<T>(s: Seq<T>, p: spec_fn(T) -> bool)
    requires
        forall|j: int| 0 <= j < s.len() ==> !p(#[trigger] s[j]),
    ensures
        first_match(s, p) is None,
    decreases s.len(),
{
    if s.len() > 0 {
        assert(!p(s[0]));
        assert forall|j: int| 0 <= j < s.drop_first().len() implies !p(#[trigger] s.drop_first()[j]) by {
            assert(s.drop_first()[j] == s[j + 1]);
        }
        lemma_first_match_none(s.drop_first(), p);
    }
}

/// The result of `first_match` is an element that satisfies `p`, preceded
/// only by elements that do not.
pub proof fn lemma_first_match_found<T>(s: Seq<T>, p: spec_fn(T) -> bool)
    ensures
        match first_match(s, p) {
            Some(x) => exists|i: int|
                0 <= i < s.len() && s[i] == x && p(x) && forall|j: int| 0 <= j < i ==> !p(#[trigger] s[j]),
            None => forall|j: int| 0 <= j < s.len() ==> !p(#[trigger] s[j]),
        },
    decreases s.len(),
{
    if s.len() > 0 && !p(s[0]) {
        lemma_first_match_found(s.drop_first(), p);
        match first_match(s, p) {
            Some(x) => {
                let i = choose|i: int|
                    0 <= i < s.drop_first().len() && s.drop_first()[i] == x && p(x) && forall|j: int|
                        0 <= j < i ==> !p(#[trigger] s.drop_first()[j]);
                assert(s[i + 1] == x);
                assert forall|j: int| 0 <= j < i + 1 implies !p(#[trigger] s[j]) by {
                    if j > 0 {
                        assert(s[j] == s.drop_first()[j - 1]);
                    }
                }
            },
            None => {
                assert forall|j: int| 0 <= j < s.len() implies !p(#[trigger] s[j]) by {
                    if j > 0 {
                        assert(s[j] == s.drop_first()[j - 1]);
                    }
                }
            },
        }
    } else if s.len() > 0 {
        assert(s[0] == s[0]);
    }
}

// ---------------------------------------------------------------------
// Executable lookup
// ---------------------------------------------------------------------

/// Some name of `names` normalizes to `key`.
fn any_name_normalizes_to(names: &'static [&'static str], key: &Vec<char>) -> (r: bool)
    ensures
        r == any_normalized(strs_view(names@), key@),
{
    let mut i: usize = 0;
    while i < names.len()
        invariant
            i <= names@.len(),
            forall|j: int| 0 <= j < i ==> normalized(names@[j]@) != key@,
        decreases names@.len() - i,
    {
        let n = normalize(names[i]);
        if chars_eq(&n, key) {
            assert(strs_view(names@)[i as int] == names@[i as int]@);
            return true;
        }
        i = i + 1;
    }
    assert forall|j: int| 0 <= j < strs_view(names@).len() implies normalized(strs_view(names@)[j]) != key@ by {
        assert(strs_view(names@)[j] == names@[j]@);
    }
    false
}

fn feature_is_named(f: &FeatureSpec, key: &Vec<char>) -> (r: bool)
    ensures
        r == feature_named(f@, key@),
{
    let n = normalize(f.name);
    chars_eq(&n, key) || any_name_normalizes_to(f.aliases, key)
}

/// The first feature of `features` called `input` (already normalized).
fn find_feature_by_name(features: &'static [FeatureSpec], input: &Vec<char>) -> (r: Option<&'static FeatureSpec>)
    ensures
        feature_opt_view(r) == first_match(features_view(features@), |f: FeatureModel| feature_named(f, input@)),
{
    let ghost v = features_view(features@);
    let ghost p = |f: FeatureModel| feature_named(f, input@);
    proof {
        lemma_first_match_ends(v, p);
    }
    let mut i: usize = 0;
    while i < features.len()
        invariant
            i <= features@.len(),
            v == features_view(features@),
            p == (|f: FeatureModel| feature_named(f, input@)),
            first_match(v, p) == first_match(v.skip(i as int), p),
        decreases features@.len() - i,
    {
        let f: &'static FeatureSpec = &features[i];
        assert(v[i as int] == f@);
        if feature_is_named(f, input) {
            proof {
                lemma_first_match_hit(v, p, i as int);
            }
            return Some(f);
        }
        proof {
            lemma_first_match_skip(v, p, i as int);
        }
        i = i + 1;
    }
    proof {
        lemma_first_match_ends(v, p);
    }
    None
}

/// The first feature of `features` with this VCP code.
fn find_feature_by_code(features: &'static [FeatureSpec], code: u8) -> (r: Option<&'static FeatureSpec>)
    ensures
        feature_opt_view(r) == first_match(features_view(features@), |f: FeatureModel| f.code == code),
{
    let ghost v = features_view(features@);
    let ghost p = |f: FeatureModel| f.code == code;
    proof {
        lemma_first_match_ends(v, p);
    }
    let mut i: usize = 0;
    while i < features.len()
        invariant
            i <= features@.len(),
            v == features_view(features@),
            p == (|f: FeatureModel| f.code == code),
            first_match(v, p) == first_match(v.skip(i as int), p),
        decreases features@.len() - i,
    {
        let f: &'static FeatureSpec = &features[i];
        assert(v[i as int] == f@);
        if f.code == code {
            proof {
                lemma_first_match_hit(v, p, i as int);
            }
            return Some(f);
        }
        proof {
            lemma_first_match_skip(v, p, i as int);
        }
        i = i + 1;
    }
    proof {
        lemma_first_match_ends(v, p);
    }
    None
}

/// The label of the first option in `options` with this value.
fn find_label(options: &'static [ValueOption], value: u16) -> (r: Option<&'static str>)
    ensures
        str_opt_view(r) == label_in(options_view(options@), value),
{
    let ghost v = options_view(options@);
    let ghost p = |o: ValueOptionModel| o.value == value;
    proof {
        lemma_first_match_ends(v, p);
    }
    let mut i: usize = 0;
    while i < options.len()
        invariant
            i <= options@.len(),
            v == options_view(options@),
            p == (|o: ValueOptionModel| o.value == value),
            first_match(v, p) == first_match(v.skip(i as int), p),
        decreases options@.len() - i,
    {
        assert(v[i as int] == options@[i as int]@);
        if options[i].value == value {
            proof {
                lemma_first_match_hit(v, p, i as int);
            }
            return Some(options[i].label);
        }
        proof {
            lemma_first_match_skip(v, p, i as int);
        }
        i = i + 1;
    }
    proof {
        lemma_first_match_ends(v, p);
    }
    None
}

fn profile_is_named(p: &MonitorProfile, key: &Vec<char>) -> (r: bool)
    ensures
        r == profile_named(p@, key@),
{
    let k = normalize(p.key);
    let n = normalize(p.name);
    chars_eq(&k, key) || chars_eq(&n, key) || any_name_normalizes_to(p.matchers, key)
}

/// The profile that a `MONITOR_PROFILE` override names by key, name or
/// matcher, up to trimming and ASCII case.
fn find_profile_by_override(input: &str) -> (r: Option<&'static MonitorProfile>)
    ensures
        profile_opt_view(r) == spec_find_profile_by_override(input@),
{
    let key = normalize(input);
    let all = profiles();
    let ghost v = profiles_view(all@);
    let ghost p = |m: ProfileModel| profile_named(m, normalized(input@));
    proof {
        lemma_first_match_ends(v, p);
    }
    let mut i: usize = 0;
    while i < all.len()
        invariant
            i <= all@.len(),
            v == profiles_view(all@),
            v == profile_models(),
            key@ == normalized(input@),
            p == (|m: ProfileModel| profile_named(m, normalized(input@))),
            first_match(v, p) == first_match(v.skip(i as int), p),
        decreases all@.len() - i,
    {
        let candidate: &'static MonitorProfile = &all[i];
        assert(v[i as int] == candidate@);
        if profile_is_named(candidate, &key) {
            proof {
                lemma_first_match_hit(v, p, i as int);
            }
            return Some(candidate);
        }
        proof {
            lemma_first_match_skip(v, p, i as int);
        }
        i = i + 1;
    }
    proof {
        lemma_first_match_ends(v, p);
    }
    None
}

fn normalize_opt(s: &Option<String>) -> (r: Vec<char>)
    ensures
        r@ == normalized(or_empty(string_opt_view(*s))),
{
    match s {
        Some(s) => normalize(s.as_str()),
        None => {
            let e = chars_of("");
            proof {
                reveal_strlit("");
            }
            assert(e@ =~= Seq::<char>::empty());
            assert(normalized(Seq::<char>::empty()) =~= Seq::<char>::empty());
            e
        },
    }
}

fn profile_matches_exec(p: &MonitorProfile, hs: &Vec<Vec<char>>) -> (r: bool)
    ensures
        r == profile_matches(p@, hs@.map_values(|h: Vec<char>| h@)),
{
    let ghost hv = hs@.map_values(|h: Vec<char>| h@);
    let mut m: usize = 0;
    while m < p.matchers.len()
        invariant
            m <= p.matchers@.len(),
            hv == hs@.map_values(|h: Vec<char>| h@),
            forall|a: int, b: int|
                0 <= a < m && 0 <= b < hv.len() ==> !contains(hv[b], normalized(p@.matchers[a])),
        decreases p.matchers@.len() - m,
    {
        let needle = normalize(p.matchers[m]);
        assert(p@.matchers[m as int] == p.matchers@[m as int]@);
        let mut h: usize = 0;
        while h < hs.len()
            invariant
                m < p.matchers@.len(),
                h <= hs@.len(),
                hv == hs@.map_values(|h: Vec<char>| h@),
                needle@ == normalized(p@.matchers[m as int]),
                forall|b: int| 0 <= b < h ==> !contains(hv[b], needle@),
            decreases hs@.len() - h,
        {
            if contains_chars(&hs[h], &needle) {
                assert(hv[h as int] == hs@[h as int]@);
                return true;
            }
            h = h + 1;
        }
        m = m + 1;
    }
    false
}

/// Detects the profile of a monitor. A non-blank `override_value` (the
/// `MONITOR_PROFILE` setting) that names a profile wins; otherwise the
/// first profile with a matcher that occurs in the monitor's model name,
/// manufacturer or identifier, up to trimming and ASCII case.
pub fn detect_profile(override_value: Option<&str>, info: &MonitorIdentity) -> (r: Option<&'static MonitorProfile>)
    ensures
        profile_opt_view(r) == spec_detect_profile(str_opt_view(override_value), info@),
{
    if let Some(v) = override_value {
        let c = chars_of(v);
        let t = trim_chars(&c);
        if t.len() > 0 {
            if let Some(p) = find_profile_by_override(v) {
                return Some(p);
            }
        }
    }
    let mut hs: Vec<Vec<char>> = Vec::new();
    hs.push(normalize_opt(&info.model_name));
    hs.push(normalize_opt(&info.manufacturer_id));
    hs.push(normalize(info.id.as_str()));
    let ghost hv = hs@.map_values(|h: Vec<char>| h@);
    assert(hv =~= haystacks(info@));
    let all = profiles();
    let ghost v = profiles_view(all@);
    let ghost p = |m: ProfileModel| profile_matches(m, haystacks(info@));
    proof {
        lemma_first_match_ends(v, p);
    }
    assert(spec_detect_profile(str_opt_view(override_value), info@) == first_match(v, p));
    let mut i: usize = 0;
    while i < all.len()
        invariant
            i <= all@.len(),
            v == profiles_view(all@),
            v == profile_models(),
            spec_detect_profile(str_opt_view(override_value), info@) == first_match(v, p),
            hs@.map_values(|h: Vec<char>| h@) == haystacks(info@),
            p == (|m: ProfileModel| profile_matches(m, haystacks(info@))),
            first_match(v, p) == first_match(v.skip(i as int), p),
        decreases all@.len() - i,
    {
        let candidate: &'static MonitorProfile = &all[i];
        assert(v[i as int] == candidate@);
        if profile_matches_exec(candidate, &hs) {
            proof {
                lemma_first_match_hit(v, p, i as int);
            }
            return Some(candidate);
        }
        proof {
            lemma_first_match_skip(v, p, i as int);
        }
        i = i + 1;
    }
    proof {
        lemma_first_match_ends(v, p);
    }
    None
}

/// The name of the controller that drives a monitor: its profile's name,
/// or `Generic DDC/CI`.
pub fn controller_name(override_value: Option<&str>, info: &MonitorIdentity) -> (r: &'static str)
    ensures
        r@ == spec_controller_name(str_opt_view(override_value), info@),
{
    match detect_profile(override_value, info) {
        Some(p) => p.name,
        None => "Generic DDC/CI",
    }
}

/// The features that a monitor with this profile offers: the profile's
/// table, or the generic one.
pub fn controls_for(profile: Option<&'static MonitorProfile>) -> (r: &'static [FeatureSpec])
    ensures
        features_view(r@) == spec_controls_for(profile_opt_view(profile)),
{
    match profile {
        Some(p) => p.features,
        None => generic_features(),
    }
}

/// The VCP codes observed readable on a monitor with this profile.
pub fn observed_codes(profile: Option<&'static MonitorProfile>) -> (r: &'static [u8])
    ensures
        r@ == spec_observed_codes(profile_opt_view(profile)),
{
    match profile {
        Some(p) => p.observed_readable_codes,
        None => {
            let r: &'static [u8] = &[];
            assert(r@ =~= Seq::<u8>::empty());
            r
        },
    }
}

/// The options offered for writing a feature: its write table, or its read
/// table when the write table is empty.
pub fn write_options(spec: &'static FeatureSpec) -> (r: &'static [ValueOption])
    ensures
        options_view(r@) == spec_write_options(spec@),
{
    if spec.write_options.len() == 0 {
        spec.value_options
    } else {
        spec.write_options
    }
}

fn feature_by_code_exec(profile: Option<&'static MonitorProfile>, code: u8) -> (r: Option<&'static FeatureSpec>)
    ensures
        feature_opt_view(r) == feature_by_code(profile_opt_view(profile), code),
{
    match find_feature_by_code(controls_for(profile), code) {
        Some(f) => Some(f),
        None => find_feature_by_code(generic_features(), code),
    }
}

impl ResolvedFeature {
    /// The feature's name and its code in hex, as messages show it.
    pub fn describe(&self) -> (r: String)
        ensures
            r@ == spec_feature_title(self@),
    {
        let mut r = self.name.clone();
        r.append(" (");
        r.append(hex_code_string(self.code as u64).as_str());
        r.append(")");
        r
    }
}

/// Resolves a feature argument: a name or alias of a feature of the profile
/// or of the generic table, else a VCP code in decimal or `0x` hex.
pub fn resolve_feature(profile: Option<&'static MonitorProfile>, input: &str) -> (r: Result<ResolvedFeature, String>)
    ensures
        match spec_resolve_feature(profile_opt_view(profile), input@) {
            Ok(m) => r is Ok && r->Ok_0@ == m,
            Err(e) => r is Err && r->Err_0@ == e,
        },
{
    let normalized_input = normalize(input);
    let by_name = match find_feature_by_name(controls_for(profile), &normalized_input) {
        Some(f) => Some(f),
        None => find_feature_by_name(generic_features(), &normalized_input),
    };
    if let Some(spec) = by_name {
        return Ok(ResolvedFeature { code: spec.code, name: owned(spec.name), spec: Some(spec) });
    }
    match parse_u8(input) {
        None => {
            let mut message = owned("Unsupported feature: ");
            message.append(input);
            message.append(". Use a known alias or a VCP code such as 0x10.");
            Err(message)
        },
        Some(code) => {
            let spec = feature_by_code_exec(profile, code);
            let name = match spec {
                Some(f) => owned(f.name),
                None => hex_code_string(code as u64),
            };
            Ok(ResolvedFeature { code, name, spec })
        },
    }
}

fn option_is_named(o: &ValueOption, input: &str, input_chars: &Vec<char>, key: &Vec<char>) -> (r: bool)
    requires
        input_chars@ == input@,
        key@ == normalized(input@),
    ensures
        r == option_named(o@, input@),
{
    let label = chars_of(o.label);
    chars_eq_ignore_case(&label, input_chars) || any_name_normalizes_to(o.aliases, key)
}

/// Resolves a value argument: the value of a write option named by its
/// label or an alias, else a number in decimal or `0x` hex.
pub fn resolve_value(spec: Option<&'static FeatureSpec>, input: &str) -> (r: Result<u16, String>)
    ensures
        match spec_resolve_value(feature_opt_view(spec), input@) {
            Ok(v) => r == Ok::<u16, String>(v),
            Err(e) => r is Err && r->Err_0@ == e,
        },
{
    let key = normalize(input);
    let input_chars = chars_of(input);
    if let Some(f) = spec {
        let options = write_options(f);
        let ghost v = options_view(options@);
        let ghost p = |o: ValueOptionModel| option_named(o, input@);
        proof {
            lemma_first_match_ends(v, p);
        }
        let mut i: usize = 0;
        while i < options.len()
            invariant
                i <= options@.len(),
                v == options_view(options@),
                v == spec_write_options(f@),
                feature_opt_view(spec) == Some(f@),
                p == (|o: ValueOptionModel| option_named(o, input@)),
                input_chars@ == input@,
                key@ == normalized(input@),
                first_match(v, p) == first_match(v.skip(i as int), p),
            decreases options@.len() - i,
        {
            assert(v[i as int] == options@[i as int]@);
            if option_is_named(&options[i], input, &input_chars, &key) {
                proof {
                    lemma_first_match_hit(v, p, i as int);
                }
                return Ok(options[i].value);
            }
            proof {
                lemma_first_match_skip(v, p, i as int);
            }
            i = i + 1;
        }
        proof {
            lemma_first_match_ends(v, p);
        }
    }
    match parse_u16(input) {
        Some(v) => Ok(v),
        None => {
            let mut message = owned("Invalid value: ");
            message.append(input);
            message.append(". Use decimal, hex, or a known profile alias.");
            Err(message)
        },
    }
}

/// The name under which a VCP code is shown: the profile's or the generic
/// table's name for it, else `unknown`.
pub fn feature_name(profile: Option<&'static MonitorProfile>, code: u8) -> (r: &'static str)
    ensures
        r@ == spec_feature_name(profile_opt_view(profile), code),
{
    match feature_by_code_exec(profile, code) {
        Some(f) => f.name,
        None => "unknown",
    }
}

/// The read label of a value of a feature.
pub fn value_label(spec: Option<&'static FeatureSpec>, value: u16) -> (r: Option<&'static str>)
    ensures
        str_opt_view(r) == spec_value_label(feature_opt_view(spec), value),
{
    match spec {
        Some(f) => find_label(f.value_options, value),
        None => None,
    }
}

/// The write label of a value of a feature.
pub fn write_value_label(spec: Option<&'static FeatureSpec>, value: u16) -> (r: Option<&'static str>)
    ensures
        str_opt_view(r) == spec_write_value_label(feature_opt_view(spec), value),
{
    match spec {
        Some(f) => find_label(write_options(f), value),
        None => None,
    }
}

/// Reads a VCP code: trimmed, then hex after `0x`, decimal otherwise.
pub fn parse_u8(input: &str) -> (r: Option<u8>)
    ensures
        match parse_number(input@, 0xFF) {
            Some(v) => r == Some(v as u8),
            None => r is None,
        },
{
    match parse_number_str(input, 0xFF) {
        Some(v) => Some(v as u8),
        None => None,
    }
}

/// Reads a VCP value: trimmed, then hex after `0x`, decimal otherwise.
pub fn parse_u16(input: &str) -> (r: Option<u16>)
    ensures
        match parse_number(input@, 0xFFFF) {
            Some(v) => r == Some(v as u16),
            None => r is None,
        },
{
    match parse_number_str(input, 0xFFFF) {
        Some(v) => Some(v as u16),
        None => None,
    }
}

// ---------------------------------------------------------------------
// Laws
// ---------------------------------------------------------------------

/// On a write table in which no earlier option answers to an option's label
/// or shares its value, resolving the label gives the option's value, and
/// the write label of that value is the label again.
pub proof fn law_write_label_round_trip(f: FeatureModel, k: int)
    requires
        0 <= k < spec_write_options(f).len(),
        forall|j: int|
            0 <= j < k ==> (#[trigger] spec_write_options(f)[j]).value != spec_write_options(f)[k].value
                && !option_named(spec_write_options(f)[j], spec_write_options(f)[k].label),
    ensures
        spec_resolve_value(Some(f), spec_write_options(f)[k].label) == Ok::<u16, Seq<char>>(
            spec_write_options(f)[k].value,
        ),
        spec_write_value_label(Some(f), spec_write_options(f)[k].value) == Some(spec_write_options(f)[k].label),
{
    let os = spec_write_options(f);
    let o = os[k];
    let named = |x: ValueOptionModel| option_named(x, o.label);
    let valued = |x: ValueOptionModel| x.value == o.value;
    assert(eq_ignore_case(o.label, o.label));
    lemma_first_match_prefix(os, named, k);
    lemma_first_match_prefix(os, valued, k);
}

/// A label or alias of an option.
pub open spec fn option_name(o: ValueOptionModel, u: Seq<char>) -> bool {
    u == o.label || o.aliases.contains(u)
}

/// No two options of the table share a value, and no label or alias of one
/// normalizes like a label or alias of another.
pub open spec fn options_unambiguous(os: Seq<ValueOptionModel>) -> bool {
    forall|j: int, k: int|
        0 <= j < os.len() && 0 <= k < os.len() && j != k ==> #[trigger] os[j].value != #[trigger] os[k].value
            && forall|u: Seq<char>, v: Seq<char>|
            option_name(os[j], u) && option_name(os[k], v) ==> normalized(u) != normalized(v)
}

/// An option that `x` names has a label or alias that normalizes like `x`.
proof fn lemma_named_option_name(o: ValueOptionModel, x: Seq<char>) -> (u: Seq<char>)
    requires
        option_named(o, x),
    ensures
        option_name(o, u),
        normalized(u) == normalized(x),
{
    if eq_ignore_case(o.label, x) {
        lemma_eq_ignore_case_normalized(o.label, x);
        o.label
    } else {
        let a = choose|a: int| 0 <= a < o.aliases.len() && normalized(o.aliases[a]) == normalized(x);
        assert(o.aliases.contains(o.aliases[a]));
        o.aliases[a]
    }
}

/// On a write table in which no two options share a value or a name after
/// normalizing, a value argument that names an option (by its label up to
/// ASCII case, or by an alias up to ASCII case and surrounding blanks)
/// resolves to that option's value, and the write label of that value is
/// the option's label; the label itself resolves back to the value.
pub proof fn law_write_options_round_trip(f: FeatureModel, k: int, x: Seq<char>)
    requires
        options_unambiguous(spec_write_options(f)),
        0 <= k < spec_write_options(f).len(),
        option_named(spec_write_options(f)[k], x),
    ensures
        spec_resolve_value(Some(f), x) == Ok::<u16, Seq<char>>(spec_write_options(f)[k].value),
        spec_write_value_label(Some(f), spec_write_options(f)[k].value) == Some(spec_write_options(f)[k].label),
        spec_resolve_value(Some(f), spec_write_options(f)[k].label) == Ok::<u16, Seq<char>>(
            spec_write_options(f)[k].value,
        ),
{
    let os = spec_write_options(f);
    let o = os[k];
    let v = lemma_named_option_name(o, x);
    let named = |y: ValueOptionModel| option_named(y, x);
    assert forall|j: int| 0 <= j < k implies !named(#[trigger] os[j]) by {
        if named(os[j]) {
            let u = lemma_named_option_name(os[j], x);
            assert(os[j].value != os[k].value);
        }
    }
    lemma_first_match_prefix(os, named, k);
    let valued = |y: ValueOptionModel| y.value == o.value;
    assert forall|j: int| 0 <= j < k implies !valued(#[trigger] os[j]) by {
        assert(os[j].value != os[k].value);
    }
    lemma_first_match_prefix(os, valued, k);
    assert(eq_ignore_case(o.label, o.label));
    let by_label = |y: ValueOptionModel| option_named(y, o.label);
    assert forall|j: int| 0 <= j < k implies !by_label(#[trigger] os[j]) by {
        if by_label(os[j]) {
            let u = lemma_named_option_name(os[j], o.label);
            assert(option_name(o, o.label));
            assert(os[j].value != os[k].value);
        }
    }
    lemma_first_match_prefix(os, by_label, k);
}

/// On a write table in which no two options share a value or a name after
/// normalizing, the write label of any value resolves back to that value.
pub proof fn law_write_label_resolves_back(f: FeatureModel, w: u16)
    requires
        options_unambiguous(spec_write_options(f)),
        spec_write_value_label(Some(f), w) is Some,
    ensures
        spec_resolve_value(Some(f), spec_write_value_label(Some(f), w)->0) == Ok::<u16, Seq<char>>(w),
{
    let os = spec_write_options(f);
    let q = |y: ValueOptionModel| y.value == w;
    lemma_first_match_found(os, q);
    let k = choose|k: int|
        0 <= k < os.len() && os[k] == first_match(os, q)->0 && q(os[k]) && forall|m: int| 0 <= m < k ==> !q(#[trigger] os[m]);
    assert(eq_ignore_case(os[k].label, os[k].label));
    law_write_options_round_trip(f, k, os[k].label);
}

/// When no feature of the profile or of the generic table is named
/// `unknown`, a code is shown as `unknown` exactly when no feature of
/// either table has that code; otherwise it is shown under the name of the
/// feature that has it, the profile's first.
pub proof fn law_feature_name_unknown_exactly_without_code(p: Option<ProfileModel>, c: u8)
    requires
        forall|i: int| 0 <= i < spec_controls_for(p).len() ==> (#[trigger] spec_controls_for(p)[i]).name != "unknown"@,
        forall|i: int|
            0 <= i < generic_feature_models().len() ==> (#[trigger] generic_feature_models()[i]).name != "unknown"@,
    ensures
        spec_feature_name(p, c) == "unknown"@ <==> (forall|i: int|
            0 <= i < spec_controls_for(p).len() ==> (#[trigger] spec_controls_for(p)[i]).code != c) && (forall|i: int|
            0 <= i < generic_feature_models().len() ==> (#[trigger] generic_feature_models()[i]).code != c),
        feature_by_code(p, c) matches Some(f) ==> spec_feature_name(p, c) == f.name,
{
    let t = spec_controls_for(p);
    let g = generic_feature_models();
    let q = |f: FeatureModel| f.code == c;
    lemma_first_match_found(t, q);
    lemma_first_match_found(g, q);
    match first_match(t, q) {
        Some(x) => {
            let j = choose|j: int| 0 <= j < t.len() && t[j] == x && q(x) && forall|m: int| 0 <= m < j ==> !q(#[trigger] t[m]);
            assert(t[j].name != "unknown"@);
        },
        None => {
            match first_match(g, q) {
                Some(x) => {
                    let j = choose|j: int|
                        0 <= j < g.len() && g[j] == x && q(x) && forall|m: int| 0 <= m < j ==> !q(#[trigger] g[m]);
                    assert(g[j].name != "unknown"@);
                },
                None => {},
            }
        },
    }
}

/// When no element before `k` satisfies `p` and element `k` does,
/// `first_match` finds element `k`.
pub proof fn lemma_first_match_prefix<T>(s: Seq<T>, p: spec_fn(T) -> bool, k: int)
    requires
        0 <= k < s.len(),
        p(s[k]),
        forall|j: int| 0 <= j < k ==> !p(#[trigger] s[j]),
    ensures
        first_match(s, p) == Some(s[k]),
    decreases k,
{
    if k > 0 {
        assert forall|j: int| 0 <= j < k - 1 implies !p(#[trigger] s.drop_first()[j]) by {
            assert(s.drop_first()[j] == s[j + 1]);
        }
        lemma_first_match_prefix(s.drop_first(), p, k - 1);
        assert(s.drop_first()[k - 1] == s[k]);
    }
}

/// A feature argument is looked up by name the same way whether it is
/// given as typed or already trimmed and lower-cased (as `FeatureArg`
/// keeps it).
pub proof fn law_feature_names_survive_normalizing(p: Option<ProfileModel>, input: Seq<char>)
    ensures
        feature_by_name(p, normalized(lower(trim(input)))) == feature_by_name(p, normalized(input)),
{
    lemma_normalized_idempotent(input);
}

/// A VCP code written as `0x` and two hex digits, in either case, reads
/// back as that code.
pub proof fn law_hex_code_parses(c: u8)
    ensures
        parse_number(hex_code(c as nat), 0xFF) == Some(c as nat),
        parse_number(lower(hex_code(c as nat)), 0xFF) == Some(c as nat),
{
    lemma_hex_code_parses(c);
}

/// The probe of a code is asked for by `0x` and the code in hex. Unless a
/// feature is named like that, the argument, as given or as `FeatureArg`
/// keeps it, resolves to the code and to the feature that has it, under
/// the name that `feature_name` shows.
pub proof fn law_code_argument_resolves_to_code(p: Option<ProfileModel>, c: u8)
    requires
        feature_by_name(p, normalized(hex_code(c as nat))) is None,
    ensures
        spec_resolve_feature(p, hex_code(c as nat)) matches Ok(m) && m.code == c && m.spec == feature_by_code(p, c)
            && (m.spec is Some ==> m.name == spec_feature_name(p, c)),
        spec_resolve_feature(p, lower(trim(hex_code(c as nat)))) matches Ok(m) && m.code == c && m.spec
            == feature_by_code(p, c) && (m.spec is Some ==> m.name == spec_feature_name(p, c)),
{
    lemma_hex_code_parses(c);
    law_feature_names_survive_normalizing(p, hex_code(c as nat));
    let h = hex_code(c as nat);
    assert(trim(h) == h);
    assert(lower(trim(h)) == lower(h));
    assert(trim(lower(h)) == lower(h));
}

} // verus!
