//! Command-line arguments and display selection: which of the connected
//! monitors a command acts on, and how a feature argument or a VCP code
//! argument is read.

use vstd::prelude::*;

use crate::profile::{or_empty, string_opt_view};
use crate::text::{
    chars_eq_ignore_case, chars_of, contains, contains_chars, decimal, decimal_string, eq_ignore_case,
    join, join_strings, lower, lower_chars, owned, parse_unsigned, parse_unsigned_chars,
    string_of, strip_prefix, strip_prefix_chars, trim, trim_chars,
};

verus! {

/// Which displays a command addresses.
#[derive(Clone, Debug)]
pub struct DisplaySelector {
    pub all: bool,
    pub display: Option<usize>,
    pub id: Option<String>,
    pub name: Option<String>,
}

/// The model of a [`DisplaySelector`].
#[verifier::ext_equal]
pub struct SelectorModel {
    pub all: bool,
    pub display: Option<usize>,
    pub id: Option<Seq<char>>,
    pub name: Option<Seq<char>>,
}

impl View for DisplaySelector {
    type V = SelectorModel;

    open spec fn view(&self) -> SelectorModel {
        SelectorModel {
            all: self.all,
            display: self.display,
            id: string_opt_view(self.id),
            name: string_opt_view(self.name),
        }
    }
}

/// What selection reads of one connected display.
#[derive(Debug)]
pub struct DisplayFacts {
    /// The display's own description of itself.
    pub description: String,
    pub id: String,
    pub model_name: Option<String>,
    /// The name of the controller that drives it.
    pub controller: String,
}

/// The model of a [`DisplayFacts`].
#[verifier::ext_equal]
pub struct FactsModel {
    pub description: Seq<char>,
    pub id: Seq<char>,
    pub model_name: Option<Seq<char>>,
    pub controller: Seq<char>,
}

impl View for DisplayFacts {
    type V = FactsModel;

    open spec fn view(&self) -> FactsModel {
        FactsModel {
            description: self.description@,
            id: self.id@,
            model_name: string_opt_view(self.model_name),
            controller: self.controller@,
        }
    }
}

/// A feature argument as typed: trimmed, lower-cased and not empty.
#[derive(Clone, Debug)]
pub struct FeatureArg {
    raw: String,
}

impl View for FeatureArg {
    type V = Seq<char>;

    closed spec fn view(&self) -> Seq<char> {
        self.raw@
    }
}

// ---------------------------------------------------------------------
// Specifications
// ---------------------------------------------------------------------

/// How a selector is described in messages.
pub open spec fn spec_describe(s: SelectorModel) -> Seq<char> {
    if s.all {
        "all displays"@
    } else if s.display is Some {
        "display index "@ + decimal(s.display->0 as nat)
    } else if s.id is Some {
        "display id "@ + s.id->0
    } else if s.name is Some {
        "display name match "@ + s.name->0
    } else {
        "display index 1"@
    }
}

/// The selector names no display explicitly.
pub open spec fn no_explicit_selector(s: SelectorModel) -> bool {
    !s.all && s.display is None && s.id is None && s.name is None
}

/// The selector's text occurs, up to ASCII case, in the display's
/// description, identifier, model name or controller name.
pub open spec fn name_found(needle: Seq<char>, d: FactsModel) -> bool {
    let n = lower(needle);
    ||| contains(lower(d.description), n)
    ||| contains(lower(d.id), n)
    ||| contains(lower(or_empty(d.model_name)), n)
    ||| contains(lower(d.controller), n)
}

/// Whether the display at 1-based position `index` is selected. Without an
/// explicit selector only the first display is; otherwise each given
/// criterion must hold: the position, the identifier up to ASCII case, and
/// the name text.
pub open spec fn spec_selector_matches(s: SelectorModel, index: usize, d: FactsModel) -> bool {
    if no_explicit_selector(s) {
        index == 1
    } else {
        &&& (s.display matches Some(n) ==> n == index)
        &&& (s.id matches Some(id) ==> eq_ignore_case(d.id, id))
        &&& (s.name matches Some(name) ==> name_found(name, d))
    }
}

/// The 1-based positions, among the first `n` displays, that are selected.
pub open spec fn matching_positions(s: SelectorModel, ds: Seq<FactsModel>, n: int) -> Seq<usize>
    decreases n,
{
    if n <= 0 {
        Seq::empty()
    } else if spec_selector_matches(s, n as usize, ds[n - 1]) {
        matching_positions(s, ds, n - 1).push(n as usize)
    } else {
        matching_positions(s, ds, n - 1)
    }
}

pub open spec fn facts_view(ds: Seq<DisplayFacts>) -> Seq<FactsModel> {
    ds.map_values(|d: DisplayFacts| d@)
}

pub open spec fn no_monitors_message() -> Seq<char> {
    "No DDC/CI-capable external monitors were found."@
}

pub open spec fn no_match_message(s: SelectorModel) -> Seq<char> {
    "No monitor matched "@ + spec_describe(s) + ". Run `monitor-helper list` to inspect available displays."@
}

/// The displays a command acts on, by 1-based position.
pub open spec fn spec_select_displays(s: SelectorModel, ds: Seq<FactsModel>) -> Result<Seq<usize>, Seq<char>> {
    if ds.len() == 0 {
        Err(no_monitors_message())
    } else if matching_positions(s, ds, ds.len() as int).len() == 0 {
        Err(no_match_message(s))
    } else {
        Ok(matching_positions(s, ds, ds.len() as int))
    }
}

pub open spec fn all_given_message() -> Seq<char> {
    "This operation expects a single display, but --all was provided."@
}

/// `[position] description` for each selected display.
pub open spec fn listed_matches(ps: Seq<usize>, ds: Seq<FactsModel>) -> Seq<Seq<char>> {
    ps.map_values(|p: usize| "["@ + decimal(p as nat) + "] "@ + ds[p - 1].description)
}

pub open spec fn many_matches_message(s: SelectorModel, ps: Seq<usize>, ds: Seq<FactsModel>) -> Seq<char> {
    "Multiple monitors matched "@ + spec_describe(s) + ": "@ + join(listed_matches(ps, ds), ", "@)
        + ". Use --display or --id for a unique selection."@
}

/// The one display that a single-display command acts on.
pub open spec fn spec_single_display(s: SelectorModel, ds: Seq<FactsModel>) -> Result<usize, Seq<char>> {
    match spec_select_displays(s, ds) {
        Err(e) => Err(e),
        Ok(ps) => if s.all {
            Err(all_given_message())
        } else if ps.len() == 1 {
            Ok(ps[0])
        } else {
            Err(many_matches_message(s, ps, ds))
        },
    }
}

/// `parse_feature_code`: hex after an exact `0x`, decimal otherwise, with
/// no trimming.
pub open spec fn spec_parse_feature_code(s: Seq<char>) -> Option<nat> {
    match strip_prefix(s, "0x"@) {
        Some(hex) => parse_unsigned(hex, 16, 0xFF),
        None => parse_unsigned(s, 10, 0xFF),
    }
}

pub open spec fn invalid_code_message(input: Seq<char>) -> Seq<char> {
    "Invalid VCP code: "@ + input + ". Use decimal or hex such as 16 or 0x10."@
}

/// A VCP code option: trimmed and lower-cased, then as `parse_feature_code`.
pub open spec fn spec_parse_u8_arg(input: Seq<char>) -> Result<u8, Seq<char>> {
    match spec_parse_feature_code(lower(trim(input))) {
        Some(c) => Ok(c as u8),
        None => Err(invalid_code_message(input)),
    }
}

// ---------------------------------------------------------------------
// Executable functions
// ---------------------------------------------------------------------

impl DisplaySelector {
    /// Describes the selector for messages.
    pub fn describe(&self) -> (r: String)
        ensures
            r@ == spec_describe(self@),
    {
        if self.all {
            owned("all displays")
        } else if let Some(display) = self.display {
            let mut r = owned("display index ");
            r.append(decimal_string(display as u64).as_str());
            r
        } else if let Some(id) = &self.id {
            let mut r = owned("display id ");
            r.append(id.as_str());
            r
        } else if let Some(name) = &self.name {
            let mut r = owned("display name match ");
            r.append(name.as_str());
            r
        } else {
            owned("display index 1")
        }
    }
}

impl FeatureArg {
    /// Reads a feature argument: trimmed and lower-cased, refused when empty.
    pub fn from_str(input: &str) -> (r: Result<FeatureArg, String>)
        ensures
            lower(trim(input@)).len() == 0 ==> r is Err && r->Err_0@ == "Feature name cannot be empty."@,
            lower(trim(input@)).len() > 0 ==> r is Ok && r->Ok_0@ == lower(trim(input@)),
    {
        let c = chars_of(input);
        let t = trim_chars(&c);
        let normalized = lower_chars(&t);
        if normalized.len() == 0 {
            return Err(owned("Feature name cannot be empty."));
        }
        Ok(FeatureArg { raw: string_of(&normalized) })
    }

    /// The argument's text.
    pub fn as_str(&self) -> (r: &str)
        ensures
            r@ == self@,
    {
        self.raw.as_str()
    }
}

fn parse_feature_chars(s: &Vec<char>) -> (r: Option<u8>)
    ensures
        match spec_parse_feature_code(s@) {
            Some(v) => r == Some(v as u8),
            None => r is None,
        },
{
    let prefix = chars_of("0x");
    let parsed = match strip_prefix_chars(s, &prefix) {
        Some(hex) => parse_unsigned_chars(&hex, 16, 0xFF),
        None => parse_unsigned_chars(s, 10, 0xFF),
    };
    match parsed {
        Some(v) => Some(v as u8),
        None => None,
    }
}

/// Reads a VCP code: hex after an exact `0x`, decimal otherwise.
pub fn parse_feature_code(input: &str) -> (r: Option<u8>)
    ensures
        match spec_parse_feature_code(input@) {
            Some(v) => r == Some(v as u8),
            None => r is None,
        },
{
    let c = chars_of(input);
    parse_feature_chars(&c)
}

/// Reads a VCP code option such as `--start` (see [`spec_parse_u8_arg`]).
pub fn parse_u8_arg(input: &str) -> (r: Result<u8, String>)
    ensures
        match spec_parse_u8_arg(input@) {
            Ok(v) => r == Ok::<u8, String>(v),
            Err(e) => r is Err && r->Err_0@ == e,
        },
{
    let c = chars_of(input);
    let t = trim_chars(&c);
    let l = lower_chars(&t);
    match parse_feature_chars(&l) {
        Some(v) => Ok(v),
        None => {
            let mut message = owned("Invalid VCP code: ");
            message.append(input);
            message.append(". Use decimal or hex such as 16 or 0x10.");
            Err(message)
        },
    }
}

fn name_found_exec(needle: &String, d: &DisplayFacts) -> (r: bool)
    ensures
        r == name_found(needle@, d@),
{
    let n = lower_chars(&chars_of(needle.as_str()));
    let description = lower_chars(&chars_of(d.description.as_str()));
    let id = lower_chars(&chars_of(d.id.as_str()));
    let model = match &d.model_name {
        Some(m) => chars_of(m.as_str()),
        None => {
            let e: Vec<char> = Vec::new();
            assert(e@ =~= or_empty(d@.model_name));
            e
        },
    };
    let model = lower_chars(&model);
    let controller = lower_chars(&chars_of(d.controller.as_str()));
    contains_chars(&description, &n) || contains_chars(&id, &n) || contains_chars(&model, &n)
        || contains_chars(&controller, &n)
}

/// Whether the display at 1-based position `index` is selected (see
/// [`spec_selector_matches`]).
pub fn selector_matches(selector: &DisplaySelector, index: usize, display: &DisplayFacts) -> (r: bool)
    ensures
        r == spec_selector_matches(selector@, index, display@),
{
    let display_matches = match selector.display {
        Some(value) => value == index,
        None => true,
    };
    let id_matches = match &selector.id {
        Some(value) => chars_eq_ignore_case(&chars_of(display.id.as_str()), &chars_of(value.as_str())),
        None => true,
    };
    let name_matches = match &selector.name {
        Some(value) => name_found_exec(value, display),
        None => true,
    };
    let no_explicit_selector = !selector.all && selector.display.is_none() && selector.id.is_none()
        && selector.name.is_none();
    if no_explicit_selector {
        index == 1
    } else {
        display_matches && id_matches && name_matches
    }
}

/// The 1-based positions of the selected displays, or why there are none.
pub fn select_displays(selector: &DisplaySelector, displays: &Vec<DisplayFacts>) -> (r: Result<Vec<usize>, String>)
    ensures
        match spec_select_displays(selector@, facts_view(displays@)) {
            Ok(ps) => r is Ok && r->Ok_0@ == ps,
            Err(e) => r is Err && r->Err_0@ == e,
        },
{
    let ghost ds = facts_view(displays@);
    if displays.len() == 0 {
        return Err(owned("No DDC/CI-capable external monitors were found."));
    }
    let mut matches: Vec<usize> = Vec::new();
    let mut i: usize = 0;
    while i < displays.len()
        invariant
            i <= displays@.len(),
            ds == facts_view(displays@),
            matches@ == matching_positions(selector@, ds, i as int),
        decreases displays@.len() - i,
    {
        assert(ds[i as int] == displays@[i as int]@);
        if selector_matches(selector, i + 1, &displays[i]) {
            matches.push(i + 1);
        }
        i = i + 1;
    }
    if matches.len() == 0 {
        let mut message = owned("No monitor matched ");
        message.append(selector.describe().as_str());
        message.append(". Run `monitor-helper list` to inspect available displays.");
        return Err(message);
    }
    Ok(matches)
}

proof fn lemma_positions_bounded(s: SelectorModel, ds: Seq<FactsModel>, n: int)
    requires
        0 <= n <= ds.len(),
        ds.len() <= usize::MAX,
    ensures
        forall|k: int|
            0 <= k < matching_positions(s, ds, n).len() ==> 1 <= #[trigger] matching_positions(s, ds, n)[k] <= n,
    decreases n,
{
    if n > 0 {
        lemma_positions_bounded(s, ds, n - 1);
        let prev = matching_positions(s, ds, n - 1);
        assert forall|k: int|
            0 <= k < matching_positions(s, ds, n).len() implies 1 <= #[trigger] matching_positions(s, ds, n)[k] <= n by {
            if k < prev.len() {
                assert(matching_positions(s, ds, n)[k] == prev[k]);
            } else {
                assert(matching_positions(s, ds, n)[k] == n as usize);
            }
        }
    }
}

/// The one display that a single-display command acts on, or why there is
/// no single one.
pub fn single_display(selector: &DisplaySelector, displays: &Vec<DisplayFacts>) -> (r: Result<usize, String>)
    ensures
        match spec_single_display(selector@, facts_view(displays@)) {
            Ok(p) => r == Ok::<usize, String>(p),
            Err(e) => r is Err && r->Err_0@ == e,
        },
{
    let matches = select_displays(selector, displays)?;
    if selector.all {
        return Err(owned("This operation expects a single display, but --all was provided."));
    }
    if matches.len() == 1 {
        return Ok(matches[0]);
    }
    let ghost ds = facts_view(displays@);
    let count = displays.len();
    proof {
        assert(ds.len() == count);
        lemma_positions_bounded(selector@, ds, ds.len() as int);
    }
    let mut options: Vec<String> = Vec::new();
    let mut i: usize = 0;
    while i < matches.len()
        invariant
            i <= matches@.len(),
            ds == facts_view(displays@),
            matches@ == matching_positions(selector@, ds, ds.len() as int),
            forall|k: int| 0 <= k < matches@.len() ==> 1 <= #[trigger] matches@[k] <= displays@.len(),
            options@.map_values(|o: String| o@) == listed_matches(matches@.take(i as int), ds),
        decreases matches@.len() - i,
    {
        let position = matches[i];
        let mut option = owned("[");
        option.append(decimal_string(position as u64).as_str());
        option.append("] ");
        option.append(displays[position - 1].description.as_str());
        let ghost before = options@.map_values(|o: String| o@);
        assert(ds[position - 1] == displays@[position - 1]@);
        assert(option@ == "["@ + decimal(position as nat) + "] "@ + ds[position - 1].description);
        options.push(option);
        assert(matches@.take(i + 1) =~= matches@.take(i as int).push(position));
        assert(listed_matches(matches@.take(i + 1), ds) =~= listed_matches(matches@.take(i as int), ds).push(
            option@,
        ));
        assert(options@.map_values(|o: String| o@) =~= before.push(option@));
        i = i + 1;
    }
    assert(matches@.take(matches@.len() as int) =~= matches@);
    let mut message = owned("Multiple monitors matched ");
    message.append(selector.describe().as_str());
    message.append(": ");
    message.append(join_strings(&options, ", ").as_str());
    message.append(". Use --display or --id for a unique selection.");
    Err(message)
}

// ---------------------------------------------------------------------
// Laws
// ---------------------------------------------------------------------

proof fn lemma_positions_increasing(s: SelectorModel, ds: Seq<FactsModel>, n: int)
    requires
        0 <= n <= ds.len(),
        ds.len() <= usize::MAX,
    ensures
        forall|i: int, j: int|
            0 <= i < j < matching_positions(s, ds, n).len() ==> #[trigger] matching_positions(s, ds, n)[i]
                < #[trigger] matching_positions(s, ds, n)[j],
        forall|k: int|
            0 <= k < matching_positions(s, ds, n).len() ==> spec_selector_matches(
                s,
                #[trigger] matching_positions(s, ds, n)[k],
                ds[matching_positions(s, ds, n)[k] - 1],
            ),
    decreases n,
{
    if n > 0 {
        lemma_positions_increasing(s, ds, n - 1);
        lemma_positions_bounded(s, ds, n - 1);
        let prev = matching_positions(s, ds, n - 1);
        let cur = matching_positions(s, ds, n);
        assert forall|k: int| 0 <= k < cur.len() implies spec_selector_matches(s, #[trigger] cur[k], ds[cur[k] - 1]) by {
            if k < prev.len() {
                assert(cur[k] == prev[k]);
            }
        }
        assert forall|i: int, j: int| 0 <= i < j < cur.len() implies #[trigger] cur[i] < #[trigger] cur[j] by {
            if j < prev.len() {
                assert(cur[i] == prev[i] && cur[j] == prev[j]);
            } else {
                assert(cur[i] == prev[i]);
                assert(prev[i] <= n - 1);
            }
        }
    }
}

/// With `--display n`, no display but the `n`-th is selected, so at most
/// one is.
pub proof fn law_display_index_selects_one(s: SelectorModel, ds: Seq<FactsModel>, n: usize)
    requires
        s.display == Some(n),
        ds.len() <= usize::MAX,
    ensures
        forall|k: int|
            0 <= k < matching_positions(s, ds, ds.len() as int).len() ==> #[trigger] matching_positions(
                s,
                ds,
                ds.len() as int,
            )[k] == n,
        matching_positions(s, ds, ds.len() as int).len() <= 1,
{
    lemma_positions_increasing(s, ds, ds.len() as int);
    let ps = matching_positions(s, ds, ds.len() as int);
    if ps.len() > 1 {
        assert(spec_selector_matches(s, ps[0], ds[ps[0] - 1]));
        assert(spec_selector_matches(s, ps[1], ds[ps[1] - 1]));
        assert(ps[0] < ps[1]);
    }
}

/// Without an explicit selector, a command acts on the first display only.
pub proof fn law_default_selects_first(s: SelectorModel, ds: Seq<FactsModel>)
    requires
        no_explicit_selector(s),
        0 < ds.len() <= usize::MAX,
    ensures
        spec_select_displays(s, ds) == Ok::<Seq<usize>, Seq<char>>(seq![1usize]),
{
    lemma_positions_increasing(s, ds, ds.len() as int);
    lemma_positions_bounded(s, ds, ds.len() as int);
    lemma_first_position_selected(s, ds, ds.len() as int);
    let ps = matching_positions(s, ds, ds.len() as int);
    assert forall|k: int| 0 <= k < ps.len() implies #[trigger] ps[k] == 1 by {
        assert(spec_selector_matches(s, ps[k], ds[ps[k] - 1]));
    }
    if ps.len() > 1 {
        assert(ps[0] < ps[1]);
    }
    assert(ps =~= seq![1usize]);
}

proof fn lemma_first_position_selected(s: SelectorModel, ds: Seq<FactsModel>, n: int)
    requires
        no_explicit_selector(s),
        0 < n <= ds.len(),
        ds.len() <= usize::MAX,
    ensures
        matching_positions(s, ds, n).len() >= 1,
    decreases n,
{
    if n > 1 {
        lemma_first_position_selected(s, ds, n - 1);
    }
}

} // verus!
