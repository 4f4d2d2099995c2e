//! Reading back a VCP value: decoding a value that a monitor packs into one
//! byte of the 16-bit word, choosing a value that can safely be written
//! back, the report that a probe prints, and reading that report again.

use vstd::prelude::*;

use crate::profile::{
    first_match, label_in, spec_write_options, lemma_first_match_found, spec_value_label, spec_write_value_label, str_opt_view, string_opt_view, value_label,
    write_value_label, FeatureModel, ResolvedFeature, ValueOptionModel,
};
use crate::text::{
    all_digits, digit_value, lemma_lower_len, lemma_decimal_parses, lemma_hex_padded_digits, hex_padded,
    chars_eq_ignore_case, chars_of, decimal, decimal_string, eq_ignore_case, hex_code, hex_code_string, hex_word,
    hex_word_string, owned, parse_unsigned, parse_unsigned_chars, string_of,
    strip_prefix, strip_prefix_chars,
};

verus! {

/// A read value taken apart byte by byte.
#[derive(Debug)]
pub struct DecodedCurrent {
    pub current_hex: Option<String>,
    pub current_high_byte: Option<u16>,
    pub current_low_byte: Option<u16>,
    pub decoded_current: Option<u16>,
    pub decoded_current_source: Option<&'static str>,
    pub decoded_current_label: Option<String>,
}

/// The value that writing back would restore the current state with.
#[derive(Debug)]
pub struct CurrentWriteback {
    pub value: Option<u16>,
    pub source: Option<&'static str>,
    pub label: Option<String>,
    pub safe: bool,
    pub reason: Option<&'static str>,
}

/// The model of a [`DecodedCurrent`].
#[verifier::ext_equal]
pub struct DecodedModel {
    pub current_hex: Option<Seq<char>>,
    pub current_high_byte: Option<u16>,
    pub current_low_byte: Option<u16>,
    pub decoded_current: Option<u16>,
    pub decoded_current_source: Option<Seq<char>>,
    pub decoded_current_label: Option<Seq<char>>,
}

/// The model of a [`CurrentWriteback`].
#[verifier::ext_equal]
pub struct WritebackModel {
    pub value: Option<u16>,
    pub source: Option<Seq<char>>,
    pub label: Option<Seq<char>>,
    pub safe: bool,
    pub reason: Option<Seq<char>>,
}

impl View for DecodedCurrent {
    type V = DecodedModel;

    open spec fn view(&self) -> DecodedModel {
        DecodedModel {
            current_hex: string_opt_view(self.current_hex),
            current_high_byte: self.current_high_byte,
            current_low_byte: self.current_low_byte,
            decoded_current: self.decoded_current,
            decoded_current_source: str_opt_view(self.decoded_current_source),
            decoded_current_label: string_opt_view(self.decoded_current_label),
        }
    }
}

impl View for CurrentWriteback {
    type V = WritebackModel;

    open spec fn view(&self) -> WritebackModel {
        WritebackModel {
            value: self.value,
            source: str_opt_view(self.source),
            label: string_opt_view(self.label),
            safe: self.safe,
            reason: str_opt_view(self.reason),
        }
    }
}

/// The high byte of a 16-bit word.
pub open spec fn high_byte(raw: u16) -> u16 {
    (raw / 256) as u16
}

/// The low byte of a 16-bit word.
pub open spec fn low_byte(raw: u16) -> u16 {
    (raw % 256) as u16
}

/// How a read value is decoded. A value that fits in one byte is taken as
/// it is. A wider one is split into its bytes; the byte that has a read
/// label wins (the high byte first), else the only non-zero byte.
pub open spec fn spec_decode_current(spec: Option<FeatureModel>, raw: u16) -> DecodedModel {
    let current_hex = Some(hex_word(raw as nat));
    if raw <= 0xFF {
        DecodedModel {
            current_hex,
            current_high_byte: None,
            current_low_byte: None,
            decoded_current: None,
            decoded_current_source: None,
            decoded_current_label: None,
        }
    } else {
        let high = high_byte(raw);
        let low = low_byte(raw);
        let high_label = spec_value_label(spec, high);
        let low_label = spec_value_label(spec, low);
        let (decoded, source, label): (Option<u16>, Option<Seq<char>>, Option<Seq<char>>) =
            if high_label is Some {
            (Some(high), Some("high-byte"@), high_label)
        } else if low_label is Some {
            (Some(low), Some("low-byte"@), low_label)
        } else if low == 0 && high != 0 {
            (Some(high), Some("high-byte-zero-low-byte"@), None)
        } else if high == 0 && low != 0 {
            (Some(low), Some("low-byte-zero-high-byte"@), None)
        } else {
            (None, None, None)
        };
        DecodedModel {
            current_hex,
            current_high_byte: Some(high),
            current_low_byte: Some(low),
            decoded_current: decoded,
            decoded_current_source: source,
            decoded_current_label: label,
        }
    }
}

/// Which value writing back would use: a one-byte read exactly; a decoded
/// value, which is safe only when it carries a label; else none.
pub open spec fn spec_writeback(spec: Option<FeatureModel>, raw: u16, decoded: DecodedModel) -> WritebackModel {
    if raw <= 0xFF {
        WritebackModel {
            value: Some(raw),
            source: Some("raw-current"@),
            label: spec_write_value_label(spec, raw),
            safe: true,
            reason: Some("exact-readback"@),
        }
    } else {
        match decoded.decoded_current {
            Some(d) => {
                let safe = decoded.decoded_current_label is Some;
                WritebackModel {
                    value: Some(d),
                    source: decoded.decoded_current_source,
                    label: spec_write_value_label(spec, d),
                    safe,
                    reason: Some(
                        if safe {
                            "decoded-labeled-current"@
                        } else {
                            "ambiguous-packed-readback"@
                        },
                    ),
                }
            },
            None => WritebackModel {
                value: None,
                source: None,
                label: None,
                safe: false,
                reason: Some("no-writeback-candidate"@),
            },
        }
    }
}

fn owned_opt(s: Option<&'static str>) -> (r: Option<String>)
    ensures
        string_opt_view(r) == str_opt_view(s),
{
    match s {
        Some(s) => Some(owned(s)),
        None => None,
    }
}

/// Decodes a read value (see [`spec_decode_current`]).
pub fn decode_current_value(feature: &ResolvedFeature, raw_current: u16) -> (r: DecodedCurrent)
    ensures
        r@ == spec_decode_current(feature@.spec, raw_current),
{
    let current_hex = Some(hex_word_string(raw_current as u64));
    if raw_current <= 0xFF {
        return DecodedCurrent {
            current_hex,
            current_high_byte: None,
            current_low_byte: None,
            decoded_current: None,
            decoded_current_source: None,
            decoded_current_label: None,
        };
    }
    let high: u16 = (raw_current >> 8) & 0x00FF;
    let low: u16 = raw_current & 0x00FF;
    assert(high == high_byte(raw_current) && low == low_byte(raw_current)) by (bit_vector)
        requires
            high == (raw_current >> 8) & 0x00FF,
            low == raw_current & 0x00FF,
    ;
    let high_label = owned_opt(value_label(feature.spec, high));
    let low_label = owned_opt(value_label(feature.spec, low));
    let (decoded_current, decoded_current_source, decoded_current_label) = if high_label.is_some() {
        (Some(high), Some("high-byte"), high_label)
    } else if low_label.is_some() {
        (Some(low), Some("low-byte"), low_label)
    } else if low == 0 && high != 0 {
        (Some(high), Some("high-byte-zero-low-byte"), None)
    } else if high == 0 && low != 0 {
        (Some(low), Some("low-byte-zero-high-byte"), None)
    } else {
        (None, None, None)
    };
    DecodedCurrent {
        current_hex,
        current_high_byte: Some(high),
        current_low_byte: Some(low),
        decoded_current,
        decoded_current_source,
        decoded_current_label,
    }
}

/// Chooses the value to write back (see [`spec_writeback`]).
pub fn current_writeback_value(feature: &ResolvedFeature, raw_current: u16, decoded: &DecodedCurrent) -> (r: CurrentWriteback)
    ensures
        r@ == spec_writeback(feature@.spec, raw_current, decoded@),
{
    if raw_current <= 0xFF {
        return CurrentWriteback {
            value: Some(raw_current),
            source: Some("raw-current"),
            label: owned_opt(write_value_label(feature.spec, raw_current)),
            safe: true,
            reason: Some("exact-readback"),
        };
    }
    if let Some(decoded_current) = decoded.decoded_current {
        let safe = decoded.decoded_current_label.is_some();
        return CurrentWriteback {
            value: Some(decoded_current),
            source: decoded.decoded_current_source,
            label: owned_opt(write_value_label(feature.spec, decoded_current)),
            safe,
            reason: Some(
                if safe {
                    "decoded-labeled-current"
                } else {
                    "ambiguous-packed-readback"
                },
            ),
        };
    }
    CurrentWriteback { value: None, source: None, label: None, safe: false, reason: Some("no-writeback-candidate") }
}

/// A writeback marked safe restores either the exact one-byte reading or a
/// decoded value that the feature's read table labels; a decoded value is
/// always one of the two bytes of the reading.
pub proof fn law_safe_writeback_is_known(spec: Option<FeatureModel>, raw: u16)
    ensures
        ({
            let d = spec_decode_current(spec, raw);
            let w = spec_writeback(spec, raw, d);
            &&& w.safe ==> w.value is Some
            &&& w.safe ==> (raw <= 0xFF && w.value == Some(raw)) || spec_value_label(spec, w.value->0) is Some
            &&& d.decoded_current is Some ==> raw > 0xFF && (d.decoded_current == Some(high_byte(raw))
                || d.decoded_current == Some(low_byte(raw)))
            &&& raw > 0xFF ==> high_byte(raw) as int * 256 + low_byte(raw) as int == raw as int
        }),
{
}

/// A reading that fits in one byte is an exact readback: whatever the
/// feature's tables hold, it is written back as read, from the raw
/// reading, and writing it back is always safe.
pub proof fn law_one_byte_reading_writes_back_exactly(spec: Option<FeatureModel>, raw: u16)
    requires
        raw <= 0xFF,
    ensures
        ({
            let w = spec_writeback(spec, raw, spec_decode_current(spec, raw));
            &&& w.value == Some(raw)
            &&& w.source == Some("raw-current"@)
            &&& w.safe
            &&& w.reason == Some("exact-readback"@)
        }),
        spec_decode_current(spec, raw).decoded_current is None,
{
}

/// In a reading wider than one byte, a high byte that the read table labels
/// is the decoded value, with its label, whether or not the low byte has a
/// label too; the low byte is taken for its label only when the high byte
/// has none. Either way writing the decoded value back is safe.
pub proof fn law_labelled_byte_decoding(spec: Option<FeatureModel>, raw: u16)
    requires
        raw > 0xFF,
    ensures
        ({
            let high = (raw / 256) as u16;
            let low = (raw % 256) as u16;
            let d = spec_decode_current(spec, raw);
            let w = spec_writeback(spec, raw, d);
            &&& spec_value_label(spec, high) is Some ==> d.decoded_current == Some(high) && d.decoded_current_source
                == Some("high-byte"@) && d.decoded_current_label == spec_value_label(spec, high) && w.value == Some(high)
                && w.safe
            &&& spec_value_label(spec, high) is None && spec_value_label(spec, low) is Some ==> d.decoded_current
                == Some(low) && d.decoded_current_source == Some("low-byte"@) && d.decoded_current_label
                == spec_value_label(spec, low) && w.value == Some(low) && w.safe
        }),
{
}


// ---------------------------------------------------------------------
// The probe report
// ---------------------------------------------------------------------

pub open spec fn strings_view(v: Seq<String>) -> Seq<Seq<char>> {
    v.map_values(|s: String| s@)
}

/// A `key=value` line when there is a value, else nothing.
pub open spec fn opt_line(key: Seq<char>, value: Option<Seq<char>>) -> Seq<Seq<char>> {
    match value {
        Some(v) => seq![key + v],
        None => Seq::empty(),
    }
}

pub open spec fn opt_decimal(v: Option<u16>) -> Option<Seq<char>> {
    match v {
        Some(n) => Some(decimal(n as nat)),
        None => None,
    }
}

pub open spec fn bool_text(b: bool) -> Seq<char> {
    if b {
        "true"@
    } else {
        "false"@
    }
}

/// The lines in which a read value is reported: the reading, its decoding
/// and the writeback choice, one `key=value` per line.
pub open spec fn spec_value_report(spec: Option<FeatureModel>, current: u16, maximum: u16) -> Seq<Seq<char>> {
    let d = spec_decode_current(spec, current);
    let w = spec_writeback(spec, current, d);
    seq!["current="@ + decimal(current as nat), "maximum="@ + decimal(maximum as nat)]
        + opt_line("current_hex="@, d.current_hex)
        + opt_line("current_high_byte="@, opt_decimal(d.current_high_byte))
        + opt_line("current_low_byte="@, opt_decimal(d.current_low_byte))
        + opt_line("current_label="@, spec_value_label(spec, current))
        + opt_line("decoded_current="@, opt_decimal(d.decoded_current))
        + opt_line("decoded_current_source="@, d.decoded_current_source)
        + opt_line("decoded_current_label="@, d.decoded_current_label)
        + opt_line("writeback_value="@, opt_decimal(w.value))
        + opt_line("writeback_source="@, w.source)
        + opt_line("writeback_label="@, w.label)
        + seq!["writeback_safe="@ + bool_text(w.safe)]
        + opt_line("writeback_reason="@, w.reason)
}

fn keyed(key: &str, value: &String) -> (r: String)
    ensures
        r@ == key@ + value@,
{
    let mut r = owned(key);
    r.append(value.as_str());
    r
}

fn push_opt_line(lines: &mut Vec<String>, key: &str, value: &Option<String>)
    ensures
        strings_view(final(lines)@) == strings_view(old(lines)@) + opt_line(key@, string_opt_view(*value)),
{
    let ghost before = strings_view(lines@);
    if let Some(v) = value {
        lines.push(keyed(key, v));
    }
    assert(strings_view(lines@) =~= before + opt_line(key@, string_opt_view(*value)));
}

/// The decimal text of a number, when there is one.
pub(crate) fn decimal_opt(v: Option<u16>) -> (r: Option<String>)
    ensures
        string_opt_view(r) == opt_decimal(v),
{
    match v {
        Some(n) => Some(decimal_string(n as u64)),
        None => None,
    }
}

fn clone_opt(v: &Option<String>) -> (r: Option<String>)
    ensures
        string_opt_view(r) == string_opt_view(*v),
{
    match v {
        Some(s) => Some(s.clone()),
        None => None,
    }
}

/// The lines in which a read value is reported (see [`spec_value_report`]).
pub fn value_report_lines(feature: &ResolvedFeature, current: u16, maximum: u16) -> (r: Vec<String>)
    ensures
        strings_view(r@) == spec_value_report(feature@.spec, current, maximum),
{
    let decoded = decode_current_value(feature, current);
    let writeback = current_writeback_value(feature, current, &decoded);
    let ghost d = decoded@;
    let ghost w = writeback@;
    let mut lines: Vec<String> = Vec::new();
    lines.push(keyed("current=", &decimal_string(current as u64)));
    lines.push(keyed("maximum=", &decimal_string(maximum as u64)));
    assert(strings_view(lines@) =~= seq!["current="@ + decimal(current as nat), "maximum="@ + decimal(maximum as nat)]);
    push_opt_line(&mut lines, "current_hex=", &decoded.current_hex);
    push_opt_line(&mut lines, "current_high_byte=", &decimal_opt(decoded.current_high_byte));
    push_opt_line(&mut lines, "current_low_byte=", &decimal_opt(decoded.current_low_byte));
    push_opt_line(&mut lines, "current_label=", &owned_opt(value_label(feature.spec, current)));
    push_opt_line(&mut lines, "decoded_current=", &decimal_opt(decoded.decoded_current));
    push_opt_line(&mut lines, "decoded_current_source=", &owned_opt(decoded.decoded_current_source));
    push_opt_line(&mut lines, "decoded_current_label=", &clone_opt(&decoded.decoded_current_label));
    push_opt_line(&mut lines, "writeback_value=", &decimal_opt(writeback.value));
    push_opt_line(&mut lines, "writeback_source=", &owned_opt(writeback.source));
    push_opt_line(&mut lines, "writeback_label=", &clone_opt(&writeback.label));
    let ghost before_safe = strings_view(lines@);
    let safe = owned(if writeback.safe { "true" } else { "false" });
    assert(safe@ == bool_text(w.safe));
    lines.push(keyed("writeback_safe=", &safe));
    assert(strings_view(lines@) =~= before_safe + seq!["writeback_safe="@ + bool_text(w.safe)]);
    push_opt_line(&mut lines, "writeback_reason=", &owned_opt(writeback.reason));
    lines
}

// ---------------------------------------------------------------------
// Reading a probe report back
// ---------------------------------------------------------------------

/// A value as a probe reported it.
#[derive(Debug)]
pub struct ProbeResult {
    pub current: u16,
    pub maximum: u16,
    pub current_label: Option<String>,
    pub current_hex: Option<String>,
    pub current_high_byte: Option<u16>,
    pub current_low_byte: Option<u16>,
    pub decoded_current: Option<u16>,
    pub decoded_current_source: Option<String>,
    pub decoded_current_label: Option<String>,
    pub writeback_value: Option<u16>,
    pub writeback_source: Option<String>,
    pub writeback_label: Option<String>,
    pub writeback_safe: bool,
    pub writeback_reason: Option<String>,
}

/// The model of a [`ProbeResult`].
#[verifier::ext_equal]
pub struct ProbeModel {
    pub current: u16,
    pub maximum: u16,
    pub current_label: Option<Seq<char>>,
    pub current_hex: Option<Seq<char>>,
    pub current_high_byte: Option<u16>,
    pub current_low_byte: Option<u16>,
    pub decoded_current: Option<u16>,
    pub decoded_current_source: Option<Seq<char>>,
    pub decoded_current_label: Option<Seq<char>>,
    pub writeback_value: Option<u16>,
    pub writeback_source: Option<Seq<char>>,
    pub writeback_label: Option<Seq<char>>,
    pub writeback_safe: bool,
    pub writeback_reason: Option<Seq<char>>,
}

impl View for ProbeResult {
    type V = ProbeModel;

    open spec fn view(&self) -> ProbeModel {
        ProbeModel {
            current: self.current,
            maximum: self.maximum,
            current_label: string_opt_view(self.current_label),
            current_hex: string_opt_view(self.current_hex),
            current_high_byte: self.current_high_byte,
            current_low_byte: self.current_low_byte,
            decoded_current: self.decoded_current,
            decoded_current_source: string_opt_view(self.decoded_current_source),
            decoded_current_label: string_opt_view(self.decoded_current_label),
            writeback_value: self.writeback_value,
            writeback_source: string_opt_view(self.writeback_source),
            writeback_label: string_opt_view(self.writeback_label),
            writeback_safe: self.writeback_safe,
            writeback_reason: string_opt_view(self.writeback_reason),
        }
    }
}

/// What a probe report has told so far.
#[verifier::ext_equal]
pub struct FieldsModel {
    pub current: Option<u16>,
    pub maximum: Option<u16>,
    pub current_label: Option<Seq<char>>,
    pub current_hex: Option<Seq<char>>,
    pub current_high_byte: Option<u16>,
    pub current_low_byte: Option<u16>,
    pub decoded_current: Option<u16>,
    pub decoded_current_source: Option<Seq<char>>,
    pub decoded_current_label: Option<Seq<char>>,
    pub writeback_value: Option<u16>,
    pub writeback_source: Option<Seq<char>>,
    pub writeback_label: Option<Seq<char>>,
    pub writeback_safe: bool,
    pub writeback_reason: Option<Seq<char>>,
}

/// Nothing read yet.
pub open spec fn initial_fields() -> FieldsModel {
    FieldsModel {
        current: None,
        maximum: None,
        current_label: None,
        current_hex: None,
        current_high_byte: None,
        current_low_byte: None,
        decoded_current: None,
        decoded_current_source: None,
        decoded_current_label: None,
        writeback_value: None,
        writeback_source: None,
        writeback_label: None,
        writeback_safe: false,
        writeback_reason: None,
    }
}

/// The result that a report yields once it has told a current and a maximum value.
pub open spec fn fields_result(f: FieldsModel, current: u16, maximum: u16) -> ProbeModel {
    ProbeModel {
        current,
        maximum,
        current_label: f.current_label,
        current_hex: f.current_hex,
        current_high_byte: f.current_high_byte,
        current_low_byte: f.current_low_byte,
        decoded_current: f.decoded_current,
        decoded_current_source: f.decoded_current_source,
        decoded_current_label: f.decoded_current_label,
        writeback_value: f.writeback_value,
        writeback_source: f.writeback_source,
        writeback_label: f.writeback_label,
        writeback_safe: f.writeback_safe,
        writeback_reason: f.writeback_reason,
    }
}

/// The characters after the last line feed.
pub open spec fn pending_line(p: Seq<char>) -> Seq<char>
    decreases p.len(),
{
    if p.len() == 0 {
        Seq::empty()
    } else if p.last() == '\n' {
        Seq::empty()
    } else {
        pending_line(p.drop_last()).push(p.last())
    }
}

/// A line without the carriage return that ended it, if any.
pub open spec fn strip_cr(l: Seq<char>) -> Seq<char> {
    if l.len() > 0 && l.last() == '\r' {
        l.drop_last()
    } else {
        l
    }
}

/// The lines that a line feed has ended.
pub open spec fn finished_lines(p: Seq<char>) -> Seq<Seq<char>>
    decreases p.len(),
{
    if p.len() == 0 {
        Seq::empty()
    } else if p.last() == '\n' {
        finished_lines(p.drop_last()).push(strip_cr(pending_line(p.drop_last())))
    } else {
        finished_lines(p.drop_last())
    }
}

/// `str::lines`: the text cut at each line feed, a carriage return before
/// the line feed dropped, and no empty piece after a final line feed.
pub open spec fn lines(s: Seq<char>) -> Seq<Seq<char>> {
    if pending_line(s).len() > 0 {
        finished_lines(s).push(pending_line(s))
    } else {
        finished_lines(s)
    }
}

/// A decimal `u16` as `str::parse` reads it.
pub open spec fn number_text(v: Seq<char>) -> Option<u16> {
    match parse_unsigned(v, 10, 0xFFFF) {
        Some(n) => Some(n as u16),
        None => None,
    }
}

/// What one line of a probe report sets: the field named by the line's
/// `key=` prefix, the first key that matches winning.
pub open spec fn apply_probe_line(f: FieldsModel, line: Seq<char>) -> FieldsModel {
    if strip_prefix(line, "current="@) is Some {
        FieldsModel { current: number_text(strip_prefix(line, "current="@)->0), ..f }
    } else if strip_prefix(line, "maximum="@) is Some {
        FieldsModel { maximum: number_text(strip_prefix(line, "maximum="@)->0), ..f }
    } else if strip_prefix(line, "current_label="@) is Some {
        FieldsModel { current_label: Some(strip_prefix(line, "current_label="@)->0), ..f }
    } else if strip_prefix(line, "current_hex="@) is Some {
        FieldsModel { current_hex: Some(strip_prefix(line, "current_hex="@)->0), ..f }
    } else if strip_prefix(line, "current_high_byte="@) is Some {
        FieldsModel { current_high_byte: number_text(strip_prefix(line, "current_high_byte="@)->0), ..f }
    } else if strip_prefix(line, "current_low_byte="@) is Some {
        FieldsModel { current_low_byte: number_text(strip_prefix(line, "current_low_byte="@)->0), ..f }
    } else if strip_prefix(line, "decoded_current="@) is Some {
        FieldsModel { decoded_current: number_text(strip_prefix(line, "decoded_current="@)->0), ..f }
    } else if strip_prefix(line, "decoded_current_source="@) is Some {
        FieldsModel { decoded_current_source: Some(strip_prefix(line, "decoded_current_source="@)->0), ..f }
    } else if strip_prefix(line, "decoded_current_label="@) is Some {
        FieldsModel { decoded_current_label: Some(strip_prefix(line, "decoded_current_label="@)->0), ..f }
    } else if strip_prefix(line, "writeback_value="@) is Some {
        FieldsModel { writeback_value: number_text(strip_prefix(line, "writeback_value="@)->0), ..f }
    } else if strip_prefix(line, "writeback_source="@) is Some {
        FieldsModel { writeback_source: Some(strip_prefix(line, "writeback_source="@)->0), ..f }
    } else if strip_prefix(line, "writeback_label="@) is Some {
        FieldsModel { writeback_label: Some(strip_prefix(line, "writeback_label="@)->0), ..f }
    } else if strip_prefix(line, "writeback_safe="@) is Some {
        FieldsModel { writeback_safe: eq_ignore_case(strip_prefix(line, "writeback_safe="@)->0, "true"@), ..f }
    } else if strip_prefix(line, "writeback_reason="@) is Some {
        FieldsModel { writeback_reason: Some(strip_prefix(line, "writeback_reason="@)->0), ..f }
    } else {
        f
    }
}

/// What the lines `ls` set, read in order after `f`.
pub open spec fn read_lines_from(f: FieldsModel, ls: Seq<Seq<char>>) -> FieldsModel
    decreases ls.len(),
{
    if ls.len() == 0 {
        f
    } else {
        apply_probe_line(read_lines_from(f, ls.drop_last()), ls.last())
    }
}

/// What the lines of a report set, read in order.
pub open spec fn read_lines(ls: Seq<Seq<char>>) -> FieldsModel {
    read_lines_from(initial_fields(), ls)
}

pub open spec fn invalid_probe_message(code: u8) -> Seq<char> {
    "Invalid probe output for "@ + hex_code(code as nat)
}

/// What `parse_probe_output` gives: the fields that the report's lines set,
/// when it told both the current and the maximum value.
pub open spec fn spec_parse_probe_output(code: u8, output: Seq<char>) -> Result<ProbeModel, Seq<char>> {
    let f = read_lines(lines(output));
    match (f.current, f.maximum) {
        (Some(c), Some(m)) => Ok(fields_result(f, c, m)),
        _ => Err(invalid_probe_message(code)),
    }
}

struct ProbeFields {
    current: Option<u16>,
    maximum: Option<u16>,
    current_label: Option<String>,
    current_hex: Option<String>,
    current_high_byte: Option<u16>,
    current_low_byte: Option<u16>,
    decoded_current: Option<u16>,
    decoded_current_source: Option<String>,
    decoded_current_label: Option<String>,
    writeback_value: Option<u16>,
    writeback_source: Option<String>,
    writeback_label: Option<String>,
    writeback_safe: bool,
    writeback_reason: Option<String>,
}

impl View for ProbeFields {
    type V = FieldsModel;

    closed spec fn view(&self) -> FieldsModel {
        FieldsModel {
            current: self.current,
            maximum: self.maximum,
            current_label: string_opt_view(self.current_label),
            current_hex: string_opt_view(self.current_hex),
            current_high_byte: self.current_high_byte,
            current_low_byte: self.current_low_byte,
            decoded_current: self.decoded_current,
            decoded_current_source: string_opt_view(self.decoded_current_source),
            decoded_current_label: string_opt_view(self.decoded_current_label),
            writeback_value: self.writeback_value,
            writeback_source: string_opt_view(self.writeback_source),
            writeback_label: string_opt_view(self.writeback_label),
            writeback_safe: self.writeback_safe,
            writeback_reason: string_opt_view(self.writeback_reason),
        }
    }
}

impl ProbeFields {
    fn new() -> (r: ProbeFields)
        ensures
            r@ == initial_fields(),
    {
        ProbeFields {
            current: None,
            maximum: None,
            current_label: None,
            current_hex: None,
            current_high_byte: None,
            current_low_byte: None,
            decoded_current: None,
            decoded_current_source: None,
            decoded_current_label: None,
            writeback_value: None,
            writeback_source: None,
            writeback_label: None,
            writeback_safe: false,
            writeback_reason: None,
        }
    }

    fn apply_line(&mut self, line: &Vec<char>)
        ensures
            final(self)@ == apply_probe_line(old(self)@, line@),
    {
        if let Some(value) = strip_prefix_chars(line, &chars_of("current=")) {
            self.current = parse_u16_text(&value);
        } else if let Some(value) = strip_prefix_chars(line, &chars_of("maximum=")) {
            self.maximum = parse_u16_text(&value);
        } else if let Some(value) = strip_prefix_chars(line, &chars_of("current_label=")) {
            self.current_label = Some(string_of(&value));
        } else if let Some(value) = strip_prefix_chars(line, &chars_of("current_hex=")) {
            self.current_hex = Some(string_of(&value));
        } else if let Some(value) = strip_prefix_chars(line, &chars_of("current_high_byte=")) {
            self.current_high_byte = parse_u16_text(&value);
        } else if let Some(value) = strip_prefix_chars(line, &chars_of("current_low_byte=")) {
            self.current_low_byte = parse_u16_text(&value);
        } else if let Some(value) = strip_prefix_chars(line, &chars_of("decoded_current=")) {
            self.decoded_current = parse_u16_text(&value);
        } else if let Some(value) = strip_prefix_chars(line, &chars_of("decoded_current_source=")) {
            self.decoded_current_source = Some(string_of(&value));
        } else if let Some(value) = strip_prefix_chars(line, &chars_of("decoded_current_label=")) {
            self.decoded_current_label = Some(string_of(&value));
        } else if let Some(value) = strip_prefix_chars(line, &chars_of("writeback_value=")) {
            self.writeback_value = parse_u16_text(&value);
        } else if let Some(value) = strip_prefix_chars(line, &chars_of("writeback_source=")) {
            self.writeback_source = Some(string_of(&value));
        } else if let Some(value) = strip_prefix_chars(line, &chars_of("writeback_label=")) {
            self.writeback_label = Some(string_of(&value));
        } else if let Some(value) = strip_prefix_chars(line, &chars_of("writeback_safe=")) {
            self.writeback_safe = chars_eq_ignore_case(&value, &chars_of("true"));
        } else if let Some(value) = strip_prefix_chars(line, &chars_of("writeback_reason=")) {
            self.writeback_reason = Some(string_of(&value));
        }
    }

    fn into_result(self, current: u16, maximum: u16) -> (r: ProbeResult)
        ensures
            r@ == fields_result(self@, current, maximum),
    {
        ProbeResult {
            current,
            maximum,
            current_label: self.current_label,
            current_hex: self.current_hex,
            current_high_byte: self.current_high_byte,
            current_low_byte: self.current_low_byte,
            decoded_current: self.decoded_current,
            decoded_current_source: self.decoded_current_source,
            decoded_current_label: self.decoded_current_label,
            writeback_value: self.writeback_value,
            writeback_source: self.writeback_source,
            writeback_label: self.writeback_label,
            writeback_safe: self.writeback_safe,
            writeback_reason: self.writeback_reason,
        }
    }
}

fn parse_u16_text(v: &Vec<char>) -> (r: Option<u16>)
    ensures
        r == number_text(v@),
{
    match parse_unsigned_chars(v, 10, 0xFFFF) {
        Some(n) => Some(n as u16),
        None => None,
    }
}

pub open spec fn chars_seqs_view(v: Seq<Vec<char>>) -> Seq<Seq<char>> {
    v.map_values(|l: Vec<char>| l@)
}

/// The lines of a text (see [`lines`]).
pub fn split_lines(s: &Vec<char>) -> (r: Vec<Vec<char>>)
    ensures
        chars_seqs_view(r@) == lines(s@),
{
    let mut out: Vec<Vec<char>> = Vec::new();
    let mut cur: Vec<char> = Vec::new();
    let mut i: usize = 0;
    while i < s.len()
        invariant
            i <= s@.len(),
            chars_seqs_view(out@) == finished_lines(s@.take(i as int)),
            cur@ == pending_line(s@.take(i as int)),
        decreases s@.len() - i,
    {
        let ghost p = s@.take(i as int);
        let ghost q = s@.take(i + 1);
        assert(q.drop_last() =~= p);
        assert(q.last() == s@[i as int]);
        let c = s[i];
        if c == '\n' {
            let ghost before = chars_seqs_view(out@);
            if cur.len() > 0 && cur[cur.len() - 1] == '\r' {
                cur.pop();
            }
            out.push(cur);
            assert(chars_seqs_view(out@) =~= before.push(strip_cr(pending_line(p))));
            cur = Vec::new();
            assert(cur@ =~= pending_line(q));
        } else {
            cur.push(c);
            assert(cur@ =~= pending_line(q));
        }
        i = i + 1;
    }
    assert(s@.take(s@.len() as int) =~= s@);
    if cur.len() > 0 {
        let ghost before = chars_seqs_view(out@);
        out.push(cur);
        assert(chars_seqs_view(out@) =~= before.push(pending_line(s@)));
    }
    out
}

/// Reads back the report of a probe run (see [`spec_parse_probe_output`]).
pub fn parse_probe_output(feature_code: u8, output: &str) -> (r: Result<ProbeResult, String>)
    ensures
        match spec_parse_probe_output(feature_code, output@) {
            Ok(m) => r is Ok && r->Ok_0@ == m,
            Err(e) => r is Err && r->Err_0@ == e,
        },
{
    let text = chars_of(output);
    let all = split_lines(&text);
    let ghost ls = chars_seqs_view(all@);
    let mut fields = ProbeFields::new();
    let mut i: usize = 0;
    while i < all.len()
        invariant
            i <= all@.len(),
            ls == chars_seqs_view(all@),
            ls == lines(output@),
            fields@ == read_lines(ls.take(i as int)),
        decreases all@.len() - i,
    {
        assert(ls.take(i + 1).drop_last() =~= ls.take(i as int));
        assert(ls.take(i + 1).last() == all@[i as int]@);
        fields.apply_line(&all[i]);
        i = i + 1;
    }
    assert(ls.take(all@.len() as int) =~= ls);
    match (fields.current, fields.maximum) {
        (Some(current), Some(maximum)) => Ok(fields.into_result(current, maximum)),
        _ => {
            let mut message = owned("Invalid probe output for ");
            message.append(hex_code_string(feature_code as u64).as_str());
            Err(message)
        },
    }
}

// ---------------------------------------------------------------------
// A printed report reads back as it was made
// ---------------------------------------------------------------------

/// Lines printed one after another, each ended by a line feed (`println!`).
pub open spec fn printed(ls: Seq<Seq<char>>) -> Seq<char>
    decreases ls.len(),
{
    if ls.len() == 0 {
        Seq::empty()
    } else {
        printed(ls.drop_last()) + ls.last().push('\n')
    }
}

/// The text holds neither a line feed nor a carriage return.
pub open spec fn no_line_break(l: Seq<char>) -> bool {
    forall|i: int| 0 <= i < l.len() ==> l[i] != '\n' && l[i] != '\r'
}

pub open spec fn labels_single_line(os: Seq<ValueOptionModel>) -> bool {
    forall|i: int| 0 <= i < os.len() ==> no_line_break(#[trigger] os[i].label)
}

/// Every label in the feature's read and write tables is a single line.
pub open spec fn feature_labels_single_line(spec: Option<FeatureModel>) -> bool {
    match spec {
        Some(f) => labels_single_line(f.value_options) && labels_single_line(f.write_options),
        None => true,
    }
}

/// A report key: it ends with the only `=` in it.
pub open spec fn key_form(k: Seq<char>) -> bool {
    k.len() > 0 && k.last() == '=' && forall|i: int| 0 <= i < k.len() - 1 ==> k[i] != '='
}

proof fn lemma_pending_append(p: Seq<char>, l: Seq<char>)
    requires
        forall|i: int| 0 <= i < l.len() ==> l[i] != '\n',
    ensures
        pending_line(p + l) == pending_line(p) + l,
        finished_lines(p + l) == finished_lines(p),
    decreases l.len(),
{
    if l.len() == 0 {
        assert(p + l =~= p);
        assert(pending_line(p) + l =~= pending_line(p));
    } else {
        lemma_pending_append(p, l.drop_last());
        assert((p + l).drop_last() =~= p + l.drop_last());
        assert((p + l).last() == l.last());
        assert(pending_line(p) + l =~= (pending_line(p) + l.drop_last()).push(l.last()));
    }
}

proof fn lemma_lines_of_printed(ls: Seq<Seq<char>>)
    requires
        forall|i: int| 0 <= i < ls.len() ==> no_line_break(#[trigger] ls[i]),
    ensures
        finished_lines(printed(ls)) == ls,
        pending_line(printed(ls)) == Seq::<char>::empty(),
        lines(printed(ls)) == ls,
    decreases ls.len(),
{
    if ls.len() > 0 {
        let rest = ls.drop_last();
        let l = ls.last();
        assert(no_line_break(ls[ls.len() - 1]));
        assert forall|i: int| 0 <= i < rest.len() implies no_line_break(#[trigger] rest[i]) by {
            assert(rest[i] == ls[i]);
        }
        lemma_lines_of_printed(rest);
        let p = printed(rest);
        lemma_pending_append(p, l);
        assert(printed(ls) == (p + l).push('\n')) by {
            assert(p + l.push('\n') =~= (p + l).push('\n'));
        }
        assert((p + l).push('\n').drop_last() =~= p + l);
        assert(pending_line(p) + l =~= l);
        assert(strip_cr(l) == l);
        assert(finished_lines(printed(ls)) =~= ls);
    } else {
        assert(printed(ls) =~= Seq::<char>::empty());
    }
}

proof fn lemma_read_lines_concat(f: FieldsModel, a: Seq<Seq<char>>, b: Seq<Seq<char>>)
    ensures
        read_lines_from(f, a + b) == read_lines_from(read_lines_from(f, a), b),
    decreases b.len(),
{
    if b.len() == 0 {
        assert(a + b =~= a);
    } else {
        lemma_read_lines_concat(f, a, b.drop_last());
        assert((a + b).drop_last() =~= a + b.drop_last());
        assert((a + b).last() == b.last());
    }
}

proof fn lemma_read_one(f: FieldsModel, x: Seq<char>)
    ensures
        read_lines_from(f, seq![x]) == apply_probe_line(f, x),
        read_lines_from(f, Seq::empty()) == f,
{
    assert(seq![x].drop_last() =~= Seq::<Seq<char>>::empty());
}

/// A line made of a report key and a value matches that key and no other.
proof fn lemma_keyed_line(k: Seq<char>, v: Seq<char>)
    requires
        key_form(k),
    ensures
        strip_prefix(k + v, k) == Some(v),
        forall|k2: Seq<char>| key_form(k2) && k2 != k ==> #[trigger] strip_prefix(k + v, k2) is None,
{
    assert((k + v).take(k.len() as int) =~= k);
    assert((k + v).skip(k.len() as int) =~= v);
    assert forall|k2: Seq<char>| key_form(k2) && k2 != k implies #[trigger] strip_prefix(k + v, k2) is None by {
        if strip_prefix(k + v, k2) is Some {
            let t = (k + v).take(k2.len() as int);
            assert(t == k2);
            if k2.len() <= k.len() {
                assert(t[k2.len() - 1] == k[k2.len() - 1]);
                assert(k2.len() == k.len());
                assert(k2 =~= k);
            } else {
                assert(t[k.len() - 1] == k[k.len() - 1]);
                assert(k2[k.len() - 1] == '=');
            }
        }
    }
}

/// The report keys are well formed and pairwise distinct.
proof fn lemma_probe_keys()
    ensures
        "current="@.len() == 8,
        "maximum="@.len() == 8,
        "current_label="@.len() == 14,
        "current_hex="@.len() == 12,
        "current_high_byte="@.len() == 18,
        "current_low_byte="@.len() == 17,
        "decoded_current="@.len() == 16,
        "decoded_current_source="@.len() == 23,
        "decoded_current_label="@.len() == 22,
        "writeback_value="@.len() == 16,
        "writeback_source="@.len() == 17,
        "writeback_label="@.len() == 16,
        "writeback_safe="@.len() == 15,
        "writeback_reason="@.len() == 17,
        no_line_break("current="@),
        no_line_break("maximum="@),
        no_line_break("current_label="@),
        no_line_break("current_hex="@),
        no_line_break("current_high_byte="@),
        no_line_break("current_low_byte="@),
        no_line_break("decoded_current="@),
        no_line_break("decoded_current_source="@),
        no_line_break("decoded_current_label="@),
        no_line_break("writeback_value="@),
        no_line_break("writeback_source="@),
        no_line_break("writeback_label="@),
        no_line_break("writeback_safe="@),
        no_line_break("writeback_reason="@),
        key_form("current="@),
        key_form("maximum="@),
        key_form("current_label="@),
        key_form("current_hex="@),
        key_form("current_high_byte="@),
        key_form("current_low_byte="@),
        key_form("decoded_current="@),
        key_form("decoded_current_source="@),
        key_form("decoded_current_label="@),
        key_form("writeback_value="@),
        key_form("writeback_source="@),
        key_form("writeback_label="@),
        key_form("writeback_safe="@),
        key_form("writeback_reason="@),
        "current="@ != "maximum="@,
        "current_low_byte="@ != "writeback_source="@,
        "current_low_byte="@ != "writeback_reason="@,
        "writeback_source="@ != "writeback_reason="@,
        "decoded_current="@ != "writeback_value="@,
        "decoded_current="@ != "writeback_label="@,
        "writeback_value="@ != "writeback_label="@,
{
    reveal_strlit("current=");
    reveal_strlit("maximum=");
    reveal_strlit("current_label=");
    reveal_strlit("current_hex=");
    reveal_strlit("current_high_byte=");
    reveal_strlit("current_low_byte=");
    reveal_strlit("decoded_current=");
    reveal_strlit("decoded_current_source=");
    reveal_strlit("decoded_current_label=");
    reveal_strlit("writeback_value=");
    reveal_strlit("writeback_source=");
    reveal_strlit("writeback_label=");
    reveal_strlit("writeback_safe=");
    reveal_strlit("writeback_reason=");
    assert("current="@[0] != "maximum="@[0]);
    assert("current_low_byte="@[0] != "writeback_source="@[0]);
    assert("current_low_byte="@[0] != "writeback_reason="@[0]);
    assert("writeback_source="@[10] != "writeback_reason="@[10]);
    assert("decoded_current="@[0] != "writeback_value="@[0]);
    assert("decoded_current="@[0] != "writeback_label="@[0]);
    assert("writeback_value="@[10] != "writeback_label="@[10]);
}

proof fn lemma_read_opt(f: FieldsModel, k: Seq<char>, v: Option<Seq<char>>)
    requires
        key_form(k),
    ensures
        read_lines_from(f, opt_line(k, v)) == match v {
            Some(x) => apply_probe_line(f, k + x),
            None => f,
        },
        v is Some ==> strip_prefix(k + v->0, k) == Some(v->0),
        v is Some ==> forall|k2: Seq<char>| key_form(k2) && k2 != k ==> #[trigger] strip_prefix(k + v->0, k2) is None,
{
    match v {
        Some(x) => {
            lemma_read_one(f, k + x);
            lemma_keyed_line(k, x);
        },
        None => {
            lemma_read_one(f, k);
        },
    }
}

proof fn lemma_digits_single_line(d: Seq<char>, radix: nat)
    requires
        all_digits(d, radix),
        radix <= 36,
    ensures
        no_line_break(d),
{
    assert forall|i: int| 0 <= i < d.len() implies d[i] != '\n' && d[i] != '\r' by {
        assert(digit_value(d[i], radix) is Some);
    }
}

proof fn lemma_decimal_line(n: nat)
    ensures
        no_line_break(decimal(n)),
        n <= 0xFFFF ==> number_text(decimal(n)) == Some(n as u16),
{
    lemma_decimal_parses(n);
    lemma_digits_single_line(decimal(n), 10);
}

proof fn lemma_opt_decimal_line(v: Option<u16>)
    ensures
        match opt_decimal(v) {
            Some(x) => no_line_break(x) && number_text(x) == v,
            None => v is None,
        },
{
    if let Some(n) = v {
        lemma_decimal_line(n as nat);
    }
}

proof fn lemma_label_single_line(os: Seq<ValueOptionModel>, value: u16)
    requires
        labels_single_line(os),
    ensures
        label_in(os, value) matches Some(l) ==> no_line_break(l),
{
    let p = |o: ValueOptionModel| o.value == value;
    lemma_first_match_found(os, p);
    if let Some(o) = first_match(os, p) {
        let i = choose|i: int| 0 <= i < os.len() && os[i] == o && p(o) && forall|j: int| 0 <= j < i ==> !p(#[trigger] os[j]);
        assert(no_line_break(os[i].label));
    }
}

/// The model of the value that a report of `current` and `maximum` tells.
pub open spec fn reported_probe(spec: Option<FeatureModel>, current: u16, maximum: u16) -> ProbeModel {
    let d = spec_decode_current(spec, current);
    let w = spec_writeback(spec, current, d);
    ProbeModel {
        current,
        maximum,
        current_label: spec_value_label(spec, current),
        current_hex: d.current_hex,
        current_high_byte: d.current_high_byte,
        current_low_byte: d.current_low_byte,
        decoded_current: d.decoded_current,
        decoded_current_source: d.decoded_current_source,
        decoded_current_label: d.decoded_current_label,
        writeback_value: w.value,
        writeback_source: w.source,
        writeback_label: w.label,
        writeback_safe: w.safe,
        writeback_reason: w.reason,
    }
}

/// The fixed words of a report are single lines.
proof fn lemma_report_words_single_line()
    ensures
        no_line_break("high-byte"@),
        no_line_break("low-byte"@),
        no_line_break("high-byte-zero-low-byte"@),
        no_line_break("low-byte-zero-high-byte"@),
        no_line_break("raw-current"@),
        no_line_break("exact-readback"@),
        no_line_break("decoded-labeled-current"@),
        no_line_break("ambiguous-packed-readback"@),
        no_line_break("no-writeback-candidate"@),
        no_line_break("true"@),
        no_line_break("false"@),
        no_line_break("0x"@),
{
    reveal_strlit("high-byte");
    reveal_strlit("low-byte");
    reveal_strlit("high-byte-zero-low-byte");
    reveal_strlit("low-byte-zero-high-byte");
    reveal_strlit("raw-current");
    reveal_strlit("exact-readback");
    reveal_strlit("decoded-labeled-current");
    reveal_strlit("ambiguous-packed-readback");
    reveal_strlit("no-writeback-candidate");
    reveal_strlit("true");
    reveal_strlit("false");
    reveal_strlit("0x");
}

pub open spec fn all_single_line(ls: Seq<Seq<char>>) -> bool {
    forall|i: int| 0 <= i < ls.len() ==> no_line_break(#[trigger] ls[i])
}

proof fn lemma_single_line_concat()
    ensures
        forall|a: Seq<Seq<char>>, b: Seq<Seq<char>>|
            #[trigger] all_single_line(a + b) <== all_single_line(a) && all_single_line(b),
        forall|a: Seq<char>, b: Seq<char>| #[trigger] no_line_break(a + b) <== no_line_break(a) && no_line_break(b),
{
    assert forall|a: Seq<Seq<char>>, b: Seq<Seq<char>>|
        all_single_line(a) && all_single_line(b) implies #[trigger] all_single_line(a + b) by {
        assert forall|i: int| 0 <= i < (a + b).len() implies no_line_break(#[trigger] (a + b)[i]) by {
            if i < a.len() {
                assert((a + b)[i] == a[i]);
            } else {
                assert((a + b)[i] == b[i - a.len()]);
            }
        }
    }
    assert forall|a: Seq<char>, b: Seq<char>| no_line_break(a) && no_line_break(b) implies #[trigger] no_line_break(
        a + b,
    ) by {
        assert forall|i: int| 0 <= i < (a + b).len() implies (a + b)[i] != '\n' && (a + b)[i] != '\r' by {
            if i < a.len() {
                assert((a + b)[i] == a[i]);
            } else {
                assert((a + b)[i] == b[i - a.len()]);
            }
        }
    }
}

proof fn lemma_opt_line_single(k: Seq<char>, v: Option<Seq<char>>)
    requires
        no_line_break(k),
        v matches Some(x) ==> no_line_break(x),
    ensures
        all_single_line(opt_line(k, v)),
{
    lemma_single_line_concat();
    if let Some(x) = v {
        assert(no_line_break(k + x));
        assert(opt_line(k, v)[0] == k + x);
    }
}

proof fn lemma_one_line_single(x: Seq<char>)
    requires
        no_line_break(x),
    ensures
        all_single_line(seq![x]),
{
}

proof fn lemma_write_label_single_line(spec: Option<FeatureModel>, value: u16)
    requires
        feature_labels_single_line(spec),
    ensures
        spec_write_value_label(spec, value) matches Some(l) ==> no_line_break(l),
        spec_value_label(spec, value) matches Some(l) ==> no_line_break(l),
{
    if let Some(f) = spec {
        lemma_label_single_line(spec_write_options(f), value);
        lemma_label_single_line(f.value_options, value);
    }
}

/// Every line of a report is a single line, given single-line labels.
proof fn lemma_report_single_line(spec: Option<FeatureModel>, current: u16, maximum: u16)
    requires
        feature_labels_single_line(spec),
    ensures
        all_single_line(spec_value_report(spec, current, maximum)),
{
    let d = spec_decode_current(spec, current);
    let w = spec_writeback(spec, current, d);
    lemma_probe_keys();
    lemma_report_words_single_line();
    lemma_single_line_concat();
    lemma_decimal_line(current as nat);
    lemma_decimal_line(maximum as nat);
    lemma_opt_decimal_line(d.current_high_byte);
    lemma_opt_decimal_line(d.current_low_byte);
    lemma_opt_decimal_line(d.decoded_current);
    lemma_opt_decimal_line(w.value);
    lemma_hex_padded_digits(current as nat, 4);
    lemma_digits_single_line(hex_padded(current as nat, 4), 16);
    lemma_write_label_single_line(spec, current);
    lemma_write_label_single_line(spec, high_byte(current));
    lemma_write_label_single_line(spec, low_byte(current));
    if let Some(v) = d.decoded_current {
        lemma_write_label_single_line(spec, v);
    }
    lemma_one_line_single("current="@ + decimal(current as nat));
    lemma_one_line_single("maximum="@ + decimal(maximum as nat));
    assert(seq!["current="@ + decimal(current as nat), "maximum="@ + decimal(maximum as nat)] =~= seq![
        "current="@ + decimal(current as nat),
    ] + seq!["maximum="@ + decimal(maximum as nat)]);
    lemma_opt_line_single("current_hex="@, d.current_hex);
    lemma_opt_line_single("current_high_byte="@, opt_decimal(d.current_high_byte));
    lemma_opt_line_single("current_low_byte="@, opt_decimal(d.current_low_byte));
    lemma_opt_line_single("current_label="@, spec_value_label(spec, current));
    lemma_opt_line_single("decoded_current="@, opt_decimal(d.decoded_current));
    lemma_opt_line_single("decoded_current_source="@, d.decoded_current_source);
    lemma_opt_line_single("decoded_current_label="@, d.decoded_current_label);
    lemma_opt_line_single("writeback_value="@, opt_decimal(w.value));
    lemma_opt_line_single("writeback_source="@, w.source);
    lemma_opt_line_single("writeback_label="@, w.label);
    lemma_one_line_single("writeback_safe="@ + bool_text(w.safe));
    lemma_opt_line_single("writeback_reason="@, w.reason);
}

/// The fields that a report of `current` and `maximum` sets.
pub open spec fn reported_fields(spec: Option<FeatureModel>, current: u16, maximum: u16) -> FieldsModel {
    let m = reported_probe(spec, current, maximum);
    FieldsModel {
        current: Some(current),
        maximum: Some(maximum),
        current_label: m.current_label,
        current_hex: m.current_hex,
        current_high_byte: m.current_high_byte,
        current_low_byte: m.current_low_byte,
        decoded_current: m.decoded_current,
        decoded_current_source: m.decoded_current_source,
        decoded_current_label: m.decoded_current_label,
        writeback_value: m.writeback_value,
        writeback_source: m.writeback_source,
        writeback_label: m.writeback_label,
        writeback_safe: m.writeback_safe,
        writeback_reason: m.writeback_reason,
    }
}

proof fn lemma_safe_text(b: bool)
    ensures
        eq_ignore_case(bool_text(b), "true"@) == b,
{
    reveal_strlit("true");
    reveal_strlit("false");
    lemma_lower_len("false"@);
    lemma_lower_len("true"@);
}

proof fn lemma_opt_decimal_value(v: Option<u16>)
    ensures
        v is Some ==> number_text(opt_decimal(v)->0) == v,
{
    lemma_opt_decimal_line(v);
}

proof fn lemma_read_current_label(f: FieldsModel, v: Option<Seq<char>>)
    ensures
        v is Some ==> read_lines_from(f, opt_line("current_label="@, v)) == (FieldsModel { current_label: v, ..f }),
        v is None ==> read_lines_from(f, opt_line("current_label="@, v)) == f,
{
    lemma_probe_keys();
    lemma_read_opt(f, "current_label="@, v);
}

proof fn lemma_read_current_hex(f: FieldsModel, v: Option<Seq<char>>)
    ensures
        v is Some ==> read_lines_from(f, opt_line("current_hex="@, v)) == (FieldsModel { current_hex: v, ..f }),
        v is None ==> read_lines_from(f, opt_line("current_hex="@, v)) == f,
{
    lemma_probe_keys();
    lemma_read_opt(f, "current_hex="@, v);
}

proof fn lemma_read_current_high_byte(f: FieldsModel, v: Option<u16>)
    ensures
        v is Some ==> read_lines_from(f, opt_line("current_high_byte="@, opt_decimal(v))) == (FieldsModel { current_high_byte: v, ..f }),
        v is None ==> read_lines_from(f, opt_line("current_high_byte="@, opt_decimal(v))) == f,
{
    lemma_probe_keys();
    lemma_opt_decimal_value(v);
    lemma_read_opt(f, "current_high_byte="@, opt_decimal(v));
}

proof fn lemma_read_current_low_byte(f: FieldsModel, v: Option<u16>)
    ensures
        v is Some ==> read_lines_from(f, opt_line("current_low_byte="@, opt_decimal(v))) == (FieldsModel { current_low_byte: v, ..f }),
        v is None ==> read_lines_from(f, opt_line("current_low_byte="@, opt_decimal(v))) == f,
{
    lemma_probe_keys();
    lemma_opt_decimal_value(v);
    lemma_read_opt(f, "current_low_byte="@, opt_decimal(v));
}

proof fn lemma_read_decoded_current(f: FieldsModel, v: Option<u16>)
    ensures
        v is Some ==> read_lines_from(f, opt_line("decoded_current="@, opt_decimal(v))) == (FieldsModel { decoded_current: v, ..f }),
        v is None ==> read_lines_from(f, opt_line("decoded_current="@, opt_decimal(v))) == f,
{
    lemma_probe_keys();
    lemma_opt_decimal_value(v);
    lemma_read_opt(f, "decoded_current="@, opt_decimal(v));
}

proof fn lemma_read_decoded_current_source(f: FieldsModel, v: Option<Seq<char>>)
    ensures
        v is Some ==> read_lines_from(f, opt_line("decoded_current_source="@, v)) == (FieldsModel { decoded_current_source: v, ..f }),
        v is None ==> read_lines_from(f, opt_line("decoded_current_source="@, v)) == f,
{
    lemma_probe_keys();
    lemma_read_opt(f, "decoded_current_source="@, v);
}

proof fn lemma_read_decoded_current_label(f: FieldsModel, v: Option<Seq<char>>)
    ensures
        v is Some ==> read_lines_from(f, opt_line("decoded_current_label="@, v)) == (FieldsModel { decoded_current_label: v, ..f }),
        v is None ==> read_lines_from(f, opt_line("decoded_current_label="@, v)) == f,
{
    lemma_probe_keys();
    lemma_read_opt(f, "decoded_current_label="@, v);
}

proof fn lemma_read_writeback_value(f: FieldsModel, v: Option<u16>)
    ensures
        v is Some ==> read_lines_from(f, opt_line("writeback_value="@, opt_decimal(v))) == (FieldsModel { writeback_value: v, ..f }),
        v is None ==> read_lines_from(f, opt_line("writeback_value="@, opt_decimal(v))) == f,
{
    lemma_probe_keys();
    lemma_opt_decimal_value(v);
    lemma_read_opt(f, "writeback_value="@, opt_decimal(v));
}

proof fn lemma_read_writeback_source(f: FieldsModel, v: Option<Seq<char>>)
    ensures
        v is Some ==> read_lines_from(f, opt_line("writeback_source="@, v)) == (FieldsModel { writeback_source: v, ..f }),
        v is None ==> read_lines_from(f, opt_line("writeback_source="@, v)) == f,
{
    lemma_probe_keys();
    lemma_read_opt(f, "writeback_source="@, v);
}

proof fn lemma_read_writeback_label(f: FieldsModel, v: Option<Seq<char>>)
    ensures
        v is Some ==> read_lines_from(f, opt_line("writeback_label="@, v)) == (FieldsModel { writeback_label: v, ..f }),
        v is None ==> read_lines_from(f, opt_line("writeback_label="@, v)) == f,
{
    lemma_probe_keys();
    lemma_read_opt(f, "writeback_label="@, v);
}

proof fn lemma_read_writeback_safe(f: FieldsModel, b: bool)
    ensures
        read_lines_from(f, seq!["writeback_safe="@ + bool_text(b)]) == (FieldsModel { writeback_safe: b, ..f }),
{
    lemma_probe_keys();
    lemma_safe_text(b);
    lemma_read_one(f, "writeback_safe="@ + bool_text(b));
    lemma_keyed_line("writeback_safe="@, bool_text(b));
}

proof fn lemma_read_writeback_reason(f: FieldsModel, v: Option<Seq<char>>)
    ensures
        v is Some ==> read_lines_from(f, opt_line("writeback_reason="@, v)) == (FieldsModel { writeback_reason: v, ..f }),
        v is None ==> read_lines_from(f, opt_line("writeback_reason="@, v)) == f,
{
    lemma_probe_keys();
    lemma_read_opt(f, "writeback_reason="@, v);
}

proof fn lemma_read_first_two(current: u16, maximum: u16)
    ensures
        read_lines_from(
            initial_fields(),
            seq!["current="@ + decimal(current as nat), "maximum="@ + decimal(maximum as nat)],
        ) == (FieldsModel { current: Some(current), maximum: Some(maximum), ..initial_fields() }),
{
    let f0 = initial_fields();
    let l0 = "current="@ + decimal(current as nat);
    let l1 = "maximum="@ + decimal(maximum as nat);
    lemma_probe_keys();
    lemma_decimal_line(current as nat);
    lemma_decimal_line(maximum as nat);
    assert(seq![l0, l1] =~= seq![l0] + seq![l1]);
    lemma_read_one(f0, l0);
    lemma_keyed_line("current="@, decimal(current as nat));
    lemma_read_lines_concat(f0, seq![l0], seq![l1]);
    lemma_read_one(apply_probe_line(f0, l0), l1);
    lemma_keyed_line("maximum="@, decimal(maximum as nat));
}

/// Reading the lines of a report sets each field to what was reported.
proof fn lemma_report_reads(spec: Option<FeatureModel>, current: u16, maximum: u16)
    ensures
        read_lines(spec_value_report(spec, current, maximum)) == reported_fields(spec, current, maximum),
{
    let d = spec_decode_current(spec, current);
    let w = spec_writeback(spec, current, d);
    let f0 = initial_fields();
    let x1 = seq!["current="@ + decimal(current as nat), "maximum="@ + decimal(maximum as nat)];
    lemma_read_first_two(current, maximum);
    let mut x = x1;
    let mut f = read_lines_from(f0, x1);
    lemma_read_lines_concat(f0, x, opt_line("current_hex="@, d.current_hex));
    lemma_read_current_hex(f, d.current_hex);
    f = read_lines_from(f, opt_line("current_hex="@, d.current_hex));
    x = x + opt_line("current_hex="@, d.current_hex);
    lemma_read_lines_concat(f0, x, opt_line("current_high_byte="@, opt_decimal(d.current_high_byte)));
    lemma_read_current_high_byte(f, d.current_high_byte);
    f = read_lines_from(f, opt_line("current_high_byte="@, opt_decimal(d.current_high_byte)));
    x = x + opt_line("current_high_byte="@, opt_decimal(d.current_high_byte));
    lemma_read_lines_concat(f0, x, opt_line("current_low_byte="@, opt_decimal(d.current_low_byte)));
    lemma_read_current_low_byte(f, d.current_low_byte);
    f = read_lines_from(f, opt_line("current_low_byte="@, opt_decimal(d.current_low_byte)));
    x = x + opt_line("current_low_byte="@, opt_decimal(d.current_low_byte));
    lemma_read_lines_concat(f0, x, opt_line("current_label="@, spec_value_label(spec, current)));
    lemma_read_current_label(f, spec_value_label(spec, current));
    f = read_lines_from(f, opt_line("current_label="@, spec_value_label(spec, current)));
    x = x + opt_line("current_label="@, spec_value_label(spec, current));
    lemma_read_lines_concat(f0, x, opt_line("decoded_current="@, opt_decimal(d.decoded_current)));
    lemma_read_decoded_current(f, d.decoded_current);
    f = read_lines_from(f, opt_line("decoded_current="@, opt_decimal(d.decoded_current)));
    x = x + opt_line("decoded_current="@, opt_decimal(d.decoded_current));
    lemma_read_lines_concat(f0, x, opt_line("decoded_current_source="@, d.decoded_current_source));
    lemma_read_decoded_current_source(f, d.decoded_current_source);
    f = read_lines_from(f, opt_line("decoded_current_source="@, d.decoded_current_source));
    x = x + opt_line("decoded_current_source="@, d.decoded_current_source);
    lemma_read_lines_concat(f0, x, opt_line("decoded_current_label="@, d.decoded_current_label));
    lemma_read_decoded_current_label(f, d.decoded_current_label);
    f = read_lines_from(f, opt_line("decoded_current_label="@, d.decoded_current_label));
    x = x + opt_line("decoded_current_label="@, d.decoded_current_label);
    lemma_read_lines_concat(f0, x, opt_line("writeback_value="@, opt_decimal(w.value)));
    lemma_read_writeback_value(f, w.value);
    f = read_lines_from(f, opt_line("writeback_value="@, opt_decimal(w.value)));
    x = x + opt_line("writeback_value="@, opt_decimal(w.value));
    lemma_read_lines_concat(f0, x, opt_line("writeback_source="@, w.source));
    lemma_read_writeback_source(f, w.source);
    f = read_lines_from(f, opt_line("writeback_source="@, w.source));
    x = x + opt_line("writeback_source="@, w.source);
    lemma_read_lines_concat(f0, x, opt_line("writeback_label="@, w.label));
    lemma_read_writeback_label(f, w.label);
    f = read_lines_from(f, opt_line("writeback_label="@, w.label));
    x = x + opt_line("writeback_label="@, w.label);
    lemma_read_lines_concat(f0, x, seq!["writeback_safe="@ + bool_text(w.safe)]);
    lemma_read_writeback_safe(f, w.safe);
    f = read_lines_from(f, seq!["writeback_safe="@ + bool_text(w.safe)]);
    x = x + seq!["writeback_safe="@ + bool_text(w.safe)];
    lemma_read_lines_concat(f0, x, opt_line("writeback_reason="@, w.reason));
    lemma_read_writeback_reason(f, w.reason);
    f = read_lines_from(f, opt_line("writeback_reason="@, w.reason));
    x = x + opt_line("writeback_reason="@, w.reason);
    assert(x == spec_value_report(spec, current, maximum));
    assert(f =~= reported_fields(spec, current, maximum));
}

/// What a probe prints of a read value, its parent reads back unchanged:
/// the reading, its byte decoding and the writeback choice, provided the
/// feature's labels are single lines.
pub proof fn law_probe_report_reads_back(code: u8, spec: Option<FeatureModel>, current: u16, maximum: u16)
    requires
        feature_labels_single_line(spec),
    ensures
        spec_parse_probe_output(code, printed(spec_value_report(spec, current, maximum))) == Ok::<
            ProbeModel,
            Seq<char>,
        >(reported_probe(spec, current, maximum)),
{
    let report = spec_value_report(spec, current, maximum);
    lemma_report_single_line(spec, current, maximum);
    lemma_lines_of_printed(report);
    lemma_report_reads(spec, current, maximum);
    assert(fields_result(reported_fields(spec, current, maximum), current, maximum) =~= reported_probe(
        spec,
        current,
        maximum,
    ));
}

} // verus!
