//! The monitor tables: the generic VCP feature table and the per-model
//! profiles, each as executable `'static` data and as its model.

use vstd::prelude::*;

use crate::readback::{feature_labels_single_line, labels_single_line};
use crate::text::{
    decimal, eq_ignore_case, hex_code, is_ws, lemma_decimal_number, lemma_hex_code_parses, lemma_trim_end_keeps_first, lower,
    lower_char, normalized, parse_number, trim, trim_end, trim_start,
};
use crate::profile::{
    any_normalized, feature_by_code, feature_named, first_match, label_in, law_code_argument_resolves_to_code,
    lemma_first_match_found, lemma_first_match_none, option_named, spec_controls_for, spec_resolve_feature,
    spec_resolve_value, spec_write_options, spec_write_value_label, ResolvedModel,
    features_view, profiles_view, FeatureModel, FeatureSpec, MonitorProfile, ProfileModel, ValueOption,
    ValueOptionModel,
};

verus! {

/// Input sources of the generic table (VCP 0x60).
pub open spec fn generic_input_models() -> Seq<ValueOptionModel> {
    seq![
        ValueOptionModel { value: 1, label: "vga-1"@, aliases: seq!["vga"@, "vga-1"@, "analog"@] },
        ValueOptionModel { value: 3, label: "dvi-1"@, aliases: seq!["dvi"@, "dvi-1"@] },
        ValueOptionModel { value: 15, label: "displayport-1"@, aliases: seq!["displayport"@, "displayport-1"@, "dp"@, "dp-1"@] },
        ValueOptionModel { value: 16, label: "displayport-2"@, aliases: seq!["displayport-2"@, "dp2"@, "dp-2"@] },
        ValueOptionModel { value: 17, label: "hdmi-1"@, aliases: seq!["hdmi-1"@] },
        ValueOptionModel { value: 18, label: "hdmi-2"@, aliases: seq!["hdmi-2"@] },
        ValueOptionModel { value: 27, label: "usb-c"@, aliases: seq!["usb-c"@, "type-c"@] },
    ]
}

/// Power modes (VCP 0xD6).
pub open spec fn power_models() -> Seq<ValueOptionModel> {
    seq![
        ValueOptionModel { value: 1, label: "on"@, aliases: seq!["on"@, "normal"@] },
        ValueOptionModel { value: 4, label: "off"@, aliases: seq!["off"@, "soft-off"@] },
    ]
}

/// Input sources as the Dell P2711V reports and accepts them.
pub open spec fn p2711v_input_models() -> Seq<ValueOptionModel> {
    seq![
        ValueOptionModel { value: 15, label: "dp"@, aliases: seq!["displayport"@, "displayport-1"@, "dp"@, "dp1"@, "dp-1"@] },
        ValueOptionModel { value: 16, label: "displayport-2"@, aliases: seq!["displayport-2"@, "dp2"@, "dp-2"@] },
        ValueOptionModel { value: 17, label: "hdmi-1"@, aliases: seq!["hdmi-1"@, "hdmi1"@] },
        ValueOptionModel { value: 18, label: "hdmi"@, aliases: seq!["hdmi"@, "hdmi-2"@, "hdmi2"@] },
    ]
}

/// Input sources that the Dell V2419QW accepts when written.
pub open spec fn v2419qw_input_write_models() -> Seq<ValueOptionModel> {
    seq![
        ValueOptionModel { value: 15, label: "hdmi-2"@, aliases: seq!["hdmi-2"@, "hdmi2"@] },
        ValueOptionModel { value: 17, label: "hdmi-1"@, aliases: seq!["hdmi"@, "hdmi-1"@, "hdmi1"@] },
        ValueOptionModel { value: 18, label: "source-18"@, aliases: seq!["source-18"@, "input-18"@, "code-18"@] },
    ]
}

/// Features of the generic table, used when no profile applies.
pub open spec fn generic_feature_models() -> Seq<FeatureModel> {
    seq![
        FeatureModel {
            code: 0x10,
            name: "brightness"@,
            aliases: seq!["brightness"@, "luminance"@],
            writable: true,
            value_options: Seq::empty(),
            write_options: Seq::empty(),
        },
        FeatureModel {
            code: 0x12,
            name: "contrast"@,
            aliases: seq!["contrast"@],
            writable: true,
            value_options: Seq::empty(),
            write_options: Seq::empty(),
        },
        FeatureModel {
            code: 0x60,
            name: "input"@,
            aliases: seq!["input"@, "input-source"@, "source"@],
            writable: true,
            value_options: generic_input_models(),
            write_options: generic_input_models(),
        },
        FeatureModel {
            code: 0x62,
            name: "volume"@,
            aliases: seq!["volume"@, "speaker-volume"@],
            writable: true,
            value_options: Seq::empty(),
            write_options: Seq::empty(),
        },
        FeatureModel {
            code: 0xD6,
            name: "power"@,
            aliases: seq!["power"@, "power-mode"@],
            writable: true,
            value_options: power_models(),
            write_options: power_models(),
        },
        FeatureModel {
            code: 0xDF,
            name: "vcp-version"@,
            aliases: seq!["vcp-version"@, "vcp"@, "mccs-version"@],
            writable: false,
            value_options: Seq::empty(),
            write_options: Seq::empty(),
        },
    ]
}

/// Features of the Dell P2711V profile.
pub open spec fn p2711v_feature_models() -> Seq<FeatureModel> {
    seq![
        FeatureModel {
            code: 0x10,
            name: "brightness"@,
            aliases: seq!["brightness"@, "luminance"@],
            writable: true,
            value_options: Seq::empty(),
            write_options: Seq::empty(),
        },
        FeatureModel {
            code: 0x12,
            name: "contrast"@,
            aliases: seq!["contrast"@],
            writable: true,
            value_options: Seq::empty(),
            write_options: Seq::empty(),
        },
        FeatureModel {
            code: 0x60,
            name: "input"@,
            aliases: seq!["input"@, "input-source"@, "source"@],
            writable: true,
            value_options: p2711v_input_models(),
            write_options: p2711v_input_models(),
        },
        FeatureModel {
            code: 0x62,
            name: "volume"@,
            aliases: seq!["volume"@, "speaker-volume"@],
            writable: true,
            value_options: Seq::empty(),
            write_options: Seq::empty(),
        },
        FeatureModel {
            code: 0xD6,
            name: "power"@,
            aliases: seq!["power"@, "power-mode"@],
            writable: true,
            value_options: power_models(),
            write_options: power_models(),
        },
        FeatureModel {
            code: 0xDF,
            name: "vcp-version"@,
            aliases: seq!["vcp-version"@, "vcp"@, "mccs-version"@],
            writable: false,
            value_options: Seq::empty(),
            write_options: Seq::empty(),
        },
    ]
}

/// Features of the Dell V2419QW profile.
pub open spec fn v2419qw_feature_models() -> Seq<FeatureModel> {
    seq![
        FeatureModel {
            code: 0x10,
            name: "brightness"@,
            aliases: seq!["brightness"@, "luminance"@],
            writable: true,
            value_options: Seq::empty(),
            write_options: Seq::empty(),
        },
        FeatureModel {
            code: 0x12,
            name: "contrast"@,
            aliases: seq!["contrast"@],
            writable: true,
            value_options: Seq::empty(),
            write_options: Seq::empty(),
        },
        FeatureModel {
            code: 0x60,
            name: "input"@,
            aliases: seq!["input"@, "input-source"@, "source"@],
            writable: true,
            value_options: Seq::empty(),
            write_options: v2419qw_input_write_models(),
        },
        FeatureModel {
            code: 0x62,
            name: "volume"@,
            aliases: seq!["volume"@, "speaker-volume"@],
            writable: true,
            value_options: Seq::empty(),
            write_options: Seq::empty(),
        },
        FeatureModel {
            code: 0xD6,
            name: "power"@,
            aliases: seq!["power"@, "power-mode"@],
            writable: true,
            value_options: power_models(),
            write_options: power_models(),
        },
        FeatureModel {
            code: 0xDF,
            name: "vcp-version"@,
            aliases: seq!["vcp-version"@, "vcp"@, "mccs-version"@],
            writable: false,
            value_options: Seq::empty(),
            write_options: Seq::empty(),
        },
    ]
}

/// VCP codes observed readable on the Dell P2711V.
pub open spec fn p2711v_observed_codes() -> Seq<u8> {
    seq![0x02u8, 0x04u8, 0x05u8, 0x06u8, 0x08u8, 0x0Bu8, 0x0Cu8, 0x0Eu8, 0x10u8, 0x12u8, 0x13u8, 0x14u8, 0x16u8, 0x18u8, 0x1Au8, 0x1Eu8, 0x20u8, 0x22u8, 0x24u8, 0x26u8, 0x27u8, 0x29u8, 0x30u8, 0x31u8, 0x33u8, 0x35u8, 0x3Eu8, 0x51u8, 0x52u8, 0x55u8, 0x60u8, 0x62u8, 0x68u8, 0x69u8, 0x6Cu8, 0x6Eu8, 0x70u8, 0x8Du8, 0xA8u8, 0xACu8, 0xAEu8, 0xB2u8, 0xB4u8, 0xB6u8, 0xC0u8, 0xC6u8, 0xC8u8, 0xC9u8, 0xCAu8, 0xCCu8, 0xD6u8, 0xDCu8, 0xDFu8, 0xE0u8, 0xE1u8, 0xE2u8, 0xF0u8, 0xF3u8, 0xF7u8, 0xFAu8, 0xFDu8, 0xFEu8, 0xFFu8]
}

/// The known monitor profiles, in the order in which they are tried.
pub open spec fn profile_models() -> Seq<ProfileModel> {
    seq![
        ProfileModel {
            key: "dell-p2711v"@,
            name: "Dell P2711V"@,
            matchers: seq!["p2711v"@],
            features: p2711v_feature_models(),
            observed_readable_codes: p2711v_observed_codes(),
        },
        ProfileModel {
            key: "dell-v2419qw"@,
            name: "Dell V2419QW"@,
            matchers: seq!["v2419qw"@],
            features: v2419qw_feature_models(),
            observed_readable_codes: Seq::empty(),
        },
    ]
}

/// The generic feature table, used when no profile applies.
pub fn generic_features() -> (r: &'static [FeatureSpec])
    ensures
        features_view(r@) == generic_feature_models(),
{
    let r: &'static [FeatureSpec] = &[
        FeatureSpec {
            code: 0x10,
            name: "brightness",
            aliases: &["brightness", "luminance"],
            writable: true,
            value_options: &[],
            write_options: &[],
        },
        FeatureSpec {
            code: 0x12,
            name: "contrast",
            aliases: &["contrast"],
            writable: true,
            value_options: &[],
            write_options: &[],
        },
        FeatureSpec {
            code: 0x60,
            name: "input",
            aliases: &["input", "input-source", "source"],
            writable: true,
            value_options: &[
                ValueOption {
                    value: 1,
                    label: "vga-1",
                    aliases: &["vga", "vga-1", "analog"],
                },
                ValueOption {
                    value: 3,
                    label: "dvi-1",
                    aliases: &["dvi", "dvi-1"],
                },
                ValueOption {
                    value: 15,
                    label: "displayport-1",
                    aliases: &["displayport", "displayport-1", "dp", "dp-1"],
                },
                ValueOption {
                    value: 16,
                    label: "displayport-2",
                    aliases: &["displayport-2", "dp2", "dp-2"],
                },
                ValueOption {
                    value: 17,
                    label: "hdmi-1",
                    aliases: &["hdmi-1"],
                },
                ValueOption {
                    value: 18,
                    label: "hdmi-2",
                    aliases: &["hdmi-2"],
                },
                ValueOption {
                    value: 27,
                    label: "usb-c",
                    aliases: &["usb-c", "type-c"],
                },
            ],
            write_options: &[
                ValueOption {
                    value: 1,
                    label: "vga-1",
                    aliases: &["vga", "vga-1", "analog"],
                },
                ValueOption {
                    value: 3,
                    label: "dvi-1",
                    aliases: &["dvi", "dvi-1"],
                },
                ValueOption {
                    value: 15,
                    label: "displayport-1",
                    aliases: &["displayport", "displayport-1", "dp", "dp-1"],
                },
                ValueOption {
                    value: 16,
                    label: "displayport-2",
                    aliases: &["displayport-2", "dp2", "dp-2"],
                },
                ValueOption {
                    value: 17,
                    label: "hdmi-1",
                    aliases: &["hdmi-1"],
                },
                ValueOption {
                    value: 18,
                    label: "hdmi-2",
                    aliases: &["hdmi-2"],
                },
                ValueOption {
                    value: 27,
                    label: "usb-c",
                    aliases: &["usb-c", "type-c"],
                },
            ],
        },
        FeatureSpec {
            code: 0x62,
            name: "volume",
            aliases: &["volume", "speaker-volume"],
            writable: true,
            value_options: &[],
            write_options: &[],
        },
        FeatureSpec {
            code: 0xD6,
            name: "power",
            aliases: &["power", "power-mode"],
            writable: true,
            value_options: &[
                ValueOption {
                    value: 1,
                    label: "on",
                    aliases: &["on", "normal"],
                },
                ValueOption {
                    value: 4,
                    label: "off",
                    aliases: &["off", "soft-off"],
                },
            ],
            write_options: &[
                ValueOption {
                    value: 1,
                    label: "on",
                    aliases: &["on", "normal"],
                },
                ValueOption {
                    value: 4,
                    label: "off",
                    aliases: &["off", "soft-off"],
                },
            ],
        },
        FeatureSpec {
            code: 0xDF,
            name: "vcp-version",
            aliases: &["vcp-version", "vcp", "mccs-version"],
            writable: false,
            value_options: &[],
            write_options: &[],
        },
    ];
    assert(features_view(r@) =~~= generic_feature_models());
    r
}

/// The feature table of the Dell P2711V profile.
pub fn p2711v_features() -> (r: &'static [FeatureSpec])
    ensures
        features_view(r@) == p2711v_feature_models(),
{
    let r: &'static [FeatureSpec] = &[
        FeatureSpec {
            code: 0x10,
            name: "brightness",
            aliases: &["brightness", "luminance"],
            writable: true,
            value_options: &[],
            write_options: &[],
        },
        FeatureSpec {
            code: 0x12,
            name: "contrast",
            aliases: &["contrast"],
            writable: true,
            value_options: &[],
            write_options: &[],
        },
        FeatureSpec {
            code: 0x60,
            name: "input",
            aliases: &["input", "input-source", "source"],
            writable: true,
            value_options: &[
                ValueOption {
                    value: 15,
                    label: "dp",
                    aliases: &["displayport", "displayport-1", "dp", "dp1", "dp-1"],
                },
                ValueOption {
                    value: 16,
                    label: "displayport-2",
                    aliases: &["displayport-2", "dp2", "dp-2"],
                },
                ValueOption {
                    value: 17,
                    label: "hdmi-1",
                    aliases: &["hdmi-1", "hdmi1"],
                },
                ValueOption {
                    value: 18,
                    label: "hdmi",
                    aliases: &["hdmi", "hdmi-2", "hdmi2"],
                },
            ],
            write_options: &[
                ValueOption {
                    value: 15,
                    label: "dp",
                    aliases: &["displayport", "displayport-1", "dp", "dp1", "dp-1"],
                },
                ValueOption {
                    value: 16,
                    label: "displayport-2",
                    aliases: &["displayport-2", "dp2", "dp-2"],
                },
                ValueOption {
                    value: 17,
                    label: "hdmi-1",
                    aliases: &["hdmi-1", "hdmi1"],
                },
                ValueOption {
                    value: 18,
                    label: "hdmi",
                    aliases: &["hdmi", "hdmi-2", "hdmi2"],
                },
            ],
        },
        FeatureSpec {
            code: 0x62,
            name: "volume",
            aliases: &["volume", "speaker-volume"],
            writable: true,
            value_options: &[],
            write_options: &[],
        },
        FeatureSpec {
            code: 0xD6,
            name: "power",
            aliases: &["power", "power-mode"],
            writable: true,
            value_options: &[
                ValueOption {
                    value: 1,
                    label: "on",
                    aliases: &["on", "normal"],
                },
                ValueOption {
                    value: 4,
                    label: "off",
                    aliases: &["off", "soft-off"],
                },
            ],
            write_options: &[
                ValueOption {
                    value: 1,
                    label: "on",
                    aliases: &["on", "normal"],
                },
                ValueOption {
                    value: 4,
                    label: "off",
                    aliases: &["off", "soft-off"],
                },
            ],
        },
        FeatureSpec {
            code: 0xDF,
            name: "vcp-version",
            aliases: &["vcp-version", "vcp", "mccs-version"],
            writable: false,
            value_options: &[],
            write_options: &[],
        },
    ];
    assert(features_view(r@) =~~= p2711v_feature_models());
    r
}

/// The feature table of the Dell V2419QW profile.
pub fn v2419qw_features() -> (r: &'static [FeatureSpec])
    ensures
        features_view(r@) == v2419qw_feature_models(),
{
    let r: &'static [FeatureSpec] = &[
        FeatureSpec {
            code: 0x10,
            name: "brightness",
            aliases: &["brightness", "luminance"],
            writable: true,
            value_options: &[],
            write_options: &[],
        },
        FeatureSpec {
            code: 0x12,
            name: "contrast",
            aliases: &["contrast"],
            writable: true,
            value_options: &[],
            write_options: &[],
        },
        FeatureSpec {
            code: 0x60,
            name: "input",
            aliases: &["input", "input-source", "source"],
            writable: true,
            value_options: &[],
            write_options: &[
                ValueOption {
                    value: 15,
                    label: "hdmi-2",
                    aliases: &["hdmi-2", "hdmi2"],
                },
                ValueOption {
                    value: 17,
                    label: "hdmi-1",
                    aliases: &["hdmi", "hdmi-1", "hdmi1"],
                },
                ValueOption {
                    value: 18,
                    label: "source-18",
                    aliases: &["source-18", "input-18", "code-18"],
                },
            ],
        },
        FeatureSpec {
            code: 0x62,
            name: "volume",
            aliases: &["volume", "speaker-volume"],
            writable: true,
            value_options: &[],
            write_options: &[],
        },
        FeatureSpec {
            code: 0xD6,
            name: "power",
            aliases: &["power", "power-mode"],
            writable: true,
            value_options: &[
                ValueOption {
                    value: 1,
                    label: "on",
                    aliases: &["on", "normal"],
                },
                ValueOption {
                    value: 4,
                    label: "off",
                    aliases: &["off", "soft-off"],
                },
            ],
            write_options: &[
                ValueOption {
                    value: 1,
                    label: "on",
                    aliases: &["on", "normal"],
                },
                ValueOption {
                    value: 4,
                    label: "off",
                    aliases: &["off", "soft-off"],
                },
            ],
        },
        FeatureSpec {
            code: 0xDF,
            name: "vcp-version",
            aliases: &["vcp-version", "vcp", "mccs-version"],
            writable: false,
            value_options: &[],
            write_options: &[],
        },
    ];
    assert(features_view(r@) =~~= v2419qw_feature_models());
    r
}

/// The known monitor profiles, in the order in which they are tried.
pub fn profiles() -> (r: &'static [MonitorProfile])
    ensures
        profiles_view(r@) == profile_models(),
{
    let r: &'static [MonitorProfile] = &[
        MonitorProfile {
            key: "dell-p2711v",
            name: "Dell P2711V",
            matchers: &["p2711v"],
            features: &[
                FeatureSpec {
                    code: 0x10,
                    name: "brightness",
                    aliases: &["brightness", "luminance"],
                    writable: true,
                    value_options: &[],
                    write_options: &[],
                },
                FeatureSpec {
                    code: 0x12,
                    name: "contrast",
                    aliases: &["contrast"],
                    writable: true,
                    value_options: &[],
                    write_options: &[],
                },
                FeatureSpec {
                    code: 0x60,
                    name: "input",
                    aliases: &["input", "input-source", "source"],
                    writable: true,
                    value_options: &[
                        ValueOption {
                            value: 15,
                            label: "dp",
                            aliases: &["displayport", "displayport-1", "dp", "dp1", "dp-1"],
                        },
                        ValueOption {
                            value: 16,
                            label: "displayport-2",
                            aliases: &["displayport-2", "dp2", "dp-2"],
                        },
                        ValueOption {
                            value: 17,
                            label: "hdmi-1",
                            aliases: &["hdmi-1", "hdmi1"],
                        },
                        ValueOption {
                            value: 18,
                            label: "hdmi",
                            aliases: &["hdmi", "hdmi-2", "hdmi2"],
                        },
                    ],
                    write_options: &[
                        ValueOption {
                            value: 15,
                            label: "dp",
                            aliases: &["displayport", "displayport-1", "dp", "dp1", "dp-1"],
                        },
                        ValueOption {
                            value: 16,
                            label: "displayport-2",
                            aliases: &["displayport-2", "dp2", "dp-2"],
                        },
                        ValueOption {
                            value: 17,
                            label: "hdmi-1",
                            aliases: &["hdmi-1", "hdmi1"],
                        },
                        ValueOption {
                            value: 18,
                            label: "hdmi",
                            aliases: &["hdmi", "hdmi-2", "hdmi2"],
                        },
                    ],
                },
                FeatureSpec {
                    code: 0x62,
                    name: "volume",
                    aliases: &["volume", "speaker-volume"],
                    writable: true,
                    value_options: &[],
                    write_options: &[],
                },
                FeatureSpec {
                    code: 0xD6,
                    name: "power",
                    aliases: &["power", "power-mode"],
                    writable: true,
                    value_options: &[
                        ValueOption {
                            value: 1,
                            label: "on",
                            aliases: &["on", "normal"],
                        },
                        ValueOption {
                            value: 4,
                            label: "off",
                            aliases: &["off", "soft-off"],
                        },
                    ],
                    write_options: &[
                        ValueOption {
                            value: 1,
                            label: "on",
                            aliases: &["on", "normal"],
                        },
                        ValueOption {
                            value: 4,
                            label: "off",
                            aliases: &["off", "soft-off"],
                        },
                    ],
                },
                FeatureSpec {
                    code: 0xDF,
                    name: "vcp-version",
                    aliases: &["vcp-version", "vcp", "mccs-version"],
                    writable: false,
                    value_options: &[],
                    write_options: &[],
                },
            ],
            observed_readable_codes: &[0x02, 0x04, 0x05, 0x06, 0x08, 0x0B, 0x0C, 0x0E, 0x10, 0x12, 0x13, 0x14, 0x16, 0x18, 0x1A, 0x1E, 0x20, 0x22, 0x24, 0x26, 0x27, 0x29, 0x30, 0x31, 0x33, 0x35, 0x3E, 0x51, 0x52, 0x55, 0x60, 0x62, 0x68, 0x69, 0x6C, 0x6E, 0x70, 0x8D, 0xA8, 0xAC, 0xAE, 0xB2, 0xB4, 0xB6, 0xC0, 0xC6, 0xC8, 0xC9, 0xCA, 0xCC, 0xD6, 0xDC, 0xDF, 0xE0, 0xE1, 0xE2, 0xF0, 0xF3, 0xF7, 0xFA, 0xFD, 0xFE, 0xFF],
        },
        MonitorProfile {
            key: "dell-v2419qw",
            name: "Dell V2419QW",
            matchers: &["v2419qw"],
            features: &[
                FeatureSpec {
                    code: 0x10,
                    name: "brightness",
                    aliases: &["brightness", "luminance"],
                    writable: true,
                    value_options: &[],
                    write_options: &[],
                },
                FeatureSpec {
                    code: 0x12,
                    name: "contrast",
                    aliases: &["contrast"],
                    writable: true,
                    value_options: &[],
                    write_options: &[],
                },
                FeatureSpec {
                    code: 0x60,
                    name: "input",
                    aliases: &["input", "input-source", "source"],
                    writable: true,
                    value_options: &[],
                    write_options: &[
                        ValueOption {
                            value: 15,
                            label: "hdmi-2",
                            aliases: &["hdmi-2", "hdmi2"],
                        },
                        ValueOption {
                            value: 17,
                            label: "hdmi-1",
                            aliases: &["hdmi", "hdmi-1", "hdmi1"],
                        },
                        ValueOption {
                            value: 18,
                            label: "source-18",
                            aliases: &["source-18", "input-18", "code-18"],
                        },
                    ],
                },
                FeatureSpec {
                    code: 0x62,
                    name: "volume",
                    aliases: &["volume", "speaker-volume"],
                    writable: true,
                    value_options: &[],
                    write_options: &[],
                },
                FeatureSpec {
                    code: 0xD6,
                    name: "power",
                    aliases: &["power", "power-mode"],
                    writable: true,
                    value_options: &[
                        ValueOption {
                            value: 1,
                            label: "on",
                            aliases: &["on", "normal"],
                        },
                        ValueOption {
                            value: 4,
                            label: "off",
                            aliases: &["off", "soft-off"],
                        },
                    ],
                    write_options: &[
                        ValueOption {
                            value: 1,
                            label: "on",
                            aliases: &["on", "normal"],
                        },
                        ValueOption {
                            value: 4,
                            label: "off",
                            aliases: &["off", "soft-off"],
                        },
                    ],
                },
                FeatureSpec {
                    code: 0xDF,
                    name: "vcp-version",
                    aliases: &["vcp-version", "vcp", "mccs-version"],
                    writable: false,
                    value_options: &[],
                    write_options: &[],
                },
            ],
            observed_readable_codes: &[],
        },
    ];
    assert(profiles_view(r@) =~~= profile_models());
    r
}

/// The option tables shipped with the library hold single-line labels.
proof fn lemma_option_tables_single_line()
    ensures
        labels_single_line(generic_input_models()),
        labels_single_line(power_models()),
        labels_single_line(p2711v_input_models()),
        labels_single_line(v2419qw_input_write_models()),
        labels_single_line(Seq::empty()),
{
    reveal_strlit("vga-1");
    reveal_strlit("dvi-1");
    reveal_strlit("displayport-1");
    reveal_strlit("displayport-2");
    reveal_strlit("hdmi-1");
    reveal_strlit("hdmi-2");
    reveal_strlit("usb-c");
    reveal_strlit("on");
    reveal_strlit("off");
    reveal_strlit("dp");
    reveal_strlit("hdmi");
    reveal_strlit("source-18");
}

/// Every feature of the generic table and of each profile has single-line
/// labels, so what a probe reports of it reads back unchanged.
pub proof fn law_shipped_labels_single_line()
    ensures
        forall|i: int|
            0 <= i < generic_feature_models().len() ==> feature_labels_single_line(
                Some(#[trigger] generic_feature_models()[i]),
            ),
        forall|k: int, i: int|
            0 <= k < profile_models().len() && 0 <= i < profile_models()[k].features.len()
                ==> feature_labels_single_line(Some(#[trigger] profile_models()[k].features[i])),
{
    lemma_option_tables_single_line();
    assert forall|i: int| 0 <= i < generic_feature_models().len() implies feature_labels_single_line(
        Some(#[trigger] generic_feature_models()[i]),
    ) by {}
    assert forall|k: int, i: int|
        0 <= k < profile_models().len() && 0 <= i < profile_models()[k].features.len()
            implies feature_labels_single_line(Some(#[trigger] profile_models()[k].features[i])) by {
        if k == 0 {
            assert(profile_models()[k].features == p2711v_feature_models());
        } else {
            assert(profile_models()[k].features == v2419qw_feature_models());
        }
    }
}

/// The text starts with an ASCII letter.
pub open spec fn starts_with_letter(s: Seq<char>) -> bool {
    s.len() > 0 && (('a' <= s[0] && s[0] <= 'z') || ('A' <= s[0] && s[0] <= 'Z'))
}

/// The feature's name and aliases all start with an ASCII letter.
pub open spec fn named_by_words(f: FeatureModel) -> bool {
    starts_with_letter(f.name) && forall|i: int| 0 <= i < f.aliases.len() ==> starts_with_letter(#[trigger] f.aliases[i])
}

proof fn lemma_word_features()
    ensures
        forall|i: int| 0 <= i < generic_feature_models().len() ==> named_by_words(#[trigger] generic_feature_models()[i]),
        forall|i: int| 0 <= i < p2711v_feature_models().len() ==> named_by_words(#[trigger] p2711v_feature_models()[i]),
        forall|i: int| 0 <= i < v2419qw_feature_models().len() ==> named_by_words(#[trigger] v2419qw_feature_models()[i]),
{
    reveal_strlit("brightness");
    reveal_strlit("luminance");
    reveal_strlit("contrast");
    reveal_strlit("input");
    reveal_strlit("input-source");
    reveal_strlit("source");
    reveal_strlit("volume");
    reveal_strlit("speaker-volume");
    reveal_strlit("power");
    reveal_strlit("power-mode");
    reveal_strlit("vcp-version");
    reveal_strlit("vcp");
    reveal_strlit("mccs-version");
}

/// A name that starts with a letter never normalizes to a `0x` code.
proof fn lemma_word_is_not_code(s: Seq<char>, c: u8)
    requires
        starts_with_letter(s),
    ensures
        normalized(s) != normalized(hex_code(c as nat)),
{
    reveal_strlit("0x");
    lemma_hex_code_parses(c);
    let h = hex_code(c as nat);
    assert(h[0] == '0');
    assert(normalized(h)[0] == '0');
    assert(trim_start(s) == s);
    lemma_trim_end_keeps_first(s);
    assert(trim(s)[0] == s[0]);
    assert(normalized(s)[0] == lower_char(s[0]));
}

proof fn lemma_no_feature_named_like_code(fs: Seq<FeatureModel>, c: u8)
    requires
        forall|i: int| 0 <= i < fs.len() ==> named_by_words(#[trigger] fs[i]),
    ensures
        first_match(fs, |f: FeatureModel| feature_named(f, normalized(hex_code(c as nat)))) is None,
{
    let key = normalized(hex_code(c as nat));
    let p = |f: FeatureModel| feature_named(f, key);
    assert forall|j: int| 0 <= j < fs.len() implies !p(#[trigger] fs[j]) by {
        let f = fs[j];
        assert(named_by_words(f));
        lemma_word_is_not_code(f.name, c);
        assert forall|a: int| 0 <= a < f.aliases.len() implies normalized(#[trigger] f.aliases[a]) != key by {
            lemma_word_is_not_code(f.aliases[a], c);
        }
    }
    lemma_first_match_none(fs, p);
}

/// With the shipped tables, `0x` and a code in hex resolves to that code
/// for every profile and for the generic table: no feature is named like
/// a code.
pub proof fn law_shipped_code_arguments_resolve(c: u8, p: Option<ProfileModel>)
    requires
        p is None || profile_models().contains(p->0),
    ensures
        spec_resolve_feature(p, hex_code(c as nat)) matches Ok(m) && m.code == c && m.spec == feature_by_code(p, c),
        spec_resolve_feature(p, lower(trim(hex_code(c as nat)))) matches Ok(m) && m.code == c && m.spec
            == feature_by_code(p, c),
{
    lemma_word_features();
    lemma_no_feature_named_like_code(generic_feature_models(), c);
    if let Some(q) = p {
        let k = choose|k: int| 0 <= k < profile_models().len() && profile_models()[k] == q;
        if k == 0 {
            lemma_no_feature_named_like_code(p2711v_feature_models(), c);
        } else {
            lemma_no_feature_named_like_code(v2419qw_feature_models(), c);
        }
    }
    law_code_argument_resolves_to_code(p, c);
}

// ---------------------------------------------------------------------
// How shipped names and aliases tell features and options apart
// ---------------------------------------------------------------------

/// The length of a name and its first, last and next-to-last characters,
/// ASCII-lowercased.
pub open spec fn fingerprint(s: Seq<char>) -> (nat, char, char, char) {
    (s.len(), lower_char(s[0]), lower_char(s[s.len() - 1]), lower_char(s[s.len() - 2]))
}

/// At least two characters, with no whitespace at either end.
pub open spec fn wordlike(s: Seq<char>) -> bool {
    s.len() >= 2 && !is_ws(s[0]) && !is_ws(s[s.len() - 1])
}

/// A wordlike name has nothing to trim: normalizing only lower-cases it,
/// which keeps its fingerprint.
proof fn lemma_wordlike_normalized(s: Seq<char>)
    requires
        wordlike(s),
    ensures
        normalized(s) == lower(s),
        wordlike(normalized(s)),
        fingerprint(normalized(s)) == fingerprint(s),
{
    assert(trim_start(s) == s);
    assert(trim_end(s) == s);
    let l = lower(s);
    let n = s.len() as int;
    assert(l[0] == lower_char(s[0]));
    assert(l[n - 1] == lower_char(s[n - 1]));
    assert(l[n - 2] == lower_char(s[n - 2]));
    assert(lower_char(lower_char(s[0])) == lower_char(s[0]));
    assert(lower_char(lower_char(s[n - 1])) == lower_char(s[n - 1]));
    assert(lower_char(lower_char(s[n - 2])) == lower_char(s[n - 2]));
    assert(is_ws(lower_char(s[0])) == is_ws(s[0]));
    assert(is_ws(lower_char(s[n - 1])) == is_ws(s[n - 1]));
}

/// Every name and alias of every feature is wordlike, and its fingerprint
/// tells the feature's code; no two features share a code.
spec fn features_keyed(t: Seq<FeatureModel>) -> bool {
    &&& forall|i: int|
        0 <= i < t.len() ==> wordlike((#[trigger] t[i]).name) && feature_code_by_fingerprint(fingerprint(t[i].name))
            == t[i].code as int
    &&& forall|i: int, a: int|
        0 <= i < t.len() && 0 <= a < t[i].aliases.len() ==> wordlike(#[trigger] t[i].aliases[a])
            && feature_code_by_fingerprint(fingerprint(t[i].aliases[a])) == t[i].code as int
    &&& forall|i: int, j: int| 0 <= i < t.len() && 0 <= j < t.len() && i != j ==> #[trigger] t[i].code != #[trigger] t[j].code
}

/// Every label and alias of every option is wordlike, and its fingerprint
/// tells the option's value (by `cls`); each label is also an alias; no two
/// options share a value.
spec fn options_keyed(o: Seq<ValueOptionModel>, cls: spec_fn((nat, char, char, char)) -> int) -> bool {
    &&& forall|k: int|
        0 <= k < o.len() ==> wordlike((#[trigger] o[k]).label) && cls(fingerprint(o[k].label)) == o[k].value as int
            && o[k].aliases.contains(o[k].label)
    &&& forall|k: int, a: int|
        0 <= k < o.len() && 0 <= a < o[k].aliases.len() ==> wordlike(#[trigger] o[k].aliases[a]) && cls(
            fingerprint(o[k].aliases[a]),
        ) == o[k].value as int
    &&& forall|k1: int, k2: int|
        0 <= k1 < o.len() && 0 <= k2 < o.len() && k1 != k2 ==> #[trigger] o[k1].value != #[trigger] o[k2].value
}


/// The code of the shipped feature that a name with this fingerprint belongs to, or -1.
spec fn feature_code_by_fingerprint(f: (nat, char, char, char)) -> int {
    if f == (10nat, 'b', 's', 's') || f == (9nat, 'l', 'e', 'c') {
        16
    } else if f == (8nat, 'c', 't', 's') {
        18
    } else if f == (5nat, 'i', 't', 'u') || f == (12nat, 'i', 'e', 'c') || f == (6nat, 's', 'e', 'c') {
        96
    } else if f == (6nat, 'v', 'e', 'm') || f == (14nat, 's', 'e', 'm') {
        98
    } else if f == (5nat, 'p', 'r', 'e') || f == (10nat, 'p', 'e', 'd') {
        214
    } else if f == (11nat, 'v', 'n', 'o') || f == (3nat, 'v', 'p', 'c') || f == (12nat, 'm', 'n', 'o') {
        223
    } else {
        -1
    }
}

/// The value of the option of `generic_input_models` that a name with this fingerprint belongs to, or -1.
spec fn generic_input_value_by_fingerprint(f: (nat, char, char, char)) -> int {
    if f == (5nat, 'v', '1', '-') || f == (3nat, 'v', 'a', 'g') || f == (6nat, 'a', 'g', 'o') {
        1
    } else if f == (5nat, 'd', '1', '-') || f == (3nat, 'd', 'i', 'v') {
        3
    } else if f == (13nat, 'd', '1', '-') || f == (11nat, 'd', 't', 'r') || f == (2nat, 'd', 'p', 'd') || f == (4nat, 'd', '1', '-') {
        15
    } else if f == (13nat, 'd', '2', '-') || f == (3nat, 'd', '2', 'p') || f == (4nat, 'd', '2', '-') {
        16
    } else if f == (6nat, 'h', '1', '-') {
        17
    } else if f == (6nat, 'h', '2', '-') {
        18
    } else if f == (5nat, 'u', 'c', '-') || f == (6nat, 't', 'c', '-') {
        27
    } else {
        -1
    }
}

/// The value of the option of `power_models` that a name with this fingerprint belongs to, or -1.
spec fn power_value_by_fingerprint(f: (nat, char, char, char)) -> int {
    if f == (2nat, 'o', 'n', 'o') || f == (6nat, 'n', 'l', 'a') {
        1
    } else if f == (3nat, 'o', 'f', 'f') || f == (8nat, 's', 'f', 'f') {
        4
    } else {
        -1
    }
}

/// The value of the option of `p2711v_input_models` that a name with this fingerprint belongs to, or -1.
spec fn p2711v_input_value_by_fingerprint(f: (nat, char, char, char)) -> int {
    if f == (2nat, 'd', 'p', 'd') || f == (11nat, 'd', 't', 'r') || f == (13nat, 'd', '1', '-') || f == (3nat, 'd', '1', 'p') || f == (4nat, 'd', '1', '-') {
        15
    } else if f == (13nat, 'd', '2', '-') || f == (3nat, 'd', '2', 'p') || f == (4nat, 'd', '2', '-') {
        16
    } else if f == (6nat, 'h', '1', '-') || f == (5nat, 'h', '1', 'i') {
        17
    } else if f == (4nat, 'h', 'i', 'm') || f == (6nat, 'h', '2', '-') || f == (5nat, 'h', '2', 'i') {
        18
    } else {
        -1
    }
}

/// The value of the option of `v2419qw_input_write_models` that a name with this fingerprint belongs to, or -1.
spec fn v2419qw_input_write_value_by_fingerprint(f: (nat, char, char, char)) -> int {
    if f == (6nat, 'h', '2', '-') || f == (5nat, 'h', '2', 'i') {
        15
    } else if f == (6nat, 'h', '1', '-') || f == (4nat, 'h', 'i', 'm') || f == (5nat, 'h', '1', 'i') {
        17
    } else if f == (9nat, 's', '8', '1') || f == (8nat, 'i', '8', '1') || f == (7nat, 'c', '8', '1') {
        18
    } else {
        -1
    }
}

proof fn lemma_feature_tables_keyed()
    ensures
        features_keyed(generic_feature_models()),
        features_keyed(p2711v_feature_models()),
        features_keyed(v2419qw_feature_models()),
{
    reveal_strlit("analog");
    reveal_strlit("brightness");
    reveal_strlit("code-18");
    reveal_strlit("contrast");
    reveal_strlit("displayport");
    reveal_strlit("displayport-1");
    reveal_strlit("displayport-2");
    reveal_strlit("dp");
    reveal_strlit("dp-1");
    reveal_strlit("dp-2");
    reveal_strlit("dp1");
    reveal_strlit("dp2");
    reveal_strlit("dvi");
    reveal_strlit("dvi-1");
    reveal_strlit("hdmi");
    reveal_strlit("hdmi-1");
    reveal_strlit("hdmi-2");
    reveal_strlit("hdmi1");
    reveal_strlit("hdmi2");
    reveal_strlit("input");
    reveal_strlit("input-18");
    reveal_strlit("input-source");
    reveal_strlit("luminance");
    reveal_strlit("mccs-version");
    reveal_strlit("normal");
    reveal_strlit("off");
    reveal_strlit("on");
    reveal_strlit("power");
    reveal_strlit("power-mode");
    reveal_strlit("soft-off");
    reveal_strlit("source");
    reveal_strlit("source-18");
    reveal_strlit("speaker-volume");
    reveal_strlit("type-c");
    reveal_strlit("usb-c");
    reveal_strlit("vcp");
    reveal_strlit("vcp-version");
    reveal_strlit("vga");
    reveal_strlit("vga-1");
    reveal_strlit("volume");
}

proof fn lemma_generic_input_keyed()
    ensures
        options_keyed(generic_input_models(), |f: (nat, char, char, char)| generic_input_value_by_fingerprint(f)),
{
    reveal_strlit("analog");
    reveal_strlit("brightness");
    reveal_strlit("code-18");
    reveal_strlit("contrast");
    reveal_strlit("displayport");
    reveal_strlit("displayport-1");
    reveal_strlit("displayport-2");
    reveal_strlit("dp");
    reveal_strlit("dp-1");
    reveal_strlit("dp-2");
    reveal_strlit("dp1");
    reveal_strlit("dp2");
    reveal_strlit("dvi");
    reveal_strlit("dvi-1");
    reveal_strlit("hdmi");
    reveal_strlit("hdmi-1");
    reveal_strlit("hdmi-2");
    reveal_strlit("hdmi1");
    reveal_strlit("hdmi2");
    reveal_strlit("input");
    reveal_strlit("input-18");
    reveal_strlit("input-source");
    reveal_strlit("luminance");
    reveal_strlit("mccs-version");
    reveal_strlit("normal");
    reveal_strlit("off");
    reveal_strlit("on");
    reveal_strlit("power");
    reveal_strlit("power-mode");
    reveal_strlit("soft-off");
    reveal_strlit("source");
    reveal_strlit("source-18");
    reveal_strlit("speaker-volume");
    reveal_strlit("type-c");
    reveal_strlit("usb-c");
    reveal_strlit("vcp");
    reveal_strlit("vcp-version");
    reveal_strlit("vga");
    reveal_strlit("vga-1");
    reveal_strlit("volume");
    let o = generic_input_models();
    assert forall|k: int| 0 <= k < o.len() implies #[trigger] o[k].aliases.contains(o[k].label) by {
        if k == 0 {
            assert(o[k].aliases[1] == o[k].label);
        } else if k == 1 {
            assert(o[k].aliases[1] == o[k].label);
        } else if k == 2 {
            assert(o[k].aliases[1] == o[k].label);
        } else if k == 3 {
            assert(o[k].aliases[0] == o[k].label);
        } else if k == 4 {
            assert(o[k].aliases[0] == o[k].label);
        } else if k == 5 {
            assert(o[k].aliases[0] == o[k].label);
        } else if k == 6 {
            assert(o[k].aliases[0] == o[k].label);
        }
    }
}

proof fn lemma_power_keyed()
    ensures
        options_keyed(power_models(), |f: (nat, char, char, char)| power_value_by_fingerprint(f)),
{
    reveal_strlit("analog");
    reveal_strlit("brightness");
    reveal_strlit("code-18");
    reveal_strlit("contrast");
    reveal_strlit("displayport");
    reveal_strlit("displayport-1");
    reveal_strlit("displayport-2");
    reveal_strlit("dp");
    reveal_strlit("dp-1");
    reveal_strlit("dp-2");
    reveal_strlit("dp1");
    reveal_strlit("dp2");
    reveal_strlit("dvi");
    reveal_strlit("dvi-1");
    reveal_strlit("hdmi");
    reveal_strlit("hdmi-1");
    reveal_strlit("hdmi-2");
    reveal_strlit("hdmi1");
    reveal_strlit("hdmi2");
    reveal_strlit("input");
    reveal_strlit("input-18");
    reveal_strlit("input-source");
    reveal_strlit("luminance");
    reveal_strlit("mccs-version");
    reveal_strlit("normal");
    reveal_strlit("off");
    reveal_strlit("on");
    reveal_strlit("power");
    reveal_strlit("power-mode");
    reveal_strlit("soft-off");
    reveal_strlit("source");
    reveal_strlit("source-18");
    reveal_strlit("speaker-volume");
    reveal_strlit("type-c");
    reveal_strlit("usb-c");
    reveal_strlit("vcp");
    reveal_strlit("vcp-version");
    reveal_strlit("vga");
    reveal_strlit("vga-1");
    reveal_strlit("volume");
    let o = power_models();
    assert forall|k: int| 0 <= k < o.len() implies #[trigger] o[k].aliases.contains(o[k].label) by {
        if k == 0 {
            assert(o[k].aliases[0] == o[k].label);
        } else if k == 1 {
            assert(o[k].aliases[0] == o[k].label);
        }
    }
}

proof fn lemma_p2711v_input_keyed()
    ensures
        options_keyed(p2711v_input_models(), |f: (nat, char, char, char)| p2711v_input_value_by_fingerprint(f)),
{
    reveal_strlit("analog");
    reveal_strlit("brightness");
    reveal_strlit("code-18");
    reveal_strlit("contrast");
    reveal_strlit("displayport");
    reveal_strlit("displayport-1");
    reveal_strlit("displayport-2");
    reveal_strlit("dp");
    reveal_strlit("dp-1");
    reveal_strlit("dp-2");
    reveal_strlit("dp1");
    reveal_strlit("dp2");
    reveal_strlit("dvi");
    reveal_strlit("dvi-1");
    reveal_strlit("hdmi");
    reveal_strlit("hdmi-1");
    reveal_strlit("hdmi-2");
    reveal_strlit("hdmi1");
    reveal_strlit("hdmi2");
    reveal_strlit("input");
    reveal_strlit("input-18");
    reveal_strlit("input-source");
    reveal_strlit("luminance");
    reveal_strlit("mccs-version");
    reveal_strlit("normal");
    reveal_strlit("off");
    reveal_strlit("on");
    reveal_strlit("power");
    reveal_strlit("power-mode");
    reveal_strlit("soft-off");
    reveal_strlit("source");
    reveal_strlit("source-18");
    reveal_strlit("speaker-volume");
    reveal_strlit("type-c");
    reveal_strlit("usb-c");
    reveal_strlit("vcp");
    reveal_strlit("vcp-version");
    reveal_strlit("vga");
    reveal_strlit("vga-1");
    reveal_strlit("volume");
    let o = p2711v_input_models();
    assert forall|k: int| 0 <= k < o.len() implies #[trigger] o[k].aliases.contains(o[k].label) by {
        if k == 0 {
            assert(o[k].aliases[2] == o[k].label);
        } else if k == 1 {
            assert(o[k].aliases[0] == o[k].label);
        } else if k == 2 {
            assert(o[k].aliases[0] == o[k].label);
        } else if k == 3 {
            assert(o[k].aliases[0] == o[k].label);
        }
    }
}

proof fn lemma_v2419qw_input_write_keyed()
    ensures
        options_keyed(v2419qw_input_write_models(), |f: (nat, char, char, char)| v2419qw_input_write_value_by_fingerprint(f)),
{
    reveal_strlit("analog");
    reveal_strlit("brightness");
    reveal_strlit("code-18");
    reveal_strlit("contrast");
    reveal_strlit("displayport");
    reveal_strlit("displayport-1");
    reveal_strlit("displayport-2");
    reveal_strlit("dp");
    reveal_strlit("dp-1");
    reveal_strlit("dp-2");
    reveal_strlit("dp1");
    reveal_strlit("dp2");
    reveal_strlit("dvi");
    reveal_strlit("dvi-1");
    reveal_strlit("hdmi");
    reveal_strlit("hdmi-1");
    reveal_strlit("hdmi-2");
    reveal_strlit("hdmi1");
    reveal_strlit("hdmi2");
    reveal_strlit("input");
    reveal_strlit("input-18");
    reveal_strlit("input-source");
    reveal_strlit("luminance");
    reveal_strlit("mccs-version");
    reveal_strlit("normal");
    reveal_strlit("off");
    reveal_strlit("on");
    reveal_strlit("power");
    reveal_strlit("power-mode");
    reveal_strlit("soft-off");
    reveal_strlit("source");
    reveal_strlit("source-18");
    reveal_strlit("speaker-volume");
    reveal_strlit("type-c");
    reveal_strlit("usb-c");
    reveal_strlit("vcp");
    reveal_strlit("vcp-version");
    reveal_strlit("vga");
    reveal_strlit("vga-1");
    reveal_strlit("volume");
    let o = v2419qw_input_write_models();
    assert forall|k: int| 0 <= k < o.len() implies #[trigger] o[k].aliases.contains(o[k].label) by {
        if k == 0 {
            assert(o[k].aliases[0] == o[k].label);
        } else if k == 1 {
            assert(o[k].aliases[1] == o[k].label);
        } else if k == 2 {
            assert(o[k].aliases[0] == o[k].label);
        }
    }
}


// ---------------------------------------------------------------------
// Lookups in the shipped tables
// ---------------------------------------------------------------------

/// A feature named `key` has a name or an alias that normalizes to it, so
/// the fingerprint of `key` tells the feature's code.
proof fn lemma_named_feature_code(t: Seq<FeatureModel>, i: int, key: Seq<char>)
    requires
        features_keyed(t),
        0 <= i < t.len(),
        feature_named(t[i], key),
    ensures
        wordlike(key),
        feature_code_by_fingerprint(fingerprint(key)) == t[i].code as int,
{
    let f = t[i];
    if normalized(f.name) == key {
        lemma_wordlike_normalized(f.name);
    } else {
        let a = choose|a: int| 0 <= a < f.aliases.len() && normalized(f.aliases[a]) == key;
        assert(wordlike(t[i].aliases[a]));
        lemma_wordlike_normalized(f.aliases[a]);
    }
}

/// In a keyed table, the search for a name finds the one feature called so.
proof fn lemma_first_named(t: Seq<FeatureModel>, i: int, key: Seq<char>)
    requires
        features_keyed(t),
        0 <= i < t.len(),
        feature_named(t[i], key),
    ensures
        first_match(t, |f: FeatureModel| feature_named(f, key)) == Some(t[i]),
{
    let p = |f: FeatureModel| feature_named(f, key);
    lemma_named_feature_code(t, i, key);
    lemma_first_match_found(t, p);
    match first_match(t, p) {
        Some(x) => {
            let j = choose|j: int|
                0 <= j < t.len() && t[j] == x && p(x) && forall|m: int| 0 <= m < j ==> !p(#[trigger] t[m]);
            lemma_named_feature_code(t, j, key);
            if j != i {
                assert(t[i].code != t[j].code);
            }
        },
        None => {
            assert(!p(t[i]));
        },
    }
}

/// In a keyed table no feature is called by a text that starts with a digit.
proof fn lemma_no_named_digit(t: Seq<FeatureModel>, key: Seq<char>)
    requires
        features_keyed(t),
        key.len() > 0,
        '0' <= key[0] <= '9',
    ensures
        first_match(t, |f: FeatureModel| feature_named(f, key)) is None,
{
    let p = |f: FeatureModel| feature_named(f, key);
    assert forall|j: int| 0 <= j < t.len() implies !p(#[trigger] t[j]) by {
        if p(t[j]) {
            lemma_named_feature_code(t, j, key);
            assert(lower_char(key[0]) == key[0]);
        }
    }
    lemma_first_match_none(t, p);
}

/// In a keyed table, the search for a feature's code finds that feature.
proof fn lemma_first_code(t: Seq<FeatureModel>, i: int)
    requires
        features_keyed(t),
        0 <= i < t.len(),
    ensures
        ({
            let c = t[i].code;
            first_match(t, |f: FeatureModel| f.code == c) == Some(t[i])
        }),
{
    let c = t[i].code;
    let p = |f: FeatureModel| f.code == c;
    lemma_first_match_found(t, p);
    match first_match(t, p) {
        Some(x) => {
            let j = choose|j: int|
                0 <= j < t.len() && t[j] == x && p(x) && forall|m: int| 0 <= m < j ==> !p(#[trigger] t[m]);
            if j != i {
                assert(t[i].code != t[j].code);
            }
        },
        None => {
            assert(!p(t[i]));
        },
    }
}

/// The features that a profile of the shipped tables, or the generic
/// table, offers are keyed.
proof fn lemma_controls_keyed(p: Option<ProfileModel>)
    requires
        p is None || profile_models().contains(p->0),
    ensures
        features_keyed(spec_controls_for(p)),
        features_keyed(generic_feature_models()),
{
    lemma_feature_tables_keyed();
    if let Some(q) = p {
        let k = choose|k: int| 0 <= k < profile_models().len() && profile_models()[k] == q;
        if k == 0 {
            assert(q.features == p2711v_feature_models());
        } else {
            assert(q.features == v2419qw_feature_models());
        }
    }
}

/// Every feature of the generic table and of each profile is found by its
/// name or any alias (in any ASCII case and with surrounding blanks), and
/// by its code in `0x` hex (either case) or in decimal; what is found is
/// the profile's own entry for it.
pub proof fn law_shipped_features_resolve(p: Option<ProfileModel>, i: int, n: Seq<char>)
    requires
        p is None || profile_models().contains(p->0),
        0 <= i < spec_controls_for(p).len(),
        feature_named(spec_controls_for(p)[i], normalized(n)) || n == hex_code(spec_controls_for(p)[i].code as nat) || n
            == lower(hex_code(spec_controls_for(p)[i].code as nat)) || n == decimal(spec_controls_for(p)[i].code as nat),
    ensures
        spec_resolve_feature(p, n) == Ok::<ResolvedModel, Seq<char>>(
            (ResolvedModel {
                code: spec_controls_for(p)[i].code,
                name: spec_controls_for(p)[i].name,
                spec: Some(spec_controls_for(p)[i]),
            }),
        ),
{
    let t = spec_controls_for(p);
    let s = t[i];
    let key = normalized(n);
    lemma_controls_keyed(p);
    if feature_named(s, key) {
        lemma_first_named(t, i, key);
    } else {
        let c = s.code;
        reveal_strlit("0x");
        lemma_hex_code_parses(c);
        lemma_decimal_number(c as nat, 0xFF);
        let h = hex_code(c as nat);
        assert(h[0] == '0');
        if n == h {
            assert(key == lower(h));
            assert(key[0] == lower_char(h[0]));
        } else if n == lower(h) {
            assert(key == lower(lower(h)));
            assert(lower(h)[0] == '0');
            assert(key[0] == lower_char(lower(h)[0]));
        } else {
            let d = decimal(c as nat);
            assert(key == lower(d));
            assert(key[0] == lower_char(d[0]));
        }
        assert('0' <= key[0] <= '9');
        lemma_no_named_digit(t, key);
        lemma_no_named_digit(generic_feature_models(), key);
        assert(parse_number(n, 0xFF) == Some(c as nat));
        lemma_first_code(t, i);
    }
}

/// An option that `x` names has a label or alias whose fingerprint is that
/// of `x` normalized, so that fingerprint tells the option's value.
proof fn lemma_named_option_value(
    o: Seq<ValueOptionModel>,
    cls: spec_fn((nat, char, char, char)) -> int,
    j: int,
    x: Seq<char>,
)
    requires
        options_keyed(o, cls),
        0 <= j < o.len(),
        option_named(o[j], x),
    ensures
        wordlike(normalized(x)),
        cls(fingerprint(normalized(x))) == o[j].value as int,
{
    let label = o[j].label;
    assert(wordlike(o[j].label));
    if eq_ignore_case(label, x) {
        let n = label.len() as int;
        assert(lower(x).len() == x.len());
        assert(x.len() == n);
        assert(lower(x)[0] == lower(label)[0]);
        assert(lower(x)[n - 1] == lower(label)[n - 1]);
        assert(lower(x)[n - 2] == lower(label)[n - 2]);
        assert(is_ws(lower_char(x[0])) == is_ws(x[0]));
        assert(is_ws(lower_char(x[n - 1])) == is_ws(x[n - 1]));
        assert(is_ws(lower_char(label[0])) == is_ws(label[0]));
        assert(is_ws(lower_char(label[n - 1])) == is_ws(label[n - 1]));
        assert(wordlike(x));
        lemma_wordlike_normalized(x);
        assert(fingerprint(x) == fingerprint(label));
    } else {
        let a = choose|a: int| 0 <= a < o[j].aliases.len() && normalized(o[j].aliases[a]) == normalized(x);
        assert(wordlike(o[j].aliases[a]));
        lemma_wordlike_normalized(o[j].aliases[a]);
    }
}

/// In a keyed option table, a text that normalizes like a label or an
/// alias of option `k` names that option first, and the first option with
/// its value is that option again.
proof fn lemma_options_resolve(o: Seq<ValueOptionModel>, cls: spec_fn((nat, char, char, char)) -> int, k: int, x: Seq<char>)
    requires
        options_keyed(o, cls),
        0 <= k < o.len(),
        normalized(x) == normalized(o[k].label) || any_normalized(o[k].aliases, normalized(x)),
    ensures
        first_match(o, |opt: ValueOptionModel| option_named(opt, x)) == Some(o[k]),
        label_in(o, o[k].value) == Some(o[k].label),
{
    let key = normalized(x);
    assert(wordlike(o[k].label));
    assert(o[k].aliases.contains(o[k].label));
    if !any_normalized(o[k].aliases, key) {
        let a = choose|a: int| 0 <= a < o[k].aliases.len() && o[k].aliases[a] == o[k].label;
        assert(normalized(o[k].aliases[a]) == key);
    }
    assert(option_named(o[k], x));
    lemma_named_option_value(o, cls, k, x);
    let p = |opt: ValueOptionModel| option_named(opt, x);
    lemma_first_match_found(o, p);
    match first_match(o, p) {
        Some(y) => {
            let j = choose|j: int|
                0 <= j < o.len() && o[j] == y && p(y) && forall|m: int| 0 <= m < j ==> !p(#[trigger] o[m]);
            lemma_named_option_value(o, cls, j, x);
            if j != k {
                assert(o[k].value != o[j].value);
            }
        },
        None => {
            assert(!p(o[k]));
        },
    }
    let v = o[k].value;
    let q = |opt: ValueOptionModel| opt.value == v;
    lemma_first_match_found(o, q);
    match first_match(o, q) {
        Some(y) => {
            let j = choose|j: int|
                0 <= j < o.len() && o[j] == y && q(y) && forall|m: int| 0 <= m < j ==> !q(#[trigger] o[m]);
            if j != k {
                assert(o[k].value != o[j].value);
            }
        },
        None => {
            assert(!q(o[k]));
        },
    }
}

/// A feature of the generic table or of a profile.
pub open spec fn shipped_feature(f: FeatureModel) -> bool {
    generic_feature_models().contains(f) || p2711v_feature_models().contains(f) || v2419qw_feature_models().contains(f)
}

/// The write table of a shipped feature is one of the shipped option tables.
proof fn lemma_shipped_write_options(f: FeatureModel)
    requires
        shipped_feature(f),
    ensures
        spec_write_options(f) == Seq::<ValueOptionModel>::empty() || spec_write_options(f) == generic_input_models()
            || spec_write_options(f) == power_models() || spec_write_options(f) == p2711v_input_models()
            || spec_write_options(f) == v2419qw_input_write_models(),
{
    if generic_feature_models().contains(f) {
        let i = choose|i: int| 0 <= i < generic_feature_models().len() && generic_feature_models()[i] == f;
        assert(0 <= i < 6);
    } else if p2711v_feature_models().contains(f) {
        let i = choose|i: int| 0 <= i < p2711v_feature_models().len() && p2711v_feature_models()[i] == f;
        assert(0 <= i < 6);
    } else {
        let i = choose|i: int| 0 <= i < v2419qw_feature_models().len() && v2419qw_feature_models()[i] == f;
        assert(0 <= i < 6);
    }
}

/// Every write option of a shipped feature is found by its label or any
/// alias, in any ASCII case and with surrounding blanks, and gives its
/// value; the write label of that value is the option's label again.
pub proof fn law_shipped_write_options_resolve(f: FeatureModel, k: int, x: Seq<char>)
    requires
        shipped_feature(f),
        0 <= k < spec_write_options(f).len(),
        normalized(x) == normalized(spec_write_options(f)[k].label) || any_normalized(
            spec_write_options(f)[k].aliases,
            normalized(x),
        ),
    ensures
        spec_resolve_value(Some(f), x) == Ok::<u16, Seq<char>>(spec_write_options(f)[k].value),
        spec_write_value_label(Some(f), spec_write_options(f)[k].value) == Some(spec_write_options(f)[k].label),
{
    let o = spec_write_options(f);
    lemma_shipped_write_options(f);
    if o == generic_input_models() {
        lemma_generic_input_keyed();
        lemma_options_resolve(o, |g: (nat, char, char, char)| generic_input_value_by_fingerprint(g), k, x);
    } else if o == power_models() {
        lemma_power_keyed();
        lemma_options_resolve(o, |g: (nat, char, char, char)| power_value_by_fingerprint(g), k, x);
    } else if o == p2711v_input_models() {
        lemma_p2711v_input_keyed();
        lemma_options_resolve(o, |g: (nat, char, char, char)| p2711v_input_value_by_fingerprint(g), k, x);
    } else {
        lemma_v2419qw_input_write_keyed();
        lemma_options_resolve(o, |g: (nat, char, char, char)| v2419qw_input_write_value_by_fingerprint(g), k, x);
    }
}

/// For a shipped feature, the write label of a value resolves back to that
/// value.
pub proof fn law_shipped_write_label_resolves_back(f: FeatureModel, w: u16)
    requires
        shipped_feature(f),
        spec_write_value_label(Some(f), w) is Some,
    ensures
        spec_resolve_value(Some(f), spec_write_value_label(Some(f), w)->0) == Ok::<u16, Seq<char>>(w),
{
    let o = spec_write_options(f);
    let q = |opt: ValueOptionModel| opt.value == w;
    lemma_first_match_found(o, q);
    let k = choose|k: int| 0 <= k < o.len() && o[k] == first_match(o, q)->0 && q(o[k]) && forall|m: int| 0 <= m < k ==> !q(#[trigger] o[m]);
    law_shipped_write_options_resolve(f, k, o[k].label);
}

} // verus!
