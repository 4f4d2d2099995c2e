use monitor_helper::profile::{
    resolve_feature, resolve_value, value_label, write_value_label, MonitorProfile,
};
use monitor_helper::tables::profiles;

fn p2711v_profile() -> &'static MonitorProfile {
    profiles()
        .iter()
        .find(|profile| profile.key == "dell-p2711v")
        .expect("P2711V profile should exist")
}

fn v2419qw_profile() -> &'static MonitorProfile {
    profiles()
        .iter()
        .find(|profile| profile.key == "dell-v2419qw")
        .expect("V2419QW profile should exist")
}

#[test]
fn p2711v_input_matches_capability_values() {
    let profile = Some(p2711v_profile());
    let feature = resolve_feature(profile, "input").expect("input feature should resolve");

    assert_eq!(resolve_value(feature.spec, "displayport").unwrap(), 15);
    assert_eq!(resolve_value(feature.spec, "displayport-2").unwrap(), 16);
    assert_eq!(resolve_value(feature.spec, "hdmi-1").unwrap(), 17);
    assert_eq!(resolve_value(feature.spec, "hdmi").unwrap(), 18);
    assert_eq!(value_label(feature.spec, 15), Some("dp"));
    assert_eq!(value_label(feature.spec, 16), Some("displayport-2"));
    assert_eq!(value_label(feature.spec, 17), Some("hdmi-1"));
    assert_eq!(value_label(feature.spec, 18), Some("hdmi"));
    assert_eq!(write_value_label(feature.spec, 15), Some("dp"));
    assert_eq!(write_value_label(feature.spec, 16), Some("displayport-2"));
    assert_eq!(write_value_label(feature.spec, 17), Some("hdmi-1"));
    assert_eq!(write_value_label(feature.spec, 18), Some("hdmi"));
}

#[test]
fn v2419qw_input_accepts_write_aliases_without_read_labels() {
    let profile = Some(v2419qw_profile());
    let feature = resolve_feature(profile, "input").expect("input feature should resolve");

    assert_eq!(resolve_value(feature.spec, "hdmi-2").unwrap(), 15);
    assert_eq!(resolve_value(feature.spec, "hdmi-1").unwrap(), 17);
    assert_eq!(resolve_value(feature.spec, "source-18").unwrap(), 18);
    assert_eq!(value_label(feature.spec, 15), None);
    assert_eq!(value_label(feature.spec, 17), None);
    assert_eq!(write_value_label(feature.spec, 15), Some("hdmi-2"));
    assert_eq!(write_value_label(feature.spec, 17), Some("hdmi-1"));
    assert_eq!(write_value_label(feature.spec, 18), Some("source-18"));
}

use monitor_helper::profile::{
    controller_name, controls_for, detect_profile, feature_name, observed_codes, write_options,
    MonitorIdentity, ValueOption,
};
use monitor_helper::tables::generic_features;

fn identity(model: Option<&str>, manufacturer: Option<&str>, id: &str) -> MonitorIdentity {
    MonitorIdentity {
        model_name: model.map(str::to_string),
        manufacturer_id: manufacturer.map(str::to_string),
        id: id.to_string(),
    }
}

#[test]
fn features_resolve_by_name_alias_and_code() {
    let brightness = resolve_feature(None, " Luminance ").unwrap();
    assert_eq!(brightness.code, 0x10);
    assert_eq!(brightness.name, "brightness");
    assert!(brightness.spec.is_some());

    let by_code = resolve_feature(None, "0x60").unwrap();
    assert_eq!(by_code.code, 0x60);
    assert_eq!(by_code.name, "input");

    let by_decimal = resolve_feature(None, "223").unwrap();
    assert_eq!(by_decimal.name, "vcp-version");

    let unknown = resolve_feature(None, "0x99").unwrap();
    assert_eq!(unknown.code, 0x99);
    assert_eq!(unknown.name, "0x99");
    assert!(unknown.spec.is_none());
    assert_eq!(unknown.describe(), "0x99 (0x99)");
    assert_eq!(brightness.describe(), "brightness (0x10)");
}

#[test]
fn unknown_feature_is_refused() {
    let err = resolve_feature(None, "bogus").unwrap_err();
    assert_eq!(
        err,
        "Unsupported feature: bogus. Use a known alias or a VCP code such as 0x10."
    );
    assert!(resolve_feature(None, "0x100").is_err());
}

#[test]
fn values_resolve_by_label_alias_or_number() {
    let input = resolve_feature(None, "input").unwrap();
    assert_eq!(resolve_value(input.spec, "DP").unwrap(), 15);
    assert_eq!(resolve_value(input.spec, "  type-c ").unwrap(), 27);
    assert_eq!(resolve_value(input.spec, "USB-C").unwrap(), 27);
    assert_eq!(resolve_value(input.spec, "0x11").unwrap(), 17);
    assert_eq!(resolve_value(input.spec, "300").unwrap(), 300);
    assert_eq!(resolve_value(None, "65535").unwrap(), 65535);
}

#[test]
fn invalid_value_is_refused() {
    let err = resolve_value(None, "hdmi").unwrap_err();
    assert_eq!(
        err,
        "Invalid value: hdmi. Use decimal, hex, or a known profile alias."
    );
    assert!(resolve_value(None, "65536").is_err());
}

#[test]
fn every_write_label_resolves_back_to_its_value() {
    for profile in [None, Some(p2711v_profile()), Some(v2419qw_profile())] {
        for feature in controls_for(profile) {
            for option in write_options(feature) {
                assert_eq!(resolve_value(Some(feature), option.label).unwrap(), option.value);
                assert_eq!(write_value_label(Some(feature), option.value), Some(option.label));
            }
        }
    }
}

#[test]
fn code_arguments_resolve_to_their_code() {
    for profile in [None, Some(p2711v_profile()), Some(v2419qw_profile())] {
        for code in 0..=255u8 {
            let upper = format!("0x{code:02X}");
            let resolved = resolve_feature(profile, &upper).unwrap();
            assert_eq!(resolved.code, code);
            let lower = resolve_feature(profile, &upper.to_ascii_lowercase()).unwrap();
            assert_eq!(lower.code, code);
            if resolved.spec.is_some() {
                assert_eq!(resolved.name, feature_name(profile, code));
            }
        }
    }
}

#[test]
fn feature_names_fall_back_to_unknown() {
    assert_eq!(feature_name(None, 0x62), "volume");
    assert_eq!(feature_name(Some(v2419qw_profile()), 0xD6), "power");
    assert_eq!(feature_name(None, 0x01), "unknown");
}

#[test]
fn write_table_falls_back_to_read_table() {
    let power = resolve_feature(None, "power").unwrap().spec.unwrap();
    assert_eq!(write_options(power).len(), 2);
    let v_input = resolve_feature(Some(v2419qw_profile()), "input").unwrap().spec.unwrap();
    assert_eq!(write_options(v_input).len(), 3);
    let brightness = resolve_feature(None, "brightness").unwrap().spec.unwrap();
    assert!(write_options(brightness).is_empty());
}

#[test]
fn profiles_have_their_tables() {
    assert_eq!(controls_for(None).len(), 6);
    assert_eq!(generic_features().len(), 6);
    assert_eq!(observed_codes(None).len(), 0);
    assert_eq!(observed_codes(Some(p2711v_profile())).len(), 63);
    assert_eq!(observed_codes(Some(v2419qw_profile())).len(), 0);
}

#[test]
fn profile_detected_from_model_name() {
    let info = identity(Some("DELL V2419QW"), Some("DEL"), "display-1");
    assert_eq!(detect_profile(None, &info).unwrap().key, "dell-v2419qw");
    assert_eq!(controller_name(None, &info), "Dell V2419QW");

    let by_id = identity(None, None, "macos:P2711V");
    assert_eq!(detect_profile(None, &by_id).unwrap().key, "dell-p2711v");

    let generic = identity(Some("U2720Q"), Some("DEL"), "display-2");
    assert!(detect_profile(None, &generic).is_none());
    assert_eq!(controller_name(None, &generic), "Generic DDC/CI");
}

#[test]
fn profile_override_wins_unless_blank_or_unknown() {
    let info = identity(Some("DELL V2419QW"), None, "display-1");
    assert_eq!(
        detect_profile(Some(" Dell P2711V "), &info).unwrap().key,
        "dell-p2711v"
    );
    assert_eq!(detect_profile(Some("p2711v"), &info).unwrap().key, "dell-p2711v");
    assert_eq!(detect_profile(Some("   "), &info).unwrap().key, "dell-v2419qw");
    assert_eq!(detect_profile(Some("nonsense"), &info).unwrap().key, "dell-v2419qw");
    let generic = identity(None, None, "x");
    assert_eq!(
        detect_profile(Some("DELL-V2419QW"), &generic).unwrap().key,
        "dell-v2419qw"
    );
}

#[test]
fn every_shipped_name_alias_and_code_resolves_to_its_feature() {
    let mut tables: Vec<Option<&'static MonitorProfile>> = vec![None];
    tables.extend(profiles().iter().map(Some));
    for profile in tables {
        for spec in controls_for(profile) {
            let mut inputs: Vec<String> = vec![
                format!("0x{:02X}", spec.code),
                format!("0x{:02x}", spec.code),
                spec.code.to_string(),
                format!("  {}\t", spec.name.to_uppercase()),
            ];
            for alias in spec.aliases {
                inputs.push(alias.to_string());
                inputs.push(format!(" {} ", alias.to_ascii_uppercase()));
            }
            for input in inputs {
                let resolved = resolve_feature(profile, &input).unwrap();
                assert_eq!(resolved.code, spec.code, "{input}");
                assert_eq!(resolved.name, spec.name, "{input}");
                let found = resolved.spec.unwrap();
                assert_eq!(found.code, spec.code, "{input}");
                assert_eq!(found.aliases, spec.aliases, "{input}");
                let labels = |options: &[ValueOption]| options.iter().map(|o| (o.value, o.label)).collect::<Vec<_>>();
                assert_eq!(labels(found.value_options), labels(spec.value_options), "{input}");
                assert_eq!(labels(found.write_options), labels(spec.write_options), "{input}");
            }
        }
    }
}

#[test]
fn every_shipped_write_label_and_alias_resolves_to_its_value() {
    let mut tables: Vec<Option<&'static MonitorProfile>> = vec![None];
    tables.extend(profiles().iter().map(Some));
    for profile in tables {
        for spec in controls_for(profile) {
            for option in write_options(spec) {
                let mut inputs = vec![
                    option.label.to_string(),
                    format!("  {} ", option.label.to_ascii_uppercase()),
                ];
                for alias in option.aliases {
                    inputs.push(format!("\t{}", alias.to_ascii_uppercase()));
                }
                for input in inputs {
                    assert_eq!(resolve_value(Some(spec), &input).unwrap(), option.value, "{input}");
                }
                assert_eq!(write_value_label(Some(spec), option.value), Some(option.label));
            }
        }
    }
}

static CUSTOM_OPTIONS: [ValueOption; 2] = [
    ValueOption { value: 5, label: "Warm", aliases: &["warm-white", "sunset"] },
    ValueOption { value: 9, label: "cool", aliases: &["cool-white"] },
];

static CUSTOM_FEATURE: monitor_helper::profile::FeatureSpec = monitor_helper::profile::FeatureSpec {
    code: 0x14,
    name: "color-preset",
    aliases: &["preset"],
    writable: true,
    value_options: &[],
    write_options: &CUSTOM_OPTIONS,
};

#[test]
fn unambiguous_custom_write_table_round_trips() {
    let spec = Some(&CUSTOM_FEATURE);
    assert_eq!(resolve_value(spec, "WARM").unwrap(), 5);
    assert_eq!(resolve_value(spec, "  SunSet ").unwrap(), 5);
    assert_eq!(resolve_value(spec, "Cool-White").unwrap(), 9);
    assert_eq!(write_value_label(spec, 5), Some("Warm"));
    assert_eq!(resolve_value(spec, write_value_label(spec, 9).unwrap()).unwrap(), 9);
    // A label with blanks around it is not an alias here, so it is read as a number.
    assert!(resolve_value(spec, " warm ").is_err());
}

#[test]
fn feature_name_is_unknown_exactly_without_the_code() {
    assert_eq!(feature_name(None, 0xD6), "power");
    assert_eq!(feature_name(None, 0x02), "unknown");
    let p2711v = profiles().iter().find(|p| p.key == "dell-p2711v").unwrap();
    assert_eq!(feature_name(Some(p2711v), 0x02), "unknown");
    assert_eq!(feature_name(Some(p2711v), 0x60), "input");
}
