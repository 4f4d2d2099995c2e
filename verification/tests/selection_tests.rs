use monitor_helper::selection::{
    parse_feature_code, parse_u8_arg, select_displays, selector_matches, single_display,
    DisplayFacts, DisplaySelector, FeatureArg,
};

fn selector() -> DisplaySelector {
    DisplaySelector { all: false, display: None, id: None, name: None }
}

fn facts(description: &str, id: &str, model: Option<&str>, controller: &str) -> DisplayFacts {
    DisplayFacts {
        description: description.to_string(),
        id: id.to_string(),
        model_name: model.map(str::to_string),
        controller: controller.to_string(),
    }
}

fn two_dells() -> Vec<DisplayFacts> {
    vec![
        facts("DELL P2711 (DP-1)", "ABC-1", Some("DELL P2711"), "dell-p2711v"),
        facts("DELL V2419 (HDMI)", "abc-2", Some("DELL V2419"), "dell-v2419qw"),
    ]
}

#[test]
fn describe_names_the_most_specific_criterion() {
    let mut s = selector();
    assert_eq!(s.describe(), "display index 1");
    s.name = Some("dell".to_string());
    assert_eq!(s.describe(), "display name match dell");
    s.id = Some("ABC-1".to_string());
    assert_eq!(s.describe(), "display id ABC-1");
    s.display = Some(2);
    assert_eq!(s.describe(), "display index 2");
    s.all = true;
    assert_eq!(s.describe(), "all displays");
}

#[test]
fn feature_argument_is_trimmed_and_lower_cased() {
    assert_eq!(FeatureArg::from_str("  Input ").unwrap().as_str(), "input");
    assert_eq!(FeatureArg::from_str("0X60").unwrap().as_str(), "0x60");
    assert_eq!(FeatureArg::from_str(" \t ").unwrap_err(), "Feature name cannot be empty.");
    assert_eq!(FeatureArg::from_str("").unwrap_err(), "Feature name cannot be empty.");
}

#[test]
fn feature_codes_in_decimal_and_hex() {
    assert_eq!(parse_feature_code("16"), Some(16));
    assert_eq!(parse_feature_code("0x10"), Some(16));
    assert_eq!(parse_feature_code("0xff"), Some(255));
    assert_eq!(parse_feature_code("255"), Some(255));
    assert_eq!(parse_feature_code("256"), None);
    assert_eq!(parse_feature_code("0x100"), None);
    assert_eq!(parse_feature_code("0X10"), None);
    assert_eq!(parse_feature_code(" 16"), None);
    assert_eq!(parse_feature_code(""), None);
    assert_eq!(parse_feature_code("0x"), None);
    assert_eq!(parse_feature_code("+7"), Some(7));
}

#[test]
fn code_arguments_are_trimmed_and_lower_cased_first() {
    assert_eq!(parse_u8_arg(" 0X1F "), Ok(0x1F));
    assert_eq!(parse_u8_arg("0x00"), Ok(0));
    assert_eq!(parse_u8_arg("0xFF"), Ok(255));
    assert_eq!(
        parse_u8_arg("300"),
        Err("Invalid VCP code: 300. Use decimal or hex such as 16 or 0x10.".to_string())
    );
    assert_eq!(
        parse_u8_arg(" x "),
        Err("Invalid VCP code:  x . Use decimal or hex such as 16 or 0x10.".to_string())
    );
}

#[test]
fn default_selector_matches_only_the_first_display() {
    let displays = two_dells();
    let s = selector();
    assert!(selector_matches(&s, 1, &displays[0]));
    assert!(!selector_matches(&s, 2, &displays[1]));
    assert_eq!(select_displays(&s, &displays), Ok(vec![1]));
    assert_eq!(single_display(&s, &displays), Ok(1));
}

#[test]
fn id_matches_up_to_case() {
    let displays = two_dells();
    let mut s = selector();
    s.id = Some("ABC-2".to_string());
    assert_eq!(select_displays(&s, &displays), Ok(vec![2]));
    s.id = Some("abc".to_string());
    assert_eq!(
        select_displays(&s, &displays),
        Err("No monitor matched display id abc. Run `monitor-helper list` to inspect available displays."
            .to_string())
    );
}

#[test]
fn name_matches_any_field_up_to_case() {
    let displays = two_dells();
    let mut s = selector();
    s.name = Some("V2419QW".to_string());
    assert_eq!(select_displays(&s, &displays), Ok(vec![2]));
    s.name = Some("hdmi".to_string());
    assert_eq!(select_displays(&s, &displays), Ok(vec![2]));
    s.name = Some("dell".to_string());
    assert_eq!(select_displays(&s, &displays), Ok(vec![1, 2]));
}

#[test]
fn all_selects_every_display_but_not_a_single_one() {
    let displays = two_dells();
    let mut s = selector();
    s.all = true;
    assert_eq!(select_displays(&s, &displays), Ok(vec![1, 2]));
    assert_eq!(
        single_display(&s, &displays),
        Err("This operation expects a single display, but --all was provided.".to_string())
    );
}

#[test]
fn display_index_selects_at_most_one() {
    let displays = two_dells();
    let mut s = selector();
    s.display = Some(2);
    assert_eq!(select_displays(&s, &displays), Ok(vec![2]));
    assert_eq!(single_display(&s, &displays), Ok(2));
    s.display = Some(3);
    assert_eq!(
        single_display(&s, &displays),
        Err("No monitor matched display index 3. Run `monitor-helper list` to inspect available displays."
            .to_string())
    );
}

#[test]
fn ambiguous_name_lists_the_candidates() {
    let displays = two_dells();
    let mut s = selector();
    s.name = Some("dell".to_string());
    assert_eq!(
        single_display(&s, &displays),
        Err("Multiple monitors matched display name match dell: [1] DELL P2711 (DP-1), [2] DELL V2419 (HDMI). Use --display or --id for a unique selection."
            .to_string())
    );
}

#[test]
fn no_displays_at_all() {
    let s = selector();
    assert_eq!(
        select_displays(&s, &Vec::new()),
        Err("No DDC/CI-capable external monitors were found.".to_string())
    );
    assert_eq!(
        single_display(&s, &Vec::new()),
        Err("No DDC/CI-capable external monitors were found.".to_string())
    );
}
