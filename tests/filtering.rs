use com_inspector::filter::should_include_object;
use com_inspector::text::{decode_utf16_value, filter_from_input};
use com_inspector::types::{ComObject, FilterSet};
use com_inspector::usability::{check_usability, usability_tier, Usability};

const IE_CLSID: &str = "{0002DF01-0000-0000-C000-000000000046}";

fn s(x: &str) -> Option<String> {
    Some(x.to_string())
}

#[test]
fn filter_text_is_case_insensitive() {
    let ok = should_include_object(
        &s("Windows Shell Extension"),
        &None,
        "{AAAA}",
        &s("SHELL"),
        &None,
        &None,
        &None,
    );
    assert!(ok);
}

#[test]
fn filter_text_rejects_when_no_field_matches() {
    let ok = should_include_object(
        &s("Windows Shell Extension"),
        &s("a description"),
        "{AAAA}",
        &s("excel"),
        &None,
        &None,
        &None,
    );
    assert!(!ok);
}

#[test]
fn filter_text_matches_identifier() {
    assert!(should_include_object(&None, &None, IE_CLSID, &s("c000"), &None, &None, &None));
}

#[test]
fn absent_description_never_matches() {
    let ok = should_include_object(
        &s("InternetExplorer.Application"),
        &None,
        IE_CLSID,
        &None,
        &s("foo"),
        &None,
        &None,
    );
    assert!(!ok);
}

#[test]
fn no_filters_admit_and_tier_is_medium() {
    let prog = s("InternetExplorer.Application");
    assert!(should_include_object(&prog, &None, IE_CLSID, &None, &None, &None, &None));
    let obj = ComObject { clsid: IE_CLSID.to_string(), prog_id: prog, description: None };
    assert_eq!(check_usability(&obj), "~ Medium (has ProgID)");
}

#[test]
fn description_filter_matches_description_only() {
    assert!(should_include_object(
        &None,
        &s("Microsoft Word Document"),
        "{X}",
        &None,
        &s("WORD"),
        &None,
        &None
    ));
    assert!(!should_include_object(
        &s("Word.Document"),
        &s("Text"),
        "{X}",
        &None,
        &s("word"),
        &None,
        &None
    ));
}

#[test]
fn clsid_filter_matches_identifier_only() {
    assert!(should_include_object(&None, &None, IE_CLSID, &None, &None, &s("0002df01"), &None));
    assert!(!should_include_object(
        &s("0002DF01"),
        &None,
        "{1234}",
        &None,
        &None,
        &s("0002df01"),
        &None
    ));
}

#[test]
fn app_keywords_are_alternatives() {
    let app = Some(vec!["excel".to_string(), "OUTLOOK".to_string()]);
    assert!(should_include_object(&s("Outlook.Application"), &None, "{1}", &None, &None, &None, &app));
    assert!(should_include_object(&None, &s("Excel sheet"), "{2}", &None, &None, &None, &app));
    assert!(!should_include_object(&s("Word.Application"), &None, "{3}", &None, &None, &None, &app));
    let empty: Option<Vec<String>> = Some(Vec::new());
    assert!(!should_include_object(&s("Word.Application"), &None, "{3}", &None, &None, &None, &empty));
}

#[test]
fn active_filters_are_combined_by_and() {
    let app = Some(vec!["shell".to_string()]);
    assert!(should_include_object(
        &s("Shell.Application"),
        &s("Shell Automation Service"),
        "{13709620-C279-11CE-A49E-444553540000}",
        &s("automation"),
        &s("service"),
        &s("c279"),
        &app
    ));
    assert!(!should_include_object(
        &s("Shell.Application"),
        &s("Shell Automation Service"),
        "{13709620-C279-11CE-A49E-444553540000}",
        &s("automation"),
        &s("service"),
        &s("ffff"),
        &app
    ));
}

#[test]
fn admitted_named_record_matched_a_name_filter() {
    let prog = s("Scripting.FileSystemObject");
    let ok = should_include_object(&prog, &None, "{0D43FE01}", &s("filesystem"), &None, &None, &None);
    assert!(ok);
    assert!(prog.unwrap().to_lowercase().contains("filesystem"));
}

#[test]
fn usability_tiers_cover_all_combinations() {
    assert_eq!(usability_tier(true, true), Usability::High);
    assert_eq!(usability_tier(true, false), Usability::Medium);
    assert_eq!(usability_tier(false, true), Usability::Low);
    assert_eq!(usability_tier(false, false), Usability::VeryLow);
    let mk = |p: Option<String>, d: Option<String>| ComObject { clsid: "{C}".to_string(), prog_id: p, description: d };
    assert_eq!(check_usability(&mk(s("a"), s("b"))), "✓ High (has ProgID and description)");
    assert_eq!(check_usability(&mk(s("a"), None)), "~ Medium (has ProgID)");
    assert_eq!(check_usability(&mk(None, s("b"))), "~ Low (no ProgID, has description)");
    assert_eq!(check_usability(&mk(None, None)), "✗ Very Low (no ProgID or description)");
}

#[test]
fn filter_set_fields_hold_their_values() {
    let f = FilterSet { text: s("a"), description: None, clsid: s("b"), app: None };
    assert_eq!(f.text.as_deref(), Some("a"));
    assert_eq!(f.clsid.as_deref(), Some("b"));
}

#[test]
fn decode_stops_at_terminator() {
    let units: Vec<u16> = "ab\0cd".encode_utf16().collect();
    assert_eq!(decode_utf16_value(&units), "ab");
    let plain: Vec<u16> = "Shell".encode_utf16().collect();
    assert_eq!(decode_utf16_value(&plain), "Shell");
    assert_eq!(decode_utf16_value(&[0u16, 65]), "");
    assert_eq!(decode_utf16_value(&[]), "");
}

#[test]
fn decode_replaces_invalid_units() {
    let units: Vec<u16> = vec![0x48, 0xD800, 0x49, 0];
    assert_eq!(decode_utf16_value(&units), "H\u{FFFD}I");
}

#[test]
fn prompt_input_is_trimmed() {
    assert_eq!(filter_from_input("  shell \r\n"), Some("shell".to_string()));
    assert_eq!(filter_from_input(" \t\n"), None);
    assert_eq!(filter_from_input(""), None);
}
