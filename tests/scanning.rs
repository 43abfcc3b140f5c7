use com_inspector::merge::fill_record;
use com_inspector::objects::ComObjectMap;
use com_inspector::report::{count_with_prog_id, listing_order};
use std::cmp::Ordering;
use com_inspector::scan::{scan_entries, scan_step, views_to_scan, RegistryView};
use com_inspector::types::{Args, ComObject, FilterSet};

fn obj(clsid: &str, prog: Option<&str>, desc: Option<&str>) -> ComObject {
    ComObject {
        clsid: clsid.to_string(),
        prog_id: prog.map(|p| p.to_string()),
        description: desc.map(|d| d.to_string()),
    }
}

fn no_filters() -> FilterSet {
    FilterSet { text: None, description: None, clsid: None, app: None }
}

fn map_of(objs: Vec<ComObject>) -> ComObjectMap {
    let mut m = ComObjectMap::new();
    for o in objs {
        m.insert(o);
    }
    m
}

fn snapshot(m: &ComObjectMap) -> Vec<(String, Option<String>, Option<String>)> {
    let mut v: Vec<_> = m
        .items()
        .iter()
        .map(|o| (o.clsid.clone(), o.prog_id.clone(), o.description.clone()))
        .collect();
    v.sort();
    v
}

fn args(s32: bool, s64: bool) -> Args {
    Args {
        verbose: false,
        scan_32bit: s32,
        scan_64bit: s64,
        limit: 0,
        filter: None,
        filter_description: None,
        filter_clsid: None,
        filter_app: None,
    }
}

#[test]
fn ceiling_keeps_first_entries_in_enumeration_order() {
    let entries = vec![obj("{1}", Some("A.One"), None), obj("{2}", Some("B.Two"), None), obj("{3}", Some("C.Three"), None)];
    let m = scan_entries(&entries, 2, &no_filters());
    assert_eq!(m.len(), 2);
    assert!(m.get(&"{1}".to_string()).is_some());
    assert!(m.get(&"{2}".to_string()).is_some());
    assert!(m.get(&"{3}".to_string()).is_none());
}

#[test]
fn ceiling_bounds_result_size() {
    let entries: Vec<ComObject> = (0..10).map(|i| obj(&format!("{{{i}}}"), None, None)).collect();
    for n in 1..12usize {
        let m = scan_entries(&entries, n, &no_filters());
        assert!(m.len() <= n);
        assert_eq!(m.len(), n.min(10));
    }
    assert_eq!(scan_entries(&entries, 0, &no_filters()).len(), 10);
}

#[test]
fn ceiling_counts_admitted_entries_only() {
    let entries = vec![obj("{1}", Some("Shell.A"), None), obj("{2}", Some("Word.B"), None), obj("{3}", Some("Shell.C"), None)];
    let f = FilterSet { text: Some("shell".to_string()), description: None, clsid: None, app: None };
    let m = scan_entries(&entries, 2, &f);
    assert_eq!(m.len(), 2);
    assert!(m.get(&"{2}".to_string()).is_none());
    assert!(m.get(&"{3}".to_string()).is_some());
}

#[test]
fn scan_of_nothing_is_empty() {
    let m = scan_entries(&Vec::new(), 5, &no_filters());
    assert!(m.is_empty());
}

#[test]
fn scan_step_signals_stop_at_ceiling() {
    let mut m = ComObjectMap::new();
    assert!(scan_step(&mut m, 2, &no_filters(), obj("{1}", None, None)));
    assert!(!scan_step(&mut m, 2, &no_filters(), obj("{2}", None, None)));
    assert_eq!(m.len(), 2);
    let f = FilterSet { text: None, description: None, clsid: Some("zzz".to_string()), app: None };
    let mut m2 = ComObjectMap::new();
    assert!(scan_step(&mut m2, 1, &f, obj("{1}", None, None)));
    assert!(m2.is_empty());
}

#[test]
fn same_identifier_is_overwritten_not_duplicated() {
    let mut m = ComObjectMap::new();
    assert!(scan_step(&mut m, 0, &no_filters(), obj("{1}", Some("Old"), None)));
    assert!(scan_step(&mut m, 0, &no_filters(), obj("{1}", None, Some("New"))));
    assert_eq!(m.len(), 1);
    let r = m.get(&"{1}".to_string()).unwrap();
    assert_eq!(r.prog_id, None);
    assert_eq!(r.description.as_deref(), Some("New"));
}

#[test]
fn identifiers_are_case_sensitive_keys() {
    let m = map_of(vec![obj("{abc}", None, None), obj("{ABC}", None, None)]);
    assert_eq!(m.len(), 2);
}

#[test]
fn merge_combines_fields_from_both_views() {
    let a = map_of(vec![obj("{X}", Some("Foo"), None)]);
    let b = map_of(vec![obj("{X}", None, Some("Bar app"))]);
    let mut acc = ComObjectMap::new();
    acc.merge_from(&a);
    acc.merge_from(&b);
    assert_eq!(acc.len(), 1);
    let r = acc.get(&"{X}".to_string()).unwrap();
    assert_eq!(r.prog_id.as_deref(), Some("Foo"));
    assert_eq!(r.description.as_deref(), Some("Bar app"));
}

#[test]
fn merge_is_commutative() {
    let a = map_of(vec![obj("{1}", Some("One.App"), None), obj("{2}", None, None), obj("{3}", Some("Three.App"), Some("D3"))]);
    let b = map_of(vec![obj("{2}", Some("Two.App"), Some("D2")), obj("{3}", None, Some("D3")), obj("{4}", None, Some("D4"))]);
    let mut ab = ComObjectMap::new();
    ab.merge_from(&a);
    ab.merge_from(&b);
    let mut ba = ComObjectMap::new();
    ba.merge_from(&b);
    ba.merge_from(&a);
    assert_eq!(snapshot(&ab), snapshot(&ba));
    assert_eq!(ab.len(), 4);
}

#[test]
fn merge_never_overwrites_present_fields() {
    let mut acc = map_of(vec![obj("{1}", Some("Kept"), Some("KeptDesc")), obj("{2}", None, None)]);
    let inc = map_of(vec![obj("{1}", Some("Other"), None), obj("{2}", Some("New"), None), obj("{3}", None, Some("D"))]);
    acc.merge_from(&inc);
    assert_eq!(
        snapshot(&acc),
        vec![
            ("{1}".to_string(), Some("Kept".to_string()), Some("KeptDesc".to_string())),
            ("{2}".to_string(), Some("New".to_string()), None),
            ("{3}".to_string(), None, Some("D".to_string())),
        ]
    );
}

#[test]
fn merge_with_empty_view_keeps_records() {
    let mut acc = map_of(vec![obj("{1}", Some("A"), None)]);
    acc.merge_from(&ComObjectMap::new());
    assert_eq!(snapshot(&acc), vec![("{1}".to_string(), Some("A".to_string()), None)]);
}

#[test]
fn fill_record_completes_absent_fields() {
    let r = fill_record(&obj("{1}", None, Some("D")), &obj("{1}", Some("P"), Some("E")));
    assert_eq!(r.prog_id.as_deref(), Some("P"));
    assert_eq!(r.description.as_deref(), Some("D"));
}

#[test]
fn views_default_to_both() {
    assert_eq!(views_to_scan(&args(false, false)), vec![RegistryView::Bits32, RegistryView::Bits64]);
    assert_eq!(views_to_scan(&args(true, true)), vec![RegistryView::Bits32, RegistryView::Bits64]);
    assert_eq!(views_to_scan(&args(true, false)), vec![RegistryView::Bits32]);
    assert_eq!(views_to_scan(&args(false, true)), vec![RegistryView::Bits64]);
}

#[test]
fn listing_puts_named_records_first() {
    let a = obj("{B}", Some("Alpha.App"), None);
    let b = obj("{A}", Some("Beta.App"), None);
    let c = obj("{0}", None, None);
    let d = obj("{1}", None, Some("x"));
    assert_eq!(listing_order(&a, &b), Ordering::Less);
    assert_eq!(listing_order(&b, &a), Ordering::Greater);
    assert_eq!(listing_order(&c, &a), Ordering::Greater);
    assert_eq!(listing_order(&a, &c), Ordering::Less);
    assert_eq!(listing_order(&c, &d), Ordering::Less);
    assert_eq!(listing_order(&c, &c), Ordering::Equal);
    let m = map_of(vec![a, b, c, d]);
    assert_eq!(count_with_prog_id(&m), 2);
}
