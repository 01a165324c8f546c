use asterctl::store::{apply_sensor_values, is_filtered, SensorStore};
use asterctl::matcher::KeyPattern;

fn compile_all(patterns: &[&str]) -> Vec<KeyPattern> {
    patterns.iter().map(|f| KeyPattern::new(f).expect("Invalid regex")).collect()
}

#[test]
fn is_filtered_does_not_filter_without_filters() {
    let key = "foobar";
    let filters = Vec::new();
    assert!(!is_filtered(key, &filters));
}

#[test]
fn test_unit_extension_filter() {
    let key = "temperature_cpu#unit";
    let filters = vec![KeyPattern::new("^temperature_.*#unit").unwrap()];
    assert!(is_filtered(key, &filters));
}

#[test]
fn is_filtered_does_not_filter_without_a_match_anchored() {
    assert!(!is_filtered("foobar", &compile_all(&["^foo$"])));
}

#[test]
fn is_filtered_does_not_filter_without_a_match_prefix() {
    assert!(!is_filtered("foobar", &compile_all(&["^bar"])));
}

#[test]
fn is_filtered_does_not_filter_without_a_match_other() {
    assert!(!is_filtered("foobar", &compile_all(&["other"])));
}

#[test]
fn is_filtered_does_not_filter_without_a_match_several() {
    assert!(!is_filtered("foobar", &compile_all(&["123", "bla", "other"])));
}

#[test]
fn is_filtered_matches_filters_foo() {
    assert!(is_filtered("foobar", &compile_all(&["foo"])));
}

#[test]
fn is_filtered_matches_filters_bar() {
    assert!(is_filtered("foobar", &compile_all(&["bar"])));
}

#[test]
fn is_filtered_matches_filters_any_prefix() {
    assert!(is_filtered("foobar", &compile_all(&["^.+bar"])));
}

#[test]
fn is_filtered_matches_filters_middle_of_three() {
    assert!(is_filtered("foobar", &compile_all(&["123", "foo", "other"])));
}

#[test]
fn is_filtered_matches_filters_first_of_two() {
    assert!(is_filtered("foobar", &compile_all(&["bar", "123"])));
}

#[test]
fn is_filtered_matches_filters_first_with_other() {
    assert!(is_filtered("foobar", &compile_all(&["^.+bar", "other"])));
}

fn store_of(pairs: &[(&str, &str)]) -> SensorStore {
    let mut s = SensorStore::new();
    for (k, v) in pairs {
        s.insert(k.to_string(), v.to_string());
    }
    s
}

#[test]
fn store_insert_replaces_value() {
    let mut s = store_of(&[("cpu_temp", "40")]);
    s.insert("cpu_temp".to_string(), "42".to_string());
    assert_eq!(s.len(), 1);
    assert_eq!(s.get("cpu_temp").map(|v| v.as_str()), Some("42"));
    assert_eq!(s.get("gpu_temp"), None);
}

#[test]
fn merge_skips_excluded_keys_and_keeps_stale_ones() {
    let mut target = store_of(&[("old_key", "1"), ("cpu_temp", "40")]);
    let raw = store_of(&[("cpu_temp", "45"), ("temperature_cpu#unit", "C"), ("fan", "900")]);
    let filters = compile_all(&["#unit$"]);
    apply_sensor_values(&mut target, &raw, Some(&filters));
    assert_eq!(target.len(), 3);
    assert_eq!(target.get("old_key").map(|v| v.as_str()), Some("1"));
    assert_eq!(target.get("cpu_temp").map(|v| v.as_str()), Some("45"));
    assert_eq!(target.get("fan").map(|v| v.as_str()), Some("900"));
    assert_eq!(target.get("temperature_cpu#unit"), None);
}

#[test]
fn merge_without_filters_takes_everything() {
    let mut target = SensorStore::new();
    let raw = store_of(&[("a", "1"), ("b#unit", "2")]);
    apply_sensor_values(&mut target, &raw, None);
    assert_eq!(target.len(), 2);
    assert_eq!(target.get("b#unit").map(|v| v.as_str()), Some("2"));
}

#[test]
fn sensor_file_lines() {
    let s = store_of(&[("cpu", "40"), ("fan", "900")]);
    assert_eq!(s.to_lines(), "cpu: 40\nfan: 900\n");
    assert_eq!(SensorStore::new().to_lines(), "");
}

#[test]
fn sorted_keys_of_store() {
    let s = store_of(&[("fan2", "1"), ("cpu", "2"), ("fan10", "3")]);
    assert_eq!(s.sorted_keys(), vec!["cpu", "fan10", "fan2"]);
}

#[test]
fn key_pattern_matching_and_captures() {
    let p = KeyPattern::new(r"^cpu_(\d+)_(x)?temp$").unwrap();
    assert!(p.is_match("cpu_12_temp"));
    assert!(!p.is_match("CPU_12_temp"));
    assert_eq!(
        p.captures("cpu_12_temp"),
        Some(vec![Some("cpu_12_temp".to_string()), Some("12".to_string()), None])
    );
    assert_eq!(p.captures("gpu"), None);
    assert!(KeyPattern::new("(unclosed").is_err());
}
