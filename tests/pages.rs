use asterctl::config::{load_configuration, MonitorConfig, Setup};
use asterctl::cycle::{
    current_page_index, display_off_after, initial_pages, needs_rebuild, next_page_index, page_done,
    page_duration, pause_after, refresh_pages, slow_refresh_due, tick_action, TickAction,
};
use asterctl::pages::{build_pages, PageKind};
use asterctl::store::SensorStore;
use asterctl::template::{
    compile_sensor_templates, expand_template_name, invalid_template_patterns, Panel, SensorTemplate,
};

fn template(pattern: Option<&str>, name: Option<&str>, item_name: Option<&str>) -> SensorTemplate {
    SensorTemplate {
        match_pattern: pattern.map(|p| p.to_string()),
        name: name.map(|n| n.to_string()),
        item_name: item_name.map(|n| n.to_string()),
    }
}

fn store_of(keys: &[&str]) -> SensorStore {
    let mut s = SensorStore::new();
    for k in keys {
        s.insert(k.to_string(), "1".to_string());
    }
    s
}

/// (key, display name, panel, sensor) of each sensor page; the label of a time page.
fn describe(pages: &[PageKind]) -> Vec<String> {
    pages
        .iter()
        .map(|p| match p {
            PageKind::Sensor(sp) => {
                format!("{}|{}|{}|{}", sp.sensor_key, sp.display_name, sp.panel, sp.sensor)
            }
            PageKind::Time(label) => format!("time|{label}"),
        })
        .collect()
}

fn build(panels: &Vec<Panel>, keys: &[&str], time: Option<&str>) -> Vec<String> {
    let active: Vec<u32> = (1..=panels.len() as u32).collect();
    let templates = compile_sensor_templates(panels, &active);
    let store = store_of(keys);
    describe(&build_pages(&templates, panels, &store, &time.map(|t| t.to_string())))
}

#[test]
fn capture_group_fills_display_name() {
    let panels = vec![Panel { sensor: vec![template(Some(r"^cpu_(\d+)_temp$"), Some("Core {1}"), None)] }];
    assert_eq!(build(&panels, &["cpu_2_temp"], None), vec!["cpu_2_temp|Core 2|0|0"]);
}

#[test]
fn groups_beyond_nine_stay_literal() {
    let pattern = r"^(a)(b)(c)(d)(e)(f)(g)(h)(i)(j)$";
    let panels = vec![Panel { sensor: vec![template(Some(pattern), Some("{1}{9}-{10}-{11}"), None)] }];
    assert_eq!(build(&panels, &["abcdefghij"], None), vec!["abcdefghij|ai-{10}-{11}|0|0"]);
    let panels = vec![Panel { sensor: vec![template(Some(pattern), Some("x{10}x"), None)] }];
    assert_eq!(build(&panels, &["abcdefghij"], None), vec!["abcdefghij|x{10}x|0|0"]);
}

#[test]
fn name_without_placeholder_of_matched_group_is_kept() {
    let groups = vec![Some("cpu".to_string()), None, Some("x".to_string())];
    let t = template(None, Some("{1} and {2}"), None);
    assert_eq!(expand_template_name(&t, &groups), "{1} and x");
}

#[test]
fn name_falls_back_to_item_name_then_generic_label() {
    let groups = vec![Some("k".to_string())];
    assert_eq!(expand_template_name(&template(None, None, Some("Item")), &groups), "Item");
    assert_eq!(expand_template_name(&template(None, None, None), &groups), "Sensor");
    assert_eq!(expand_template_name(&template(None, Some("Name"), Some("Item")), &groups), "Name");
}

#[test]
fn no_match_and_no_time_page_builds_nothing() {
    let panels = vec![Panel { sensor: vec![template(Some("^gpu"), Some("GPU"), None)] }];
    assert!(build(&panels, &["cpu", "fan"], None).is_empty());
    assert!(initial_pages(Vec::new()).is_err());
}

#[test]
fn time_page_comes_last() {
    let panels = vec![Panel { sensor: vec![template(Some("^fan"), Some("Fan"), None)] }];
    assert_eq!(build(&panels, &["fan1", "cpu"], Some("Clock")), vec!["fan1|Fan|0|0", "time|Clock"]);
    assert_eq!(build(&panels, &[], Some("Clock")), vec!["time|Clock"]);
}

#[test]
fn first_matching_template_claims_key() {
    let panels = vec![Panel {
        sensor: vec![
            template(Some("^cpu_"), Some("First"), None),
            template(Some("temp"), Some("Second"), None),
        ],
    }];
    assert_eq!(
        build(&panels, &["gpu_temp", "cpu_temp"], None),
        vec!["cpu_temp|First|0|0", "gpu_temp|Second|0|1"]
    );
}

#[test]
fn keys_sorted_within_template_and_templates_in_order() {
    let panels = vec![
        Panel { sensor: vec![template(Some("^fan"), Some("Fan"), None)] },
        Panel { sensor: vec![template(Some("^cpu"), Some("Cpu"), None)] },
    ];
    assert_eq!(
        build(&panels, &["fan2", "cpu_b", "fan10", "cpu_a"], None),
        vec!["fan10|Fan|0|0", "fan2|Fan|0|0", "cpu_a|Cpu|1|0", "cpu_b|Cpu|1|0"]
    );
}

#[test]
fn build_is_deterministic() {
    let panels = vec![Panel {
        sensor: vec![template(Some("_temp$"), Some("T"), None), template(Some("."), Some("Any"), None)],
    }];
    let a = build(&panels, &["b_temp", "a", "c_temp"], Some("Clock"));
    let b = build(&panels, &["c_temp", "b_temp", "a"], Some("Clock"));
    assert_eq!(a, b);
    assert_eq!(a, vec!["b_temp|T|0|0", "c_temp|T|0|0", "a|Any|0|1", "time|Clock"]);
}

#[test]
fn compile_skips_invalid_and_missing_patterns_and_inactive_panels() {
    let panels = vec![
        Panel {
            sensor: vec![
                template(Some("(unclosed"), Some("Bad"), None),
                template(None, Some("No pattern"), None),
                template(Some("^ok"), Some("Ok"), None),
            ],
        },
        Panel { sensor: vec![template(Some("^second"), Some("S"), None)] },
    ];
    let compiled = compile_sensor_templates(&panels, &vec![0, 1, 7]);
    assert_eq!(compiled.len(), 1);
    assert_eq!((compiled[0].panel, compiled[0].sensor), (0, 2));
    assert!(compiled[0].regex.is_match("okay"));
    assert!(!compiled[0].regex.is_match("second"));
    assert_eq!(invalid_template_patterns(&panels, &vec![0, 1, 7]), vec!["(unclosed"]);
    assert!(invalid_template_patterns(&panels, &vec![2]).is_empty());
    let compiled = compile_sensor_templates(&panels, &vec![2, 1]);
    let slots: Vec<(usize, usize)> = compiled.iter().map(|c| (c.panel, c.sensor)).collect();
    assert_eq!(slots, vec![(1, 0), (0, 2)]);
}

#[test]
fn empty_rebuild_keeps_current_pages() {
    let current = vec![PageKind::Time("Clock".to_string())];
    let kept = refresh_pages(current, Vec::new());
    assert_eq!(describe(&kept), vec!["time|Clock"]);
    let replaced = refresh_pages(kept, vec![PageKind::Time("New".to_string())]);
    assert_eq!(describe(&replaced), vec!["time|New"]);
    assert!(initial_pages(replaced).is_ok());
}

#[test]
fn page_index_wraps() {
    assert_eq!(next_page_index(0, 3), 1);
    assert_eq!(next_page_index(2, 3), 0);
    assert_eq!(current_page_index(5, 3), 0);
    assert_eq!(current_page_index(2, 3), 2);
}

#[test]
fn display_transitions() {
    assert!(matches!(tick_action(false, false), TickAction::SwitchOffAndWait));
    assert!(matches!(tick_action(true, false), TickAction::Wait));
    assert!(matches!(tick_action(true, true), TickAction::SwitchOnAndRender));
    assert!(matches!(tick_action(false, true), TickAction::Render));
    assert!(display_off_after(&TickAction::SwitchOffAndWait));
    assert!(!display_off_after(&TickAction::SwitchOnAndRender));
}

#[test]
fn pacing() {
    assert_eq!(pause_after(1000, 300), 700);
    assert_eq!(pause_after(1000, 1500), 0);
    assert!(page_done(10_000, 10_000));
    assert!(!page_done(9_999, 10_000));
    assert!(slow_refresh_due(300_001, 300_000));
    assert!(!slow_refresh_due(300_000, 300_000));
}

#[test]
fn configuration_adds_panels_and_compiles_filters() {
    let cfg = MonitorConfig {
        setup: Setup { display_on_hour: None, display_off_hour: None, time_page: None },
        panels: vec![Panel { sensor: Vec::new() }],
        active_panels: vec![1],
        sensor_filter_patterns: Some(vec!["#unit$".to_string(), "(bad".to_string(), "^x".to_string()]),
        sensor_filter: None,
    };
    let extra = vec![Panel { sensor: Vec::new() }, Panel { sensor: Vec::new() }];
    let cfg = load_configuration(cfg, Some(extra));
    assert_eq!(cfg.panels.len(), 3);
    assert_eq!(cfg.active_panels, vec![1, 2, 3]);
    let filters = cfg.sensor_filter.as_ref().unwrap();
    assert_eq!(filters.len(), 2);
    assert!(filters[0].is_match("cpu#unit"));
    assert!(filters[1].is_match("xyz"));
    assert!(!filters[1].is_match("(bad"));
}

#[test]
fn rebuild_and_durations() {
    assert!(needs_rebuild(0));
    assert!(!needs_rebuild(3));
    assert_eq!(page_duration(&PageKind::Time("t".to_string()), 10_000, 4_000), 4_000);
    let sp = asterctl::pages::SensorPage {
        sensor_key: "k".to_string(),
        display_name: "n".to_string(),
        panel: 0,
        sensor: 0,
    };
    assert_eq!(page_duration(&PageKind::Sensor(sp), 10_000, 4_000), 10_000);
}
