//! The monitor configuration as the engine reads it, once loaded: panels of
//! templates, the active panel list, the exclusion filters and the schedule.

use crate::matcher::{pattern_is_valid, KeyPattern};
use crate::template::Panel;
use vstd::prelude::*;

verus! {

/// Settings of the page cycle that the engine decides on.
pub struct Setup {
    /// The hour of the day from which the display is on.
    pub display_on_hour: Option<u32>,
    /// The hour of the day from which the display is off.
    pub display_off_hour: Option<u32>,
    /// The label of the time page, shown last when set.
    pub time_page: Option<String>,
}

pub struct MonitorConfig {
    pub setup: Setup,
    pub panels: Vec<Panel>,
    /// Panels in use, in order, each a number from 1 for the first panel.
    pub active_panels: Vec<u32>,
    /// Patterns of the sensor keys that never enter the store.
    pub sensor_filter_patterns: Option<Vec<String>>,
    /// The compiled exclusion filters.
    pub sensor_filter: Option<Vec<KeyPattern>>,
}

/// The patterns among `ps` that compile, in order.
pub open spec fn valid_patterns(ps: Seq<String>) -> Seq<Seq<char>>
    decreases ps.len(),
{
    if ps.len() == 0 {
        seq![]
    } else {
        let prev = valid_patterns(ps.drop_last());
        if pattern_is_valid(ps.last()@) {
            prev.push(ps.last()@)
        } else {
            prev
        }
    }
}

pub open spec fn pattern_texts(rs: Seq<KeyPattern>) -> Seq<Seq<char>> {
    rs.map_values(|r: KeyPattern| r@)
}

/// Compiles the exclusion filter patterns, in order, leaving out those that
/// do not compile.
pub fn compile_filters(patterns: &Vec<String>) -> (r: Vec<KeyPattern>)
    ensures
        pattern_texts(r@) == valid_patterns(patterns@),
{
    let mut r: Vec<KeyPattern> = Vec::new();
    let mut i: usize = 0;
    while i < patterns.len()
        invariant
            i <= patterns@.len(),
            pattern_texts(r@) == valid_patterns(patterns@.take(i as int)),
        decreases patterns@.len() - i,
    {
        assert(patterns@.take(i as int + 1).drop_last() =~= patterns@.take(i as int));
        let ghost before = pattern_texts(r@);
        match KeyPattern::new(patterns[i].as_str()) {
            Ok(re) => {
                r.push(re);
                assert(pattern_texts(r@) =~= before.push(patterns@[i as int]@));
            },
            Err(_) => {},
        }
        i = i + 1;
    }
    assert(patterns@.take(i as int) =~= patterns@);
    r
}

impl MonitorConfig {
    /// Adds a custom panel and makes it the last active panel.
    pub fn include_custom_panel(&mut self, panel: Panel)
        requires
            old(self).panels@.len() < u32::MAX,
        ensures
            final(self).panels@ == old(self).panels@.push(panel),
            final(self).active_panels@ == old(self).active_panels@.push(
                (old(self).panels@.len() + 1) as u32,
            ),
            final(self).sensor_filter_patterns == old(self).sensor_filter_patterns,
            final(self).sensor_filter == old(self).sensor_filter,
            final(self).setup == old(self).setup,
    {
        self.panels.push(panel);
        let n = self.panels.len() as u32;
        self.active_panels.push(n);
    }

    /// Compiles the configured exclusion filters; tells whether there are any
    /// patterns to filter by.
    pub fn compile_sensor_filters(&mut self) -> (r: bool)
        ensures
            r == old(self).sensor_filter_patterns is Some,
            match old(self).sensor_filter_patterns {
                Some(ps) => final(self).sensor_filter matches Some(f) && pattern_texts(f@)
                    == valid_patterns(ps@),
                None => final(self).sensor_filter == old(self).sensor_filter,
            },
            final(self).panels == old(self).panels,
            final(self).active_panels == old(self).active_panels,
            final(self).sensor_filter_patterns == old(self).sensor_filter_patterns,
            final(self).setup == old(self).setup,
    {
        match &self.sensor_filter_patterns {
            Some(patterns) => {
                let compiled = compile_filters(patterns);
                self.sensor_filter = Some(compiled);
                true
            },
            None => false,
        }
    }
}

/// Completes a loaded configuration: adds the custom panels, in order, each
/// as a further active panel, and compiles the exclusion filters.
pub fn load_configuration(cfg: MonitorConfig, panels: Option<Vec<Panel>>) -> (r: MonitorConfig)
    requires
        cfg.panels@.len() + (match panels {
            Some(p) => p@.len(),
            None => 0,
        }) < u32::MAX,
    ensures
        r.panels@ == cfg.panels@ + (match panels {
            Some(p) => p@,
            None => seq![],
        }),
        r.active_panels@ == cfg.active_panels@ + (match panels {
            Some(p) => Seq::new(p@.len(), |i: int| (cfg.panels@.len() + i + 1) as u32),
            None => seq![],
        }),
        r.sensor_filter_patterns == cfg.sensor_filter_patterns,
        match cfg.sensor_filter_patterns {
            Some(ps) => r.sensor_filter matches Some(f) && pattern_texts(f@) == valid_patterns(ps@),
            None => r.sensor_filter == cfg.sensor_filter,
        },
        r.setup == cfg.setup,
{
    let mut cfg = cfg;
    let ghost start = cfg;
    match panels {
        Some(extra) => {
            let ghost extra0 = extra@;
            let mut extra = extra;
            let mut i: usize = 0;
            while extra.len() > 0
                invariant
                    extra@ == extra0.skip(i as int),
                    i <= extra0.len(),
                    start.panels@.len() + extra0.len() < u32::MAX,
                    cfg.panels@ == start.panels@ + extra0.take(i as int),
                    cfg.active_panels@ == start.active_panels@ + Seq::new(
                        i as nat,
                        |j: int| (start.panels@.len() + j + 1) as u32,
                    ),
                    cfg.sensor_filter_patterns == start.sensor_filter_patterns,
                    cfg.sensor_filter == start.sensor_filter,
                    cfg.setup == start.setup,
                decreases extra@.len(),
            {
                let panel = extra.remove(0);
                cfg.include_custom_panel(panel);
                proof {
                    assert(extra0.take(i as int + 1) =~= extra0.take(i as int).push(panel));
                    assert(cfg.panels@ =~= start.panels@ + extra0.take(i as int + 1));
                    assert(cfg.active_panels@ =~= start.active_panels@ + Seq::new(
                        (i + 1) as nat,
                        |j: int| (start.panels@.len() + j + 1) as u32,
                    ));
                    assert(extra@ =~= extra0.skip(i as int + 1));
                }
                i = i + 1;
            }
            assert(extra0.take(i as int) =~= extra0);
        },
        None => {
            assert(cfg.panels@ =~= start.panels@ + seq![]);
            assert(cfg.active_panels@ =~= start.active_panels@ + seq![]);
        },
    }
    cfg.compile_sensor_filters();
    cfg
}

} // verus!
