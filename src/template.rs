//! Sensor templates: compiling their key patterns, and naming the pages of
//! the keys they match.

use crate::matcher::{opt_view, pattern_is_valid, KeyPattern};
use crate::order::string_views;
use vstd::prelude::*;

verus! {

/// A configured rule: the pattern over sensor keys that it claims, and the
/// names that a page of a matched key is called by.
pub struct SensorTemplate {
    pub match_pattern: Option<String>,
    pub name: Option<String>,
    pub item_name: Option<String>,
}

/// A configured panel: its templates, in order.
pub struct Panel {
    pub sensor: Vec<SensorTemplate>,
}

/// A template whose pattern compiled, with the place of the template in the
/// configuration: the index of its panel and its index within that panel.
pub struct CompiledTemplate {
    pub regex: KeyPattern,
    pub panel: usize,
    pub sensor: usize,
}

/// The template at a place of the configuration.
pub open spec fn template_at(panels: Seq<Panel>, slot: (int, int)) -> SensorTemplate {
    panels[slot.0].sensor@[slot.1]
}

/// The places of the templates of one active panel entry, a number from 1
/// for the first panel; an entry that names no panel contributes nothing.
pub open spec fn panel_slots(panels: Seq<Panel>, active: u32) -> Seq<(int, int)> {
    if active == 0 || active > panels.len() {
        seq![]
    } else {
        Seq::new(panels[active - 1].sensor@.len(), |j: int| ((active - 1) as int, j))
    }
}

/// The places of the templates of the active panels, in configured order.
pub open spec fn active_slots(panels: Seq<Panel>, active: Seq<u32>) -> Seq<(int, int)>
    decreases active.len(),
{
    if active.len() == 0 {
        seq![]
    } else {
        active_slots(panels, active.drop_last()) + panel_slots(panels, active.last())
    }
}

/// Whether the template at a place has a pattern and that pattern compiles.
pub open spec fn usable(panels: Seq<Panel>, slot: (int, int)) -> bool {
    match template_at(panels, slot).match_pattern {
        Some(p) => pattern_is_valid(p@),
        None => false,
    }
}

/// The places among `slots` whose templates take part in matching.
pub open spec fn usable_slots(panels: Seq<Panel>, slots: Seq<(int, int)>) -> Seq<(int, int)>
    decreases slots.len(),
{
    if slots.len() == 0 {
        seq![]
    } else {
        let prev = usable_slots(panels, slots.drop_last());
        if usable(panels, slots.last()) {
            prev.push(slots.last())
        } else {
            prev
        }
    }
}

/// The place of a compiled template.
pub open spec fn slot_of(c: CompiledTemplate) -> (int, int) {
    (c.panel as int, c.sensor as int)
}

/// Whether a compiled template stands at a place of the configuration and
/// was compiled from the pattern of the template there.
pub open spec fn compiled_from(panels: Seq<Panel>, c: CompiledTemplate) -> bool {
    &&& c.panel < panels.len()
    &&& c.sensor < panels[c.panel as int].sensor@.len()
    &&& template_at(panels, slot_of(c)).match_pattern matches Some(p) && c.regex@ == p@
}

/// Compiles the patterns of the templates of the active panels, in
/// configured order. Templates without a pattern, and those whose pattern
/// does not compile, are left out.
pub fn compile_sensor_templates(panels: &Vec<Panel>, active_panels: &Vec<u32>) -> (r: Vec<
    CompiledTemplate,
>)
    ensures
        r@.map_values(|c: CompiledTemplate| slot_of(c)) == usable_slots(
            panels@,
            active_slots(panels@, active_panels@),
        ),
        forall|i: int| 0 <= i < r@.len() ==> compiled_from(panels@, #[trigger] r@[i]),
{
    let mut templates: Vec<CompiledTemplate> = Vec::new();
    let mut a: usize = 0;
    while a < active_panels.len()
        invariant
            a <= active_panels@.len(),
            templates@.map_values(|c: CompiledTemplate| slot_of(c)) == usable_slots(
                panels@,
                active_slots(panels@, active_panels@.take(a as int)),
            ),
            forall|i: int| 0 <= i < templates@.len() ==> compiled_from(panels@, #[trigger] templates@[i]),
        decreases active_panels@.len() - a,
    {
        let active = active_panels[a];
        let ghost before = active_slots(panels@, active_panels@.take(a as int));
        assert(active_panels@.take(a as int + 1).drop_last() =~= active_panels@.take(a as int));
        assert(active_slots(panels@, active_panels@.take(a as int + 1)) == before + panel_slots(
            panels@,
            active,
        ));
        if active == 0 || active as usize > panels.len() {
            assert(before + panel_slots(panels@, active) =~= before);
        } else {
            let p = (active - 1) as usize;
            let panel = &panels[p];
            let mut j: usize = 0;
            while j < panel.sensor.len()
                invariant
                    p == active - 1,
                    p < panels@.len(),
                    *panel == panels@[p as int],
                    j <= panel.sensor@.len(),
                    templates@.map_values(|c: CompiledTemplate| slot_of(c)) == usable_slots(
                        panels@,
                        before + panel_slots(panels@, active).take(j as int),
                    ),
                    forall|i: int|
                        0 <= i < templates@.len() ==> compiled_from(panels@, #[trigger] templates@[i]),
                decreases panel.sensor@.len() - j,
            {
                let ghost done = before + panel_slots(panels@, active).take(j as int);
                let ghost slot = (p as int, j as int);
                assert(panel_slots(panels@, active)[j as int] == slot);
                assert((before + panel_slots(panels@, active).take(j as int + 1)).drop_last() =~= done);
                assert((before + panel_slots(panels@, active).take(j as int + 1)).last() == slot);
                let ghost prev_slots = templates@.map_values(|c: CompiledTemplate| slot_of(c));
                if let Some(pattern) = &panel.sensor[j].match_pattern {
                    match KeyPattern::new(pattern.as_str()) {
                        Ok(re) => {
                            let c = CompiledTemplate { regex: re, panel: p, sensor: j };
                            templates.push(c);
                            assert(templates@.map_values(|c: CompiledTemplate| slot_of(c)) =~= prev_slots.push(slot));
                        },
                        Err(_) => {},
                    }
                }
                j = j + 1;
            }
            assert(panel_slots(panels@, active).take(j as int) =~= panel_slots(panels@, active));
        }
        a = a + 1;
    }
    assert(active_panels@.take(a as int) =~= active_panels@);
    templates
}

/// Whether the template at a place has a pattern that does not compile.
pub open spec fn rejected(panels: Seq<Panel>, slot: (int, int)) -> bool {
    match template_at(panels, slot).match_pattern {
        Some(p) => !pattern_is_valid(p@),
        None => false,
    }
}

/// The patterns of the templates at `slots` that do not compile, in order.
pub open spec fn rejected_patterns(panels: Seq<Panel>, slots: Seq<(int, int)>) -> Seq<Seq<char>>
    decreases slots.len(),
{
    if slots.len() == 0 {
        seq![]
    } else {
        let prev = rejected_patterns(panels, slots.drop_last());
        if rejected(panels, slots.last()) {
            prev.push(template_at(panels, slots.last()).match_pattern->Some_0@)
        } else {
            prev
        }
    }
}

/// The patterns of the templates of the active panels that do not compile,
/// in configured order: the templates that `compile_sensor_templates` leaves
/// out for a bad pattern.
pub fn invalid_template_patterns(panels: &Vec<Panel>, active_panels: &Vec<u32>) -> (r: Vec<String>)
    ensures
        string_views(r@) == rejected_patterns(panels@, active_slots(panels@, active_panels@)),
{
    let mut bad: Vec<String> = Vec::new();
    let mut a: usize = 0;
    while a < active_panels.len()
        invariant
            a <= active_panels@.len(),
            string_views(bad@) == rejected_patterns(panels@, active_slots(panels@, active_panels@.take(a as int))),
        decreases active_panels@.len() - a,
    {
        let active = active_panels[a];
        let ghost before = active_slots(panels@, active_panels@.take(a as int));
        assert(active_panels@.take(a as int + 1).drop_last() =~= active_panels@.take(a as int));
        assert(active_slots(panels@, active_panels@.take(a as int + 1)) == before + panel_slots(
            panels@,
            active,
        ));
        if active == 0 || active as usize > panels.len() {
            assert(before + panel_slots(panels@, active) =~= before);
        } else {
            let p = (active - 1) as usize;
            let panel = &panels[p];
            let mut j: usize = 0;
            while j < panel.sensor.len()
                invariant
                    p == active - 1,
                    p < panels@.len(),
                    *panel == panels@[p as int],
                    j <= panel.sensor@.len(),
                    string_views(bad@) == rejected_patterns(
                        panels@,
                        before + panel_slots(panels@, active).take(j as int),
                    ),
                decreases panel.sensor@.len() - j,
            {
                let ghost done = before + panel_slots(panels@, active).take(j as int);
                let ghost slot = (p as int, j as int);
                assert(panel_slots(panels@, active)[j as int] == slot);
                assert((before + panel_slots(panels@, active).take(j as int + 1)).drop_last() =~= done);
                assert((before + panel_slots(panels@, active).take(j as int + 1)).last() == slot);
                let ghost prev = string_views(bad@);
                if let Some(pattern) = &panel.sensor[j].match_pattern {
                    if KeyPattern::new(pattern.as_str()).is_err() {
                        bad.push(pattern.clone());
                        assert(string_views(bad@) =~= prev.push(pattern@));
                    }
                }
                j = j + 1;
            }
            assert(panel_slots(panels@, active).take(j as int) =~= panel_slots(panels@, active));
        }
        a = a + 1;
    }
    assert(active_panels@.take(a as int) =~= active_panels@);
    bad
}

/// `s` with every occurrence of `from` replaced by `to`, scanning from the
/// left and resuming after each replaced occurrence.
pub open spec fn replaced(s: Seq<char>, from: Seq<char>, to: Seq<char>) -> Seq<char>
    decreases s.len(),
{
    if from.len() == 0 || s.len() < from.len() {
        s
    } else if s.take(from.len() as int) == from {
        to + replaced(s.skip(from.len() as int), from, to)
    } else {
        seq![s[0]] + replaced(s.drop_first(), from, to)
    }
}

/// Relies on `str::replace`: each non-overlapping occurrence of a non-empty
/// pattern, found from the left, is replaced.
#[verifier::external_body]
fn replace_all(s: &str, from: &str, to: &str) -> (r: String)
    requires
        from@.len() > 0,
    ensures
        r@ == replaced(s@, from@, to@),
{
    s.replace(from, to)
}

/// The digit character of a number from 0 to 9.
pub open spec fn digit(i: nat) -> char {
    if i == 0 {
        '0'
    } else if i == 1 {
        '1'
    } else if i == 2 {
        '2'
    } else if i == 3 {
        '3'
    } else if i == 4 {
        '4'
    } else if i == 5 {
        '5'
    } else if i == 6 {
        '6'
    } else if i == 7 {
        '7'
    } else if i == 8 {
        '8'
    } else {
        '9'
    }
}

/// The placeholder text of capture group `i`: `{i}`.
pub open spec fn placeholder(i: nat) -> Seq<char> {
    seq!['{', digit(i), '}']
}

fn placeholder_text(i: usize) -> (r: &'static str)
    requires
        1 <= i <= 9,
    ensures
        r@ == placeholder(i as nat),
{
    if i == 1 {
        proof { reveal_strlit("{1}"); }
        assert("{1}"@ =~= placeholder(1));
        "{1}"
    } else if i == 2 {
        proof { reveal_strlit("{2}"); }
        assert("{2}"@ =~= placeholder(2));
        "{2}"
    } else if i == 3 {
        proof { reveal_strlit("{3}"); }
        assert("{3}"@ =~= placeholder(3));
        "{3}"
    } else if i == 4 {
        proof { reveal_strlit("{4}"); }
        assert("{4}"@ =~= placeholder(4));
        "{4}"
    } else if i == 5 {
        proof { reveal_strlit("{5}"); }
        assert("{5}"@ =~= placeholder(5));
        "{5}"
    } else if i == 6 {
        proof { reveal_strlit("{6}"); }
        assert("{6}"@ =~= placeholder(6));
        "{6}"
    } else if i == 7 {
        proof { reveal_strlit("{7}"); }
        assert("{7}"@ =~= placeholder(7));
        "{7}"
    } else if i == 8 {
        proof { reveal_strlit("{8}"); }
        assert("{8}"@ =~= placeholder(8));
        "{8}"
    } else {
        proof { reveal_strlit("{9}"); }
        assert("{9}"@ =~= placeholder(9));
        "{9}"
    }
}

/// The name of a template before substitution: its name, else its item
/// name, else `Sensor`.
pub open spec fn base_name(t: SensorTemplate) -> Seq<char> {
    match t.name {
        Some(n) => n@,
        None => match t.item_name {
            Some(n) => n@,
            None => "Sensor"@,
        },
    }
}

/// The capture group texts as plain values.
pub open spec fn group_views(groups: Seq<Option<String>>) -> Seq<Option<Seq<char>>> {
    groups.map_values(|o: Option<String>| opt_view(o))
}

/// `name` with the placeholders of groups 1 to `n` substituted in turn, each
/// by the text of its group where that group took part in the match.
pub open spec fn expand_upto(name: Seq<char>, groups: Seq<Option<Seq<char>>>, n: nat) -> Seq<char>
    decreases n,
{
    if n == 0 {
        name
    } else {
        let prev = expand_upto(name, groups, (n - 1) as nat);
        if n < groups.len() && groups[n as int] is Some {
            replaced(prev, placeholder(n), groups[n as int]->Some_0)
        } else {
            prev
        }
    }
}

/// The display name of a page: the placeholders `{1}` to `{9}` of `name`
/// substituted by the texts of the capture groups.
pub open spec fn expand_name(name: Seq<char>, groups: Seq<Option<Seq<char>>>) -> Seq<char> {
    expand_upto(name, groups, 9)
}

/// Gives the page of a matched key its display name, from the template's
/// name and the capture groups of the match, group 0 being the whole match.
pub fn expand_template_name(sensor: &SensorTemplate, groups: &Vec<Option<String>>) -> (r: String)
    ensures
        r@ == expand_name(base_name(*sensor), group_views(groups@)),
{
    let base: &str = match &sensor.name {
        Some(n) => n.as_str(),
        None => match &sensor.item_name {
            Some(n) => n.as_str(),
            None => {
                proof { reveal_strlit("Sensor"); }
                "Sensor"
            },
        },
    };
    let mut result = base.to_owned();
    let ghost gv = group_views(groups@);
    let mut i: usize = 1;
    while i <= 9
        invariant
            1 <= i <= 10,
            gv == group_views(groups@),
            result@ == expand_upto(base_name(*sensor), gv, (i - 1) as nat),
        decreases 10 - i,
    {
        if i < groups.len() {
            if let Some(m) = &groups[i] {
                result = replace_all(result.as_str(), placeholder_text(i), m.as_str());
            }
        }
        i = i + 1;
    }
    result
}

/// Only the groups 1 to 9 reach a display name: two lists of capture groups
/// that agree on those give the same name, whatever the groups beyond hold.
pub proof fn lemma_groups_beyond_nine_ignored(
    name: Seq<char>,
    a: Seq<Option<Seq<char>>>,
    b: Seq<Option<Seq<char>>>,
)
    requires
        a.len() < 10 || b.len() < 10 ==> a.len() == b.len(),
        forall|i: int| 1 <= i <= 9 && i < a.len() ==> a[i] == b[i],
    ensures
        expand_name(name, a) == expand_name(name, b),
{
    lemma_expand_upto_agree(name, a, b, 9);
}

proof fn lemma_expand_upto_agree(
    name: Seq<char>,
    a: Seq<Option<Seq<char>>>,
    b: Seq<Option<Seq<char>>>,
    n: nat,
)
    requires
        n <= 9,
        a.len() < 10 || b.len() < 10 ==> a.len() == b.len(),
        forall|i: int| 1 <= i <= 9 && i < a.len() ==> a[i] == b[i],
    ensures
        expand_upto(name, a, n) == expand_upto(name, b, n),
    decreases n,
{
    if n > 0 {
        lemma_expand_upto_agree(name, a, b, (n - 1) as nat);
    }
}

} // verus!
