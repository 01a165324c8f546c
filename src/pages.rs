//! Pages: the sensor readings and the clock that the display cycles through,
//! built by matching the sensor keys against the templates.

use crate::matcher::{capture_groups, key_matches};
use crate::order::{lemma_sorted_keys_lists, sorted_keys, string_views};
use crate::store::SensorStore;
use crate::template::{
    base_name, compiled_from, expand_name, expand_template_name, slot_of, template_at,
    CompiledTemplate, Panel,
};
use vstd::prelude::*;

verus! {

/// A page for one sensor key.
pub struct SensorPage {
    pub sensor_key: String,
    pub display_name: String,
    /// The index of the panel of the template that claimed the key.
    pub panel: usize,
    /// The index of that template within its panel.
    pub sensor: usize,
}

/// One unit of what the display cycles through.
pub enum PageKind {
    Sensor(SensorPage),
    Time(String),
}

/// What a page shows, as plain values.
pub enum PageDesc {
    Sensor { key: Seq<char>, name: Seq<char>, panel: int, sensor: int },
    Time { label: Seq<char> },
}

impl View for PageKind {
    type V = PageDesc;

    open spec fn view(&self) -> PageDesc {
        match self {
            PageKind::Sensor(sp) => PageDesc::Sensor {
                key: sp.sensor_key@,
                name: sp.display_name@,
                panel: sp.panel as int,
                sensor: sp.sensor as int,
            },
            PageKind::Time(label) => PageDesc::Time { label: label@ },
        }
    }
}

pub open spec fn page_views(pages: Seq<PageKind>) -> Seq<PageDesc> {
    pages.map_values(|p: PageKind| p@)
}

/// The keys that the sensor pages of a list show.
pub open spec fn page_keys(pages: Seq<PageDesc>) -> Set<Seq<char>>
    decreases pages.len(),
{
    if pages.len() == 0 {
        Set::empty()
    } else {
        let prev = page_keys(pages.drop_last());
        match pages.last() {
            PageDesc::Sensor { key, .. } => prev.insert(key),
            PageDesc::Time { .. } => prev,
        }
    }
}

/// The sensor page of key `k` under template `t`.
pub open spec fn sensor_page(t: CompiledTemplate, panels: Seq<Panel>, k: Seq<char>) -> PageDesc {
    PageDesc::Sensor {
        key: k,
        name: expand_name(
            base_name(template_at(panels, slot_of(t))),
            capture_groups(t.regex@, k),
        ),
        panel: t.panel as int,
        sensor: t.sensor as int,
    }
}

/// The pages of template `t`: one for each of `keys`, in their order, that
/// no earlier template claimed and that its pattern matches.
pub open spec fn template_pages(
    t: CompiledTemplate,
    panels: Seq<Panel>,
    keys: Seq<Seq<char>>,
    claimed: Set<Seq<char>>,
) -> Seq<PageDesc>
    decreases keys.len(),
{
    if keys.len() == 0 {
        seq![]
    } else {
        let prev = template_pages(t, panels, keys.drop_last(), claimed);
        let k = keys.last();
        if !claimed.contains(k) && key_matches(t.regex@, k) {
            prev.push(sensor_page(t, panels, k))
        } else {
            prev
        }
    }
}

/// The sensor pages of the templates, in template order.
pub open spec fn sensor_pages(
    templates: Seq<CompiledTemplate>,
    panels: Seq<Panel>,
    keys: Seq<Seq<char>>,
) -> Seq<PageDesc>
    decreases templates.len(),
{
    if templates.len() == 0 {
        seq![]
    } else {
        let prev = sensor_pages(templates.drop_last(), panels, keys);
        prev + template_pages(templates.last(), panels, keys, page_keys(prev))
    }
}

/// The pages built from the keys of a snapshot: the sensor pages, over the
/// keys in key order, then the time page if one is configured.
pub open spec fn built_pages(
    templates: Seq<CompiledTemplate>,
    panels: Seq<Panel>,
    keys: Set<Seq<char>>,
    time_page: Option<Seq<char>>,
) -> Seq<PageDesc> {
    let s = sensor_pages(templates, panels, sorted_keys(keys));
    match time_page {
        Some(label) => s.push(PageDesc::Time { label }),
        None => s,
    }
}

/// The key that a page shows, if it is a sensor page.
pub open spec fn key_of(p: PageDesc) -> Option<Seq<char>> {
    match p {
        PageDesc::Sensor { key, .. } => Some(key),
        PageDesc::Time { .. } => None,
    }
}

/// Whether no two sensor pages of the list show the same key.
pub open spec fn pages_key_once(pages: Seq<PageDesc>) -> bool {
    forall|a: int, b: int|
        0 <= a < pages.len() && 0 <= b < pages.len() && a != b && (#[trigger] key_of(pages[a])) is Some
            && (#[trigger] key_of(pages[b])) is Some ==> key_of(pages[a]) != key_of(pages[b])
}

proof fn lemma_page_key_listed(pages: Seq<PageDesc>, i: int)
    requires
        0 <= i < pages.len(),
        key_of(pages[i]) is Some,
    ensures
        page_keys(pages).contains(key_of(pages[i])->Some_0),
    decreases pages.len(),
{
    if i < pages.len() - 1 {
        assert(pages.drop_last()[i] == pages[i]);
        lemma_page_key_listed(pages.drop_last(), i);
    }
}

pub open spec fn opt_string_view(o: Option<String>) -> Option<Seq<char>> {
    match o {
        Some(s) => Some(s@),
        None => None,
    }
}

proof fn lemma_page_keys_append(a: Seq<PageDesc>, b: Seq<PageDesc>)
    ensures
        page_keys(a + b) == page_keys(a).union(page_keys(b)),
    decreases b.len(),
{
    if b.len() == 0 {
        assert(a + b =~= a);
        assert(page_keys(a).union(page_keys(b)) =~= page_keys(a));
    } else {
        assert((a + b).drop_last() =~= a + b.drop_last());
        lemma_page_keys_append(a, b.drop_last());
        assert(page_keys(a + b) =~= page_keys(a).union(page_keys(b)));
    }
}

proof fn lemma_template_pages_keys(
    t: CompiledTemplate,
    panels: Seq<Panel>,
    keys: Seq<Seq<char>>,
    claimed: Set<Seq<char>>,
)
    ensures
        page_keys(template_pages(t, panels, keys, claimed)).subset_of(keys.to_set()),
        page_keys(template_pages(t, panels, keys, claimed)).disjoint(claimed),
        forall|k: Seq<char>|
            #[trigger] page_keys(template_pages(t, panels, keys, claimed)).contains(k) ==> key_matches(
                t.regex@,
                k,
            ),
        keys.no_duplicates() ==> pages_key_once(template_pages(t, panels, keys, claimed)),
        forall|p: PageDesc| #[trigger] template_pages(t, panels, keys, claimed).contains(p) ==> p is Sensor,
    decreases keys.len(),
{
    if keys.len() > 0 {
        lemma_template_pages_keys(t, panels, keys.drop_last(), claimed);
        assert(keys.drop_last().to_set().subset_of(keys.to_set())) by {
            assert forall|k: Seq<char>| keys.drop_last().to_set().contains(k) implies keys.to_set().contains(k) by {
                let i = choose|i: int| 0 <= i < keys.drop_last().len() && keys.drop_last()[i] == k;
                assert(keys[i] == k);
            }
        }
        assert(keys.to_set().contains(keys[keys.len() - 1]));
        let prev = template_pages(t, panels, keys.drop_last(), claimed);
        let sp = sensor_page(t, panels, keys.last());
        assert(prev.push(sp).drop_last() =~= prev);
        if keys.no_duplicates() {
            let cur = template_pages(t, panels, keys, claimed);
            assert(keys.drop_last().no_duplicates()) by {
                assert forall|a: int, b: int|
                    0 <= a < keys.drop_last().len() && 0 <= b < keys.drop_last().len() && a != b implies keys.drop_last()[a]
                    != keys.drop_last()[b] by {
                    assert(keys.drop_last()[a] == keys[a] && keys.drop_last()[b] == keys[b]);
                }
            }
            if cur != prev {
                assert(cur == prev.push(sp));
                assert(!keys.drop_last().to_set().contains(keys.last())) by {
                    if keys.drop_last().to_set().contains(keys.last()) {
                        let a = choose|a: int| 0 <= a < keys.drop_last().len() && keys.drop_last()[a] == keys.last();
                        assert(keys[a] == keys[keys.len() - 1]);
                    }
                }
                assert forall|a: int, b: int|
                    0 <= a < cur.len() && 0 <= b < cur.len() && a != b && (#[trigger] key_of(cur[a])) is Some
                        && (#[trigger] key_of(cur[b])) is Some implies key_of(cur[a]) != key_of(cur[b]) by {
                    if a < prev.len() && b < prev.len() {
                        assert(cur[a] == prev[a] && cur[b] == prev[b]);
                    } else if a < prev.len() {
                        assert(cur[a] == prev[a]);
                        lemma_page_key_listed(prev, a);
                    } else {
                        assert(cur[b] == prev[b]);
                        lemma_page_key_listed(prev, b);
                    }
                }
            }
        }
        assert forall|p: PageDesc| #[trigger] template_pages(t, panels, keys, claimed).contains(p) implies p is Sensor by {
            if prev.contains(p) {
            } else {
                let a = choose|a: int| 0 <= a < template_pages(t, panels, keys, claimed).len() && template_pages(t, panels, keys, claimed)[a] == p;
                assert(a == prev.len());
            }
        }
    }
}

/// Builds the pages from the keys of a snapshot of the store: for each
/// template in order, a page for each key in key order that its pattern
/// matches and no earlier template claimed; then the time page, if a label
/// is given.
pub fn build_pages(
    templates: &Vec<CompiledTemplate>,
    panels: &Vec<Panel>,
    snapshot: &SensorStore,
    time_page: &Option<String>,
) -> (r: Vec<PageKind>)
    requires
        snapshot.wf(),
        forall|i: int| 0 <= i < templates@.len() ==> compiled_from(panels@, #[trigger] templates@[i]),
    ensures
        page_views(r@) == built_pages(
            templates@,
            panels@,
            snapshot@.dom(),
            opt_string_view(*time_page),
        ),
{
    let keys = snapshot.sorted_keys();
    let ghost kv = string_views(keys@);
    assert(kv == sorted_keys(snapshot@.dom()));
    let n = keys.len();
    let mut claimed: Vec<bool> = Vec::new();
    while claimed.len() < n
        invariant
            claimed@.len() <= n,
            forall|j: int| 0 <= j < claimed@.len() ==> !claimed@[j],
        decreases n - claimed@.len(),
    {
        claimed.push(false);
    }
    let mut pages: Vec<PageKind> = Vec::new();
    let mut ti: usize = 0;
    while ti < templates.len()
        invariant
            kv == string_views(keys@),
            kv.no_duplicates(),
            n == keys@.len(),
            claimed@.len() == n,
            ti <= templates@.len(),
            forall|i: int| 0 <= i < templates@.len() ==> compiled_from(panels@, #[trigger] templates@[i]),
            page_views(pages@) == sensor_pages(templates@.take(ti as int), panels@, kv),
            forall|j: int| 0 <= j < n ==> claimed@[j] == page_keys(page_views(pages@)).contains(#[trigger] kv[j]),
        decreases templates@.len() - ti,
    {
        let t = &templates[ti];
        assert(compiled_from(panels@, templates@[ti as int]));
        let ghost prev = page_views(pages@);
        let ghost c = page_keys(prev);
        assert(templates@.take(ti as int + 1).drop_last() =~= templates@.take(ti as int));
        assert(templates@.take(ti as int + 1).last() == *t);
        let mut k: usize = 0;
        while k < n
            invariant
                kv == string_views(keys@),
                kv.no_duplicates(),
                n == keys@.len(),
                claimed@.len() == n,
                k <= n,
                compiled_from(panels@, *t),
                c == page_keys(prev),
                page_views(pages@) == prev + template_pages(*t, panels@, kv.take(k as int), c),
                forall|j: int| 0 <= j < n ==> claimed@[j] == page_keys(page_views(pages@)).contains(#[trigger] kv[j]),
            decreases n - k,
        {
            let ghost cur = page_views(pages@);
            let ghost key = kv[k as int];
            proof {
                lemma_page_keys_append(prev, template_pages(*t, panels@, kv.take(k as int), c));
                lemma_template_pages_keys(*t, panels@, kv.take(k as int), c);
                if kv.take(k as int).to_set().contains(key) {
                    let j = choose|j: int| 0 <= j < k && kv.take(k as int)[j] == key;
                    assert(kv[j] == key);
                }
                assert(kv.take(k as int + 1).drop_last() =~= kv.take(k as int));
                assert(kv.take(k as int + 1).last() == key);
            }
            if !claimed[k] {
                match t.regex.captures(keys[k].as_str()) {
                    Some(groups) => {
                        let name = expand_template_name(&panels[t.panel].sensor[t.sensor], &groups);
                        let page = PageKind::Sensor(SensorPage {
                            sensor_key: keys[k].clone(),
                            display_name: name,
                            panel: t.panel,
                            sensor: t.sensor,
                        });
                        pages.push(page);
                        claimed.set(k, true);
                        proof {
                            assert(page_views(pages@) =~= cur.push(sensor_page(*t, panels@, key)));
                            assert(cur.push(sensor_page(*t, panels@, key)).drop_last() =~= cur);
                            assert forall|j: int| 0 <= j < n implies claimed@[j] == page_keys(
                                page_views(pages@),
                            ).contains(#[trigger] kv[j]) by {
                                if j != k {
                                    assert(kv[j] != key);
                                }
                            }
                        }
                    },
                    None => {},
                }
            }
            proof {
                assert(page_views(pages@) =~= prev + template_pages(*t, panels@, kv.take(k as int + 1), c));
            }
            k = k + 1;
        }
        assert(kv.take(n as int) =~= kv);
        ti = ti + 1;
    }
    assert(templates@.take(ti as int) =~= templates@);
    let ghost sensor_only = page_views(pages@);
    match time_page {
        Some(label) => {
            pages.push(PageKind::Time(label.clone()));
            assert(page_views(pages@) =~= sensor_only.push(PageDesc::Time { label: label@ }));
        },
        None => {},
    }
    pages
}

proof fn lemma_sensor_pages(templates: Seq<CompiledTemplate>, panels: Seq<Panel>, keys: Seq<Seq<char>>)
    requires
        keys.no_duplicates(),
    ensures
        pages_key_once(sensor_pages(templates, panels, keys)),
        forall|p: PageDesc| #[trigger] sensor_pages(templates, panels, keys).contains(p) ==> p is Sensor,
        page_keys(sensor_pages(templates, panels, keys)).subset_of(keys.to_set()),
        forall|k: Seq<char>|
            #[trigger] page_keys(sensor_pages(templates, panels, keys)).contains(k) ==> exists|j: int|
                0 <= j < templates.len() && key_matches((#[trigger] templates[j]).regex@, k),
    decreases templates.len(),
{
    if templates.len() > 0 {
        let rest = templates.drop_last();
        let t = templates.last();
        let prev = sensor_pages(rest, panels, keys);
        let c = page_keys(prev);
        let x = template_pages(t, panels, keys, c);
        let cur = sensor_pages(templates, panels, keys);
        lemma_sensor_pages(rest, panels, keys);
        lemma_template_pages_keys(t, panels, keys, c);
        lemma_page_keys_append(prev, x);
        assert(cur == prev + x);
        assert forall|a: int, b: int|
            0 <= a < cur.len() && 0 <= b < cur.len() && a != b && (#[trigger] key_of(cur[a])) is Some
                && (#[trigger] key_of(cur[b])) is Some implies key_of(cur[a]) != key_of(cur[b]) by {
            if a < prev.len() && b < prev.len() {
                assert(cur[a] == prev[a] && cur[b] == prev[b]);
            } else if a >= prev.len() && b >= prev.len() {
                assert(cur[a] == x[a - prev.len()] && cur[b] == x[b - prev.len()]);
            } else if a < prev.len() {
                assert(cur[a] == prev[a] && cur[b] == x[b - prev.len()]);
                lemma_page_key_listed(prev, a);
                lemma_page_key_listed(x, b - prev.len());
            } else {
                assert(cur[b] == prev[b] && cur[a] == x[a - prev.len()]);
                lemma_page_key_listed(prev, b);
                lemma_page_key_listed(x, a - prev.len());
            }
        }
        assert forall|p: PageDesc| #[trigger] cur.contains(p) implies p is Sensor by {
            let a = choose|a: int| 0 <= a < cur.len() && cur[a] == p;
            if a < prev.len() {
                assert(prev[a] == p && prev.contains(p));
            } else {
                assert(x[a - prev.len()] == p && x.contains(p));
            }
        }
        assert forall|k: Seq<char>| #[trigger] page_keys(cur).contains(k) implies exists|j: int|
            0 <= j < templates.len() && key_matches((#[trigger] templates[j]).regex@, k) by {
            if c.contains(k) {
                let j = choose|j: int| 0 <= j < rest.len() && key_matches((#[trigger] rest[j]).regex@, k);
                assert(rest[j] == templates[j]);
            } else {
                assert(templates[templates.len() - 1] == t);
            }
        }
    }
}

/// A sensor key appears on at most one page of a build.
pub proof fn lemma_key_on_one_page(
    templates: Seq<CompiledTemplate>,
    panels: Seq<Panel>,
    keys: Set<Seq<char>>,
    time_page: Option<Seq<char>>,
)
    requires
        keys.finite(),
    ensures
        pages_key_once(built_pages(templates, panels, keys, time_page)),
{
    lemma_sorted_keys_lists(keys);
    let s = sensor_pages(templates, panels, sorted_keys(keys));
    lemma_sensor_pages(templates, panels, sorted_keys(keys));
    let b = built_pages(templates, panels, keys, time_page);
    assert forall|i: int, j: int|
        0 <= i < b.len() && 0 <= j < b.len() && i != j && (#[trigger] key_of(b[i])) is Some
            && (#[trigger] key_of(b[j])) is Some implies key_of(b[i]) != key_of(b[j]) by {
        if i < s.len() && j < s.len() {
            assert(b[i] == s[i] && b[j] == s[j]);
        }
    }
}

proof fn lemma_template_pages_has(
    t: CompiledTemplate,
    panels: Seq<Panel>,
    keys: Seq<Seq<char>>,
    claimed: Set<Seq<char>>,
    k: Seq<char>,
)
    requires
        keys.contains(k),
        !claimed.contains(k),
        key_matches(t.regex@, k),
    ensures
        template_pages(t, panels, keys, claimed).contains(sensor_page(t, panels, k)),
    decreases keys.len(),
{
    let prev = template_pages(t, panels, keys.drop_last(), claimed);
    let cur = template_pages(t, panels, keys, claimed);
    if keys.last() == k {
        assert(cur == prev.push(sensor_page(t, panels, k)));
        assert(cur[prev.len() as int] == sensor_page(t, panels, k));
    } else {
        let i = choose|i: int| 0 <= i < keys.len() && keys[i] == k;
        assert(keys.drop_last()[i] == k);
        lemma_template_pages_has(t, panels, keys.drop_last(), claimed, k);
        let a = choose|a: int| 0 <= a < prev.len() && prev[a] == sensor_page(t, panels, k);
        assert(cur[a] == prev[a]);
    }
}

proof fn lemma_first_match_claims(
    templates: Seq<CompiledTemplate>,
    panels: Seq<Panel>,
    keys: Seq<Seq<char>>,
    k: Seq<char>,
    i: int,
)
    requires
        keys.no_duplicates(),
        keys.contains(k),
        0 <= i < templates.len(),
        key_matches(templates[i].regex@, k),
        forall|j: int| 0 <= j < i ==> !key_matches((#[trigger] templates[j]).regex@, k),
    ensures
        sensor_pages(templates, panels, keys).contains(sensor_page(templates[i], panels, k)),
    decreases templates.len(),
{
    let rest = templates.drop_last();
    let t = templates.last();
    let prev = sensor_pages(rest, panels, keys);
    let x = template_pages(t, panels, keys, page_keys(prev));
    let cur = sensor_pages(templates, panels, keys);
    assert(cur == prev + x);
    if i < templates.len() - 1 {
        assert forall|j: int| 0 <= j < i implies !key_matches((#[trigger] rest[j]).regex@, k) by {
            assert(rest[j] == templates[j]);
        }
        assert(rest[i] == templates[i]);
        lemma_first_match_claims(rest, panels, keys, k, i);
        let a = choose|a: int| 0 <= a < prev.len() && prev[a] == sensor_page(templates[i], panels, k);
        assert(cur[a] == prev[a]);
    } else {
        lemma_sensor_pages(rest, panels, keys);
        assert(!page_keys(prev).contains(k)) by {
            if page_keys(prev).contains(k) {
                let j = choose|j: int| 0 <= j < rest.len() && key_matches((#[trigger] rest[j]).regex@, k);
                assert(rest[j] == templates[j]);
            }
        }
        lemma_template_pages_has(t, panels, keys, page_keys(prev), k);
        let a = choose|a: int| 0 <= a < x.len() && x[a] == sensor_page(t, panels, k);
        assert(cur[prev.len() + a] == x[a]);
    }
}

/// The first template whose pattern matches a key claims it: a template
/// that matches the key too, but comes later, gets no page for it. With
/// `lemma_key_on_one_page`, the key's page is the first template's.
pub proof fn lemma_first_match_wins(
    templates: Seq<CompiledTemplate>,
    panels: Seq<Panel>,
    keys: Set<Seq<char>>,
    time_page: Option<Seq<char>>,
    k: Seq<char>,
    i: int,
)
    requires
        keys.finite(),
        keys.contains(k),
        0 <= i < templates.len(),
        key_matches(templates[i].regex@, k),
        forall|j: int| 0 <= j < i ==> !key_matches((#[trigger] templates[j]).regex@, k),
    ensures
        built_pages(templates, panels, keys, time_page).contains(sensor_page(templates[i], panels, k)),
{
    lemma_sorted_keys_lists(keys);
    let ks = sorted_keys(keys);
    assert(ks.contains(k)) by {
        assert(ks.to_set().contains(k));
    }
    lemma_first_match_claims(templates, panels, ks, k, i);
    let s = sensor_pages(templates, panels, ks);
    let a = choose|a: int| 0 <= a < s.len() && s[a] == sensor_page(templates[i], panels, k);
    assert(built_pages(templates, panels, keys, time_page)[a] == s[a]);
}

/// Where no template matches any key and no time page is configured, the
/// build yields no page.
pub proof fn lemma_no_match_no_pages(
    templates: Seq<CompiledTemplate>,
    panels: Seq<Panel>,
    keys: Set<Seq<char>>,
)
    requires
        keys.finite(),
        forall|k: Seq<char>, j: int|
            keys.contains(k) && 0 <= j < templates.len() ==> !#[trigger] key_matches(
                templates[j].regex@,
                k,
            ),
    ensures
        built_pages(templates, panels, keys, None).len() == 0,
{
    lemma_sorted_keys_lists(keys);
    let ks = sorted_keys(keys);
    let s = sensor_pages(templates, panels, ks);
    lemma_sensor_pages(templates, panels, ks);
    if s.len() > 0 {
        assert(s.contains(s[0]));
        lemma_page_key_listed(s, 0);
        let k = key_of(s[0])->Some_0;
        assert(ks.to_set().contains(k));
    }
}

/// Building reads the keys of a snapshot and nothing else: two snapshots
/// with the same keys, under the same templates, give the same pages.
pub proof fn lemma_build_deterministic(
    templates: Seq<CompiledTemplate>,
    panels: Seq<Panel>,
    a: Map<Seq<char>, Seq<char>>,
    b: Map<Seq<char>, Seq<char>>,
    time_page: Option<Seq<char>>,
)
    requires
        a.dom() == b.dom(),
    ensures
        built_pages(templates, panels, a.dom(), time_page) == built_pages(
            templates,
            panels,
            b.dom(),
            time_page,
        ),
{
}

} // verus!
