//! Which Grafana panel plugins the deployed dashboards use, and whether
//! Grafana has them.
use vstd::prelude::*;
use crate::json::{assoc, Json};
use crate::text::{lemma_take_contains, push_unique, 
    append, contains, ends_with, is_one_of, list_contains, starts_with, str_contains, str_eq,
    str_ends_with, str_starts_with, str_views, u64_to_string, decimal, views,
};

verus! {

broadcast use vstd::string::group_string_axioms;

/// A plugin installed in Grafana, as its plugin list reports it.
pub struct PluginInfo {
    pub id: String,
    pub name: String,
    pub plugin_type: String,
    pub enabled: bool,
    pub version: Option<String>,
}

/// How many panels of one plugin one dashboard has.
pub struct DashboardPluginUsage {
    pub dashboard_uid: String,
    pub dashboard_title: String,
    pub plugin_id: String,
    pub plugin_type: String,
    pub panel_count: usize,
}

// ---------------------------------------------------------------------------
// Built-in panels and plugins
// ---------------------------------------------------------------------------

/// The panel types that ship with Grafana.
pub open spec fn builtin_panel_types() -> Seq<Seq<char>> {
    seq![
        "graph"@, "timeseries"@, "stat"@, "gauge"@, "bargauge"@, "table"@, "text"@,
        "alertlist"@, "dashlist"@, "heatmap"@, "logs"@, "nodeGraph"@, "barchart"@,
        "candlestick"@, "canvas"@, "geomap"@, "histogram"@, "live"@, "news"@, "piechart"@,
        "state-timeline"@, "status-history"@, "table-old"@, "trace"@, "xychart"@, "row"@,
        "grafana-piechart-panel"@, "graph-old"@,
    ]
}

/// The panel types that ship with Grafana are exactly these 28: graph, timeseries, stat, gauge, bargauge, table, text, alertlist, dashlist, heatmap, logs, nodeGraph, barchart, candlestick, canvas, geomap, histogram, live, news, piechart, state-timeline, status-history, table-old, trace, xychart, row, grafana-piechart-panel, graph-old.
pub proof fn lemma_builtin_panel_types(t: Seq<char>)
    ensures
        builtin_panel_types().contains(t) <==> (t == "graph"@ || t == "timeseries"@ || t == "stat"@ || t == "gauge"@ || t == "bargauge"@ || t == "table"@ || t == "text"@ || t == "alertlist"@ || t == "dashlist"@ || t == "heatmap"@ || t == "logs"@ || t == "nodeGraph"@ || t == "barchart"@ || t == "candlestick"@ || t == "canvas"@ || t == "geomap"@ || t == "histogram"@ || t == "live"@ || t == "news"@ || t == "piechart"@ || t == "state-timeline"@ || t == "status-history"@ || t == "table-old"@ || t == "trace"@ || t == "xychart"@ || t == "row"@ || t == "grafana-piechart-panel"@ || t == "graph-old"@),
{
    let v = builtin_panel_types();
    if t == "graph"@ {
        assert(v[0] == t);
    } else if t == "timeseries"@ {
        assert(v[1] == t);
    } else if t == "stat"@ {
        assert(v[2] == t);
    } else if t == "gauge"@ {
        assert(v[3] == t);
    } else if t == "bargauge"@ {
        assert(v[4] == t);
    } else if t == "table"@ {
        assert(v[5] == t);
    } else if t == "text"@ {
        assert(v[6] == t);
    } else if t == "alertlist"@ {
        assert(v[7] == t);
    } else if t == "dashlist"@ {
        assert(v[8] == t);
    } else if t == "heatmap"@ {
        assert(v[9] == t);
    } else if t == "logs"@ {
        assert(v[10] == t);
    } else if t == "nodeGraph"@ {
        assert(v[11] == t);
    } else if t == "barchart"@ {
        assert(v[12] == t);
    } else if t == "candlestick"@ {
        assert(v[13] == t);
    } else if t == "canvas"@ {
        assert(v[14] == t);
    } else if t == "geomap"@ {
        assert(v[15] == t);
    } else if t == "histogram"@ {
        assert(v[16] == t);
    } else if t == "live"@ {
        assert(v[17] == t);
    } else if t == "news"@ {
        assert(v[18] == t);
    } else if t == "piechart"@ {
        assert(v[19] == t);
    } else if t == "state-timeline"@ {
        assert(v[20] == t);
    } else if t == "status-history"@ {
        assert(v[21] == t);
    } else if t == "table-old"@ {
        assert(v[22] == t);
    } else if t == "trace"@ {
        assert(v[23] == t);
    } else if t == "xychart"@ {
        assert(v[24] == t);
    } else if t == "row"@ {
        assert(v[25] == t);
    } else if t == "grafana-piechart-panel"@ {
        assert(v[26] == t);
    } else if t == "graph-old"@ {
        assert(v[27] == t);
    }
}

/// Whether a panel type ships with Grafana.
pub fn is_builtin_panel_type(panel_type: &str) -> (b: bool)
    ensures
        b == builtin_panel_types().contains(panel_type@),
{
    let builtin_types = vec![
        "graph", "timeseries", "stat", "gauge", "bargauge", "table", "text", "alertlist",
        "dashlist", "heatmap", "logs", "nodeGraph", "barchart", "candlestick", "canvas",
        "geomap", "histogram", "live", "news", "piechart", "state-timeline", "status-history",
        "table-old", "trace", "xychart", "row", "grafana-piechart-panel", "graph-old",
    ];
    assert(str_views(builtin_types@) =~= builtin_panel_types());
    is_one_of(panel_type, builtin_types.as_slice())
}

/// A Grafana built-in plugin: its id starts with `grafana-` and it is a
/// datasource or a built-in.
pub open spec fn builtin_plugin_spec(id: Seq<char>) -> bool {
    starts_with(id, "grafana-"@) && (ends_with(id, "-datasource"@) || contains(id, "builtin"@)
        || id == "grafana-clickhouse-datasource"@)
}

/// Whether a plugin id names a Grafana built-in plugin.
pub fn is_builtin_plugin(plugin_id: &str) -> (b: bool)
    ensures
        b == builtin_plugin_spec(plugin_id@),
{
    str_starts_with(plugin_id, "grafana-") && (str_ends_with(plugin_id, "-datasource")
        || str_contains(plugin_id, "builtin") || str_eq(plugin_id, "grafana-clickhouse-datasource"))
}

// ---------------------------------------------------------------------------
// Panel types of a dashboard
// ---------------------------------------------------------------------------

/// The index of the first member named `key`, or the number of members when
/// there is none.
pub open spec fn key_index(m: Seq<(String, Json)>, key: Seq<char>) -> int
    decreases m.len(),
{
    if m.len() == 0 {
        0
    } else if m[0].0@ == key {
        0
    } else {
        1 + key_index(m.skip(1), key)
    }
}

proof fn lemma_key_index(m: Seq<(String, Json)>, key: Seq<char>)
    ensures
        0 <= key_index(m, key) <= m.len(),
        key_index(m, key) < m.len() ==> assoc(m, key) == Some(m[key_index(m, key)].1),
        key_index(m, key) == m.len() ==> assoc(m, key) is None,
    decreases m.len(),
{
    if m.len() > 0 && m[0].0@ != key {
        lemma_key_index(m.skip(1), key);
    }
}

/// The `type` of one panel, when it is a string.
pub open spec fn own_type(p: Json) -> Seq<Seq<char>> {
    match p.get_spec("type"@) {
        Some(t) => match t.str_spec() {
            Some(s) => seq![s],
            None => Seq::empty(),
        },
        None => Seq::empty(),
    }
}

/// The types of a panel and of every panel nested in it (rows hold panels
/// under `panels`), in depth-first order.
pub open spec fn panel_types(p: Json) -> Seq<Seq<char>>
    decreases p,
{
    own_type(p) + match p {
        Json::Object(m) => {
            let k = key_index(m@, "panels"@);
            if 0 <= k < m@.len() {
                match m@[k].1 {
                    Json::Array(ch) => panels_types(ch@),
                    _ => Seq::empty(),
                }
            } else {
                Seq::empty()
            }
        },
        _ => Seq::empty(),
    }
}

/// The types of a list of panels and of the panels nested in them.
pub open spec fn panels_types(panels: Seq<Json>) -> Seq<Seq<char>>
    decreases panels,
{
    if panels.len() == 0 {
        Seq::empty()
    } else {
        panels_types(panels.drop_last()) + panel_types(panels.last())
    }
}

/// Appends the types of `p` and of the panels nested in it.
#[verifier::loop_isolation(false)]
fn collect_panel_types(p: &Json, out: &mut Vec<String>)
    ensures
        views(final(out)@) == views(old(out)@) + panel_types(*p),
    decreases p,
{
    let ghost base = views(out@);
    match p.get("type") {
        Some(t) => match t.as_str() {
            Some(s) => {
                out.push(s.clone());
            },
            None => {},
        },
        None => {},
    }
    assert(views(out@) =~= base + own_type(*p));
    let ghost with_own = views(out@);
    match p {
        Json::Object(m) => {
            proof {
                lemma_key_index(m@, "panels"@);
            }
            match p.get("panels") {
                Some(c) => match c {
                    Json::Array(ch) => {
                        let ghost k = key_index(m@, "panels"@);
                        assert(m@[k].1 == *c);
                        assert forall|j: int| 0 <= j < ch@.len() implies decreases_to!(*p => #[trigger] ch@[j]) by {
                            assert(decreases_to!(*p => m));
                            assert(decreases_to!(m => m@));
                            assert(decreases_to!(m@ => m@[k]));
                            assert(decreases_to!(m@[k] => m@[k].1));
                            assert(decreases_to!(*c => ch));
                            assert(decreases_to!(ch => ch@));
                            assert(decreases_to!(ch@ => ch@[j]));
                        }
                        let mut j: usize = 0;
                        assert(ch@.take(0) =~= Seq::<Json>::empty());
                        while j < ch.len()
                            invariant
                                j <= ch@.len(),
                                forall|i: int| 0 <= i < ch@.len() ==> decreases_to!(*p => #[trigger] ch@[i]),
                                views(out@) == with_own + panels_types(ch@.take(j as int)),
                            decreases ch.len() - j,
                        {
                            collect_panel_types(&ch[j], out);
                            assert(ch@.take(j + 1).drop_last() =~= ch@.take(j as int));
                            j = j + 1;
                        }
                        assert(ch@.take(j as int) =~= ch@);
                        assert(views(out@) =~= base + panel_types(*p));
                    },
                    _ => {
                        assert(views(out@) =~= base + panel_types(*p));
                    },
                },
                None => {
                    assert(views(out@) =~= base + panel_types(*p));
                },
            }
        },
        _ => {
            assert(views(out@) =~= base + panel_types(*p));
        },
    }
}

/// Appends the types of each panel of `panels` and of the panels nested in
/// them.
fn collect_panels_types(panels: &Vec<Json>, out: &mut Vec<String>)
    ensures
        views(final(out)@) == views(old(out)@) + panels_types(panels@),
{
    let ghost base = views(out@);
    let mut j: usize = 0;
    assert(panels@.take(0) =~= Seq::<Json>::empty());
    while j < panels.len()
        invariant
            j <= panels@.len(),
            views(out@) == base + panels_types(panels@.take(j as int)),
        decreases panels.len() - j,
    {
        collect_panel_types(&panels[j], out);
        assert(panels@.take(j + 1).drop_last() =~= panels@.take(j as int));
        j = j + 1;
    }
    assert(panels@.take(j as int) =~= panels@);
    assert(views(out@) =~= base + panels_types(panels@));
}

/// The panel types of a dashboard document (the `dashboard` member when
/// there is one, else the document itself), nested rows included.
pub open spec fn dashboard_panel_types(doc: Json) -> Seq<Seq<char>> {
    let d = match doc.get_spec("dashboard"@) {
        Some(x) => x,
        None => doc,
    };
    match d.get_spec("panels"@) {
        Some(Json::Array(v)) => panels_types(v@),
        _ => Seq::empty(),
    }
}

/// How many times `t` occurs in `s`.
pub open spec fn occurrences(s: Seq<Seq<char>>, t: Seq<char>) -> nat
    decreases s.len(),
{
    if s.len() == 0 {
        0
    } else {
        occurrences(s.drop_last(), t) + if s.last() == t {
            1nat
        } else {
            0nat
        }
    }
}

proof fn lemma_occurrences(s: Seq<Seq<char>>, t: Seq<char>)
    ensures
        occurrences(s, t) <= s.len(),
        !s.contains(t) ==> occurrences(s, t) == 0,
    decreases s.len(),
{
    if s.len() > 0 {
        lemma_occurrences(s.drop_last(), t);
        if !s.contains(t) {
            assert forall|i: int| 0 <= i < s.drop_last().len() implies s.drop_last()[i] != t by {
                assert(s.drop_last()[i] == s[i]);
            }
            assert(s.last() == s[s.len() - 1]);
        }
    }
}

/// The names of a list of (name, count) pairs.
pub open spec fn count_keys(r: Seq<(String, usize)>) -> Seq<Seq<char>> {
    r.map_values(|e: (String, usize)| e.0@)
}

/// `r` counts the panel types of `ts` that are not built in: each such type
/// once, with the number of its panels.
pub open spec fn counts_plugin_types(r: Seq<(String, usize)>, ts: Seq<Seq<char>>) -> bool {
    &&& count_keys(r).no_duplicates()
    &&& forall|t: Seq<char>| #[trigger] count_keys(r).contains(t) <==> (ts.contains(t) && !builtin_panel_types().contains(t))
    &&& forall|j: int| 0 <= j < r.len() ==> (#[trigger] r[j]).1 == occurrences(ts, r[j].0@)
}

/// Counts the panel types of `ts` that are not built in.
fn count_plugin_types(ts: &Vec<String>) -> (r: Vec<(String, usize)>)
    ensures
        counts_plugin_types(r@, views(ts@)),
{
    let ghost all = views(ts@);
    let mut r: Vec<(String, usize)> = Vec::new();
    let mut i: usize = 0;
    assert(all.take(0) =~= Seq::<Seq<char>>::empty());
    assert(count_keys(r@) =~= Seq::<Seq<char>>::empty());
    while i < ts.len()
        invariant
            i <= ts@.len(),
            all == views(ts@),
            counts_plugin_types(r@, all.take(i as int)),
            forall|j: int| 0 <= j < r.len() ==> (#[trigger] r@[j]).1 <= i,
        decreases ts.len() - i,
    {
        let ghost pre = all.take(i as int);
        let ghost next = all.take(i + 1);
        assert(next.drop_last() =~= pre);
        assert(next.last() == ts@[i as int]@);
        assert forall|x: Seq<char>| #[trigger] next.contains(x) <==> (pre.contains(x) || x == ts@[i as int]@) by {
            if next.contains(x) {
                let w = choose|w: int| 0 <= w < next.len() && next[w] == x;
                if w < i {
                    assert(pre[w] == x);
                }
            }
            if pre.contains(x) {
                let w = choose|w: int| 0 <= w < pre.len() && pre[w] == x;
                assert(next[w] == x);
            }
            if x == ts@[i as int]@ {
                assert(next[i as int] == x);
            }
        }
        let t = ts[i].as_str();
        let ghost old_r = r@;
        let ghost mut pushed = false;
        if !is_builtin_panel_type(t) {
            let mut k: usize = 0;
            let mut found = false;
            while k < r.len()
                invariant_except_break
                    k <= r.len(),
                    !found,
                    forall|j: int| 0 <= j < k ==> (#[trigger] r@[j]).0@ != t@,
                ensures
                    k <= r.len(),
                    found ==> k < r.len() && r@[k as int].0@ == t@,
                    !found ==> forall|j: int| 0 <= j < r.len() ==> (#[trigger] r@[j]).0@ != t@,
                decreases r.len() - k,
            {
                if str_eq(r[k].0.as_str(), t) {
                    found = true;
                    break;
                }
                k = k + 1;
            }
            if found {
                assert(count_keys(old_r)[k as int] == t@);
                assert(count_keys(old_r).contains(t@));
                let key = r[k].0.clone();
                let n = r[k].1;
                r.set(k, (key, n + 1));
                assert(count_keys(r@) =~= count_keys(old_r)) by {
                    assert forall|j: int| 0 <= j < r@.len() implies #[trigger] count_keys(r@)[j] == count_keys(old_r)[j] by {
                    }
                }
                assert forall|j: int| 0 <= j < r.len() implies (#[trigger] r@[j]).1 == occurrences(next, r@[j].0@) by {
                    assert(occurrences(next, r@[j].0@) == occurrences(pre, r@[j].0@) + if next.last() == r@[j].0@ {
                        1nat
                    } else {
                        0nat
                    });
                    if j != k {
                        assert(r@[j] == old_r[j]);
                        assert(old_r[j].0@ != t@) by {
                            assert(count_keys(old_r)[j] == old_r[j].0@);
                            assert(count_keys(old_r)[k as int] == old_r[k as int].0@);
                        }
                    }
                }
            } else {
                proof {
                    lemma_occurrences(pre, t@);
                    assert(!count_keys(r@).contains(t@)) by {
                        if count_keys(r@).contains(t@) {
                            let w = choose|w: int| 0 <= w < count_keys(r@).len() && count_keys(r@)[w] == t@;
                            assert(r@[w].0@ == t@);
                        }
                    }
                }
                r.push((ts[i].clone(), 1));
                assert(count_keys(r@) =~= count_keys(old_r).push(t@));
                proof {
                    pushed = true;
                }
                assert forall|j: int| 0 <= j < r.len() implies (#[trigger] r@[j]).1 == occurrences(next, r@[j].0@) by {
                    assert(occurrences(next, r@[j].0@) == occurrences(pre, r@[j].0@) + if next.last() == r@[j].0@ {
                        1nat
                    } else {
                        0nat
                    });
                    if j < old_r.len() {
                        assert(r@[j] == old_r[j]);
                        assert(old_r[j].0@ != t@);
                    }
                }
            }
        } else {
            assert forall|j: int| 0 <= j < r.len() implies (#[trigger] r@[j]).1 == occurrences(next, r@[j].0@) by {
                assert(occurrences(next, r@[j].0@) == occurrences(pre, r@[j].0@) + if next.last() == r@[j].0@ {
                    1nat
                } else {
                    0nat
                });
                assert(count_keys(r@)[j] == r@[j].0@);
                assert(count_keys(r@).contains(r@[j].0@));
            }
        }
        assert forall|x: Seq<char>| #[trigger] count_keys(r@).contains(x) <==> (next.contains(x)
            && !builtin_panel_types().contains(x)) by {
            assert(next.contains(x) <==> (pre.contains(x) || x == t@));
            assert(count_keys(old_r).contains(x) <==> (pre.contains(x) && !builtin_panel_types().contains(x)));
            if pushed {
                assert(count_keys(r@) == count_keys(old_r).push(t@));
                if count_keys(r@).contains(x) && x != t@ {
                    let w = choose|w: int| 0 <= w < count_keys(r@).len() && count_keys(r@)[w] == x;
                    assert(count_keys(old_r)[w] == x);
                }
                if count_keys(old_r).contains(x) {
                    let w = choose|w: int| 0 <= w < count_keys(old_r).len() && count_keys(old_r)[w] == x;
                    assert(count_keys(r@)[w] == x);
                }
                if x == t@ {
                    assert(count_keys(r@)[count_keys(r@).len() - 1] == x);
                }
            } else {
                assert(count_keys(r@) == count_keys(old_r));
            }
        }
        assert(count_keys(r@).no_duplicates()) by {
            if pushed {
                assert forall|a: int, b: int| 0 <= a < b < count_keys(r@).len() implies count_keys(r@)[a] != count_keys(r@)[b] by {
                    if b == count_keys(r@).len() - 1 {
                        assert(count_keys(old_r)[a] == count_keys(r@)[a]);
                        assert(count_keys(old_r).contains(count_keys(r@)[a]));
                    } else {
                        assert(count_keys(old_r)[a] == count_keys(r@)[a]);
                        assert(count_keys(old_r)[b] == count_keys(r@)[b]);
                    }
                }
            }
        }
        assert(counts_plugin_types(r@, next));
        i = i + 1;
    }
    assert(all.take(i as int) =~= all);
    r
}

/// Counts the panels of each plugin type a dashboard uses, built-in panel
/// types left out.
pub fn extract_plugins_from_dashboard(dashboard_data: &Json) -> (r: Vec<(String, usize)>)
    ensures
        counts_plugin_types(r@, dashboard_panel_types(*dashboard_data)),
{
    let d = match dashboard_data.get("dashboard") {
        Some(x) => x,
        None => dashboard_data,
    };
    let mut ts: Vec<String> = Vec::new();
    match d.get("panels") {
        Some(p) => match p {
            Json::Array(v) => {
                collect_panels_types(v, &mut ts);
                assert(views(ts@) =~= panels_types(v@));
            },
            _ => {},
        },
        None => {},
    }
    assert(views(ts@) =~= dashboard_panel_types(*dashboard_data));
    count_plugin_types(&ts)
}

// ---------------------------------------------------------------------------
// The plugin list that Grafana reports
// ---------------------------------------------------------------------------

/// The string under `first`, or under `second` when there is no `first`
/// member; "unknown" when the chosen member is missing or not a string.
pub open spec fn pick_str(p: Json, first: Seq<char>, second: Seq<char>) -> Seq<char> {
    let chosen = match p.get_spec(first) {
        Some(v) => Some(v),
        None => p.get_spec(second),
    };
    match chosen {
        Some(v) => match v.str_spec() {
            Some(s) => s,
            None => "unknown"@,
        },
        None => "unknown"@,
    }
}

fn pick_str_exec(p: &Json, first: &str, second: &str) -> (r: String)
    ensures
        r@ == pick_str(*p, first@, second@),
{
    let chosen = match p.get(first) {
        Some(v) => Some(v),
        None => p.get(second),
    };
    match chosen {
        Some(v) => match v.as_str() {
            Some(s) => s.clone(),
            None => "unknown".to_string(),
        },
        None => "unknown".to_string(),
    }
}

/// The version under `info.version`, when it is a string.
pub open spec fn plugin_version(p: Json) -> Option<Seq<char>> {
    match p.get_spec("info"@) {
        Some(i) => match i.get_spec("version"@) {
            Some(v) => v.str_spec(),
            None => None,
        },
        None => None,
    }
}

/// What one entry of Grafana's plugin list says of a plugin.
pub open spec fn plugin_info_matches(info: PluginInfo, p: Json) -> bool {
    &&& info.id@ == pick_str(p, "id"@, "name"@)
    &&& info.name@ == pick_str(p, "name"@, "id"@)
    &&& info.plugin_type@ == pick_str(p, "type"@, "type"@)
    &&& info.enabled == match p.get_spec("enabled"@) {
        Some(v) => match v.bool_spec() {
            Some(b) => b,
            None => true,
        },
        None => true,
    }
    &&& match info.version {
        Some(v) => plugin_version(p) == Some(v@),
        None => plugin_version(p) is None,
    }
}

/// Reads one entry of Grafana's plugin list.
pub fn plugin_info_from_json(p: &Json) -> (r: PluginInfo)
    ensures
        plugin_info_matches(r, *p),
{
    let id = pick_str_exec(p, "id", "name");
    let name = pick_str_exec(p, "name", "id");
    let plugin_type = pick_str_exec(p, "type", "type");
    let enabled = match p.get("enabled") {
        Some(v) => match v.as_bool() {
            Some(b) => b,
            None => true,
        },
        None => true,
    };
    let version = match p.get("info") {
        Some(i) => match i.get("version") {
            Some(v) => match v.as_str() {
                Some(s) => Some(s.clone()),
                None => None,
            },
            None => None,
        },
        None => None,
    };
    PluginInfo { id, name, plugin_type, enabled, version }
}

/// Reads Grafana's plugin list, which must be a JSON array.
pub fn plugins_from_json(v: &Json) -> (r: Result<Vec<PluginInfo>, String>)
    ensures
        match r {
            Ok(list) => v.array_spec() is Some && list@.len() == v.array_spec()->Some_0.len()
                && forall|i: int| 0 <= i < list@.len() ==> plugin_info_matches(#[trigger] list@[i], v.array_spec()->Some_0[i]),
            Err(e) => v.array_spec() is None && e@ == "Unexpected plugins response format"@,
        },
{
    match v.as_array() {
        Some(items) => {
            let mut out: Vec<PluginInfo> = Vec::new();
            let mut i: usize = 0;
            while i < items.len()
                invariant
                    i <= items@.len(),
                    out@.len() == i,
                    forall|j: int| 0 <= j < i ==> plugin_info_matches(#[trigger] out@[j], items@[j]),
                decreases items.len() - i,
            {
                out.push(plugin_info_from_json(&items[i]));
                i = i + 1;
            }
            Ok(out)
        },
        None => Err("Unexpected plugins response format".to_string()),
    }
}

// ---------------------------------------------------------------------------
// Which plugins are used, installed or missing
// ---------------------------------------------------------------------------

/// The installed plugin with `id`: the last one in the list, as a map built
/// from the list keeps it.
pub open spec fn installed_lookup(installed: Seq<PluginInfo>, id: Seq<char>) -> Option<PluginInfo>
    decreases installed.len(),
{
    if installed.len() == 0 {
        None
    } else if installed.last().id@ == id {
        Some(installed.last())
    } else {
        installed_lookup(installed.drop_last(), id)
    }
}

fn installed_lookup_exec(installed: &Vec<PluginInfo>, id: &str) -> (r: Option<usize>)
    ensures
        match r {
            Some(k) => k < installed@.len() && installed_lookup(installed@, id@) == Some(installed@[k as int]),
            None => installed_lookup(installed@, id@) is None,
        },
{
    let mut k: usize = installed.len();
    assert(installed@.take(k as int) =~= installed@);
    while k > 0
        invariant
            k <= installed@.len(),
            installed_lookup(installed@, id@) == installed_lookup(installed@.take(k as int), id@),
        decreases k,
    {
        assert(installed@.take(k as int).drop_last() =~= installed@.take(k - 1));
        assert(installed@.take(k as int).last() == installed@[k - 1]);
        if str_eq(installed[k - 1].id.as_str(), id) {
            return Some(k - 1);
        }
        k = k - 1;
    }
    None
}

/// The dashboard title shown for a usage: `dashboard.title`, or the uid
/// when there is none.
pub open spec fn usage_title(uid: Seq<char>, doc: Json) -> Seq<char> {
    match doc.get_spec("dashboard"@) {
        Some(d) => match d.get_spec("title"@) {
            Some(t) => match t.str_spec() {
                Some(s) => s,
                None => uid,
            },
            None => uid,
        },
        None => uid,
    }
}

/// The type Grafana gives a plugin, or "unknown" when it is not installed.
pub open spec fn usage_type(installed: Seq<PluginInfo>, id: Seq<char>) -> Seq<char> {
    match installed_lookup(installed, id) {
        Some(p) => p.plugin_type@,
        None => "unknown"@,
    }
}

/// The usage records of one deployed dashboard: one for each plugin type it
/// uses, as `extract_plugins_from_dashboard` counts them.
pub fn usages_for_dashboard(uid: &str, dashboard: &Json, installed: &Vec<PluginInfo>) -> (r: Vec<
    DashboardPluginUsage,
>)
    ensures
        exists|counts: Seq<(String, usize)>|
            {
                &&& counts_plugin_types(counts, dashboard_panel_types(*dashboard))
                &&& r@.len() == counts.len()
                &&& forall|i: int|
                    0 <= i < r@.len() ==> {
                        &&& (#[trigger] r@[i]).dashboard_uid@ == uid@
                        &&& r@[i].dashboard_title@ == usage_title(uid@, *dashboard)
                        &&& r@[i].plugin_id@ == counts[i].0@
                        &&& r@[i].plugin_type@ == usage_type(installed@, counts[i].0@)
                        &&& r@[i].panel_count == counts[i].1
                    }
            },
{
    let counts = extract_plugins_from_dashboard(dashboard);
    let title = match dashboard.get("dashboard") {
        Some(d) => match d.get("title") {
            Some(t) => match t.as_str() {
                Some(s) => s.clone(),
                None => uid.to_string(),
            },
            None => uid.to_string(),
        },
        None => uid.to_string(),
    };
    let mut out: Vec<DashboardPluginUsage> = Vec::new();
    let mut i: usize = 0;
    while i < counts.len()
        invariant
            i <= counts@.len(),
            out@.len() == i,
            title@ == usage_title(uid@, *dashboard),
            forall|j: int|
                0 <= j < i ==> {
                    &&& (#[trigger] out@[j]).dashboard_uid@ == uid@
                    &&& out@[j].dashboard_title@ == usage_title(uid@, *dashboard)
                    &&& out@[j].plugin_id@ == counts@[j].0@
                    &&& out@[j].plugin_type@ == usage_type(installed@, counts@[j].0@)
                    &&& out@[j].panel_count == counts@[j].1
                },
        decreases counts.len() - i,
    {
        let id = counts[i].0.as_str();
        let plugin_type = match installed_lookup_exec(installed, id) {
            Some(k) => installed[k].plugin_type.clone(),
            None => "unknown".to_string(),
        };
        out.push(
            DashboardPluginUsage {
                dashboard_uid: uid.to_string(),
                dashboard_title: title.clone(),
                plugin_id: counts[i].0.clone(),
                plugin_type,
                panel_count: counts[i].1,
            },
        );
        i = i + 1;
    }
    out
}

/// The plugin ids of the usage records, in order.
pub open spec fn usage_ids(usages: Seq<DashboardPluginUsage>) -> Seq<Seq<char>> {
    usages.map_values(|u: DashboardPluginUsage| u.plugin_id@)
}

/// An installed plugin that is a panel and not a Grafana built-in.
pub open spec fn is_external_panel(installed: Seq<PluginInfo>, id: Seq<char>) -> bool {
    match installed_lookup(installed, id) {
        Some(p) => p.plugin_type@ == "panel"@ && !builtin_plugin_spec(p.id@),
        None => false,
    }
}

/// The used plugins sorted into those installed as external panels and
/// those Grafana does not have; each id once.
pub fn categorize_plugins(usages: &Vec<DashboardPluginUsage>, installed: &Vec<PluginInfo>) -> (r: (
    Vec<String>,
    Vec<String>,
))
    ensures
        views(r.0@).no_duplicates(),
        views(r.1@).no_duplicates(),
        forall|x: Seq<char>| #[trigger] views(r.0@).contains(x) <==> (usage_ids(usages@).contains(x)
            && is_external_panel(installed@, x)),
        forall|x: Seq<char>| #[trigger] views(r.1@).contains(x) <==> (usage_ids(usages@).contains(x)
            && installed_lookup(installed@, x) is None),
{
    let ghost ids = usage_ids(usages@);
    let mut external: Vec<String> = Vec::new();
    let mut missing: Vec<String> = Vec::new();
    let mut i: usize = 0;
    assert(views(external@) =~= Seq::<Seq<char>>::empty());
    assert(views(missing@) =~= Seq::<Seq<char>>::empty());
    while i < usages.len()
        invariant
            i <= usages@.len(),
            ids == usage_ids(usages@),
            views(external@).no_duplicates(),
            views(missing@).no_duplicates(),
            forall|x: Seq<char>| #[trigger] views(external@).contains(x) <==> (ids.take(i as int).contains(x)
                && is_external_panel(installed@, x)),
            forall|x: Seq<char>| #[trigger] views(missing@).contains(x) <==> (ids.take(i as int).contains(x)
                && installed_lookup(installed@, x) is None),
        decreases usages.len() - i,
    {
        proof {
            lemma_take_contains(ids, i as int);
        }
        assert(ids[i as int] == usages@[i as int].plugin_id@);
        let id = usages[i].plugin_id.as_str();
        match installed_lookup_exec(installed, id) {
            Some(k) => {
                let p = &installed[k];
                if str_eq(p.plugin_type.as_str(), "panel") && !is_builtin_plugin(p.id.as_str()) {
                    push_unique(&mut external, id);
                }
            },
            None => {
                push_unique(&mut missing, id);
            },
        }
        i = i + 1;
    }
    assert(ids.take(i as int) =~= ids);
    (external, missing)
}

/// `items` joined by `sep`.
pub open spec fn join(items: Seq<Seq<char>>, sep: Seq<char>) -> Seq<char>
    decreases items.len(),
{
    if items.len() == 0 {
        Seq::empty()
    } else if items.len() == 1 {
        items[0]
    } else {
        join(items.drop_last(), sep) + sep + items.last()
    }
}

/// `items` joined by `sep`.
pub fn join_strings(items: &Vec<String>, sep: &str) -> (r: String)
    ensures
        r@ == join(views(items@), sep@),
{
    let mut r = String::new();
    let mut i: usize = 0;
    while i < items.len()
        invariant
            i <= items@.len(),
            r@ == join(views(items@).take(i as int), sep@),
        decreases items.len() - i,
    {
        let ghost pre = views(items@).take(i as int);
        assert(views(items@).take(i + 1).drop_last() =~= pre);
        if i > 0 {
            append(&mut r, sep);
        } else {
            assert(pre =~= Seq::<Seq<char>>::empty());
        }
        append(&mut r, items[i].as_str());
        i = i + 1;
    }
    assert(views(items@).take(i as int) =~= views(items@));
    r
}

/// The error that strict plugin checking raises when plugins are missing.
pub open spec fn missing_plugins_message(missing: Seq<Seq<char>>) -> Seq<char> {
    "Plugin validation failed: "@ + decimal(missing.len()) + " required plugin(s) missing. Please install: "@
        + join(missing, ", "@)
}

/// The outcome of the plugin check: in strict mode, an error when any
/// plugin is missing; otherwise success.
pub fn plugin_check_outcome(missing: &Vec<String>, strict_plugins: bool) -> (r: Result<(), String>)
    ensures
        match r {
            Ok(()) => !strict_plugins || missing@.len() == 0,
            Err(e) => strict_plugins && missing@.len() > 0 && e@ == missing_plugins_message(views(missing@)),
        },
{
    if strict_plugins && missing.len() > 0 {
        let mut e = "Plugin validation failed: ".to_string();
        let n = u64_to_string(missing.len() as u64);
        append(&mut e, n.as_str());
        append(&mut e, " required plugin(s) missing. Please install: ");
        let j = join_strings(missing, ", ");
        append(&mut e, j.as_str());
        assert(e@ =~= missing_plugins_message(views(missing@)));
        return Err(e);
    }
    Ok(())
}

} // verus!
