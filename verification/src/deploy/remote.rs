//! Pushing a bundle to the demo cluster and the review Grafana: the text
//! that goes out (dashboards with their placeholders filled in, transforms
//! and summary SQL for the bundle's project) and what is read back. The
//! requests, waits and retries are the caller's.
use vstd::prelude::*;
use crate::ext::{sha256_digest, sha256_digest_spec, is_lower_hex};
use crate::json::{Json, JsonV, json_view};
use crate::models::bundle::{Bundle, Table, SummaryTable};
use crate::grafana::remote::RemoteConfig;
use crate::remote::sanitize::{sanitize_project_name, sanitize_spec};
use crate::text::{concat, append, owned, str_eq, str_replace, replace, string_of, chars_of};

verus! {

broadcast use vstd::string::group_string_axioms;

/// The uid under which a dashboard of a project is kept in the review
/// Grafana: the first 40 hex digits of the SHA-256 of
/// `project:dashboard_path`, the same on every push.
pub open spec fn stable_uid_spec(project_name: Seq<char>, rel_path: Seq<char>) -> Seq<char> {
    sha256_digest_spec(project_name + ":"@ + rel_path).take(40)
}

/// The stable uid of a project's dashboard.
pub fn stable_dashboard_uid(project_name: &str, rel_path: &str) -> (r: String)
    ensures
        r@ == stable_uid_spec(project_name@, rel_path@),
        r@.len() == 40,
        forall|i: int| 0 <= i < 40 ==> is_lower_hex(#[trigger] r@[i]),
{
    let mut key = concat(project_name, ":");
    append(&mut key, rel_path);
    let digest = sha256_digest(key.as_str());
    let cs = chars_of(digest.as_str());
    let mut out: Vec<char> = Vec::new();
    let mut i: usize = 0;
    while i < 40
        invariant
            i <= 40,
            cs@.len() == 64,
            cs@ == sha256_digest_spec(key@),
            out@ == cs@.take(i as int),
        decreases 40 - i,
    {
        out.push(cs[i]);
        assert(cs@.take(i + 1) =~= cs@.take(i as int).push(cs@[i as int]));
        i = i + 1;
    }
    string_of(out.as_slice())
}

/// The placeholder variables of a list of tables, with the names they stand
/// for.
pub open spec fn table_vars(t: Seq<Table>) -> Seq<(Seq<char>, Seq<char>)> {
    Seq::new(t.len(), |i: int| (t[i].dashboard_var@, t[i].name@))
}

pub open spec fn summary_vars(s: Option<Vec<SummaryTable>>) -> Seq<(Seq<char>, Seq<char>)> {
    match s {
        Some(v) => Seq::new(v@.len(), |i: int| (v@[i].dashboard_var@, v@[i].name@)),
        None => Seq::empty(),
    }
}

/// `text` with each variable qualified by the project, in order: first the
/// form already prefixed with `__PROJECT_NAME__.`, then the bare variable,
/// both becoming `project.name`.
pub open spec fn qualify_vars(text: Seq<char>, vars: Seq<(Seq<char>, Seq<char>)>, project: Seq<char>) -> Seq<char>
    decreases vars.len(),
{
    if vars.len() == 0 {
        text
    } else {
        let prev = qualify_vars(text, vars.drop_last(), project);
        let q = project + "."@ + vars.last().1;
        replace(replace(prev, "__PROJECT_NAME__."@ + vars.last().0, q), vars.last().0, q)
    }
}

/// A dashboard's text for the review Grafana: the datasource, the stable
/// uid and the shared project filled in; table and summary variables
/// qualified by the project; then every remaining `__PROJECT_NAME__`
/// replaced by the project.
pub open spec fn substituted_dashboard(
    raw: Seq<char>,
    bundle: Bundle,
    project_name: Seq<char>,
    rel_path: Seq<char>,
    datasource_uid: Seq<char>,
    shared_project: Seq<char>,
) -> Seq<char> {
    let s1 = replace(raw, "__DATASOURCE__"@, datasource_uid);
    let s2 = replace(s1, "__DASHBOARD_UUID__"@, stable_uid_spec(project_name, rel_path));
    let s3 = replace(s2, "__SHARED_PROJECT__"@, shared_project);
    let s4 = qualify_vars(s3, table_vars(bundle.tables@), project_name);
    let s5 = qualify_vars(s4, summary_vars(bundle.summary_tables), project_name);
    replace(s5, "__PROJECT_NAME__"@, project_name)
}

fn qualify_one(text: &str, var: &str, name: &str, project_name: &str) -> (r: String)
    ensures
        r@ == replace(replace(text@, "__PROJECT_NAME__."@ + var@, project_name@ + "."@ + name@), var@,
            project_name@ + "."@ + name@),
{
    let mut qualified = concat(project_name, ".");
    append(&mut qualified, name);
    let prefixed = concat("__PROJECT_NAME__.", var);
    let a = str_replace(text, prefixed.as_str(), qualified.as_str());
    str_replace(a.as_str(), var, qualified.as_str())
}

/// Fills in the placeholders of a dashboard's text for the review Grafana;
/// `shared_project` is the name of the shared project.
pub fn substitute_dashboard_placeholders(
    raw: &str,
    bundle: &Bundle,
    project_name: &str,
    rel_path: &str,
    cfg: &RemoteConfig,
    shared_project: &str,
) -> (r: String)
    ensures
        r@ == substituted_dashboard(raw@, *bundle, project_name@, rel_path@, cfg.datasource_uid@, shared_project@),
{
    let mut out = str_replace(raw, "__DATASOURCE__", cfg.datasource_uid.as_str());
    let uid = stable_dashboard_uid(project_name, rel_path);
    out = str_replace(out.as_str(), "__DASHBOARD_UUID__", uid.as_str());
    out = str_replace(out.as_str(), "__SHARED_PROJECT__", shared_project);
    let ghost s3 = out@;
    let mut i: usize = 0;
    while i < bundle.tables.len()
        invariant
            i <= bundle.tables@.len(),
            out@ == qualify_vars(s3, table_vars(bundle.tables@).take(i as int), project_name@),
        decreases bundle.tables.len() - i,
    {
        let ghost tv = table_vars(bundle.tables@);
        assert(tv.take(i + 1).drop_last() =~= tv.take(i as int));
        let t = &bundle.tables[i];
        out = qualify_one(out.as_str(), t.dashboard_var.as_str(), t.name.as_str(), project_name);
        i = i + 1;
    }
    assert(table_vars(bundle.tables@).take(bundle.tables@.len() as int) =~= table_vars(bundle.tables@));
    let ghost s4 = out@;
    match &bundle.summary_tables {
        Some(summaries) => {
            let mut j: usize = 0;
            while j < summaries.len()
                invariant
                    j <= summaries@.len(),
                    bundle.summary_tables == Some(*summaries),
                    out@ == qualify_vars(s4, summary_vars(bundle.summary_tables).take(j as int), project_name@),
                decreases summaries.len() - j,
            {
                let ghost sv = summary_vars(bundle.summary_tables);
                assert(sv.take(j + 1).drop_last() =~= sv.take(j as int));
                let st = &summaries[j];
                out = qualify_one(out.as_str(), st.dashboard_var.as_str(), st.name.as_str(), project_name);
                j = j + 1;
            }
            assert(summary_vars(bundle.summary_tables).take(summaries@.len() as int) =~= summary_vars(bundle.summary_tables));
        },
        None => {
            assert(summary_vars(bundle.summary_tables) =~= Seq::<(Seq<char>, Seq<char>)>::empty());
        },
    }
    str_replace(out.as_str(), "__PROJECT_NAME__", project_name)
}

/// A summary table's SQL for the bundle's project: `__PROJECT_NAME__` and
/// then `__TABLE_NAME__` (the parent table) filled in.
pub fn summary_sql(raw: &str, project_name: &str, parent_table_name: &str) -> (r: String)
    ensures
        r@ == replace(replace(raw@, "__PROJECT_NAME__"@, project_name@), "__TABLE_NAME__"@, parent_table_name@),
{
    let a = str_replace(raw, "__PROJECT_NAME__", project_name);
    str_replace(a.as_str(), "__TABLE_NAME__", parent_table_name)
}

/// A transform for the bundle's project: its `settings.sql_transform`, when
/// it is a string, with `__PROJECT_NAME__` and then `__SHARED_PROJECT__`
/// filled in. Anything else is left as it is.
pub open spec fn substituted_transform(t: JsonV, project_name: Seq<char>, shared_project: Seq<char>) -> JsonV {
    match t {
        JsonV::Object(m) => match crate::grafana::datasource::key_position(m, "settings"@, 0) {
            Some(k) => match m[k].1 {
                JsonV::Object(sm) => match crate::grafana::datasource::key_position(sm, "sql_transform"@, 0) {
                    Some(q) => match sm[q].1 {
                        JsonV::Str(sql) => JsonV::Object(m.update(k, (m[k].0, JsonV::Object(sm.update(q, (sm[q].0,
                            JsonV::Str(replace(replace(sql, "__PROJECT_NAME__"@, project_name), "__SHARED_PROJECT__"@, shared_project)))))))),
                        _ => t,
                    },
                    None => t,
                },
                _ => t,
            },
            None => t,
        },
        _ => t,
    }
}

/// Fills in the project and shared project in a transform's SQL.
pub fn substitute_transform_template_vars(transform_json: Json, project_name: &str, shared_project: &str) -> (r: Json)
    ensures
        r@ == substituted_transform(transform_json@, project_name@, shared_project@),
{
    let ghost tv = transform_json@;
    match transform_json {
        Json::Object(mut m) => {
            let ghost mv = tv->Object_0;
            assert forall|j: int| 0 <= j < m@.len() implies #[trigger] mv[j] == (m@[j].0@, json_view(m@[j].1)) by {}
            assert(mv =~= Seq::new(m@.len(), |i: int| (m@[i].0@, json_view(m@[i].1))));
            let k = match member_index(&m, "settings") {
                Some(k) => k,
                None => {
                    return Json::Object(m);
                },
            };
            let ghost before = m@;
            let (name, settings) = m.remove(k);
            match settings {
                Json::Object(mut sm) => {
                    let ghost smv = mv[k as int].1->Object_0;
                    assert forall|j: int| 0 <= j < sm@.len() implies #[trigger] smv[j] == (sm@[j].0@, json_view(sm@[j].1)) by {}
                    assert(smv =~= Seq::new(sm@.len(), |i: int| (sm@[i].0@, json_view(sm@[i].1))));
                    match member_index(&sm, "sql_transform") {
                        Some(q) => {
                            let replaced = match &sm[q].1 {
                                Json::Str(sql) => {
                                    let a = str_replace(sql.as_str(), "__PROJECT_NAME__", project_name);
                                    let b = str_replace(a.as_str(), "__SHARED_PROJECT__", shared_project);
                                    assert(smv[q as int].1 == JsonV::Str(sql@));
                                    assert(b@ == replace(replace(smv[q as int].1->Str_0, "__PROJECT_NAME__"@, project_name@), "__SHARED_PROJECT__"@, shared_project@));
                                    Some(b)
                                },
                                _ => {
                                    assert(!(smv[q as int].1 is Str));
                                    None
                                },
                            };
                            match replaced {
                                Some(new_sql) => {
                                    let qname = sm[q].0.clone();
                                    let nv = Json::Str(new_sql);
                                    assert(nv@ == JsonV::Str(new_sql@));
                                    sm.set(q, (qname, nv));
                                    let s2 = Json::Object(sm);
                                    m.insert(k, (name, s2));
                                    let r = Json::Object(m);
                                    assert(json_view(s2)->Object_0 =~= smv.update(q as int, (smv[q as int].0,
                                        JsonV::Str(replace(replace(smv[q as int].1->Str_0, "__PROJECT_NAME__"@, project_name@), "__SHARED_PROJECT__"@, shared_project@)))));
                                    assert(json_view(r)->Object_0 =~= mv.update(k as int, (mv[k as int].0, json_view(s2))));
                                    r
                                },
                                None => {
                                    let s2 = Json::Object(sm);
                                    m.insert(k, (name, s2));
                                    let r = Json::Object(m);
                                    assert(json_view(r)->Object_0 =~= mv);
                                    r
                                },
                            }
                        },
                        None => {
                            let s2 = Json::Object(sm);
                            m.insert(k, (name, s2));
                            let r = Json::Object(m);
                            assert(json_view(r)->Object_0 =~= mv);
                            r
                        },
                    }
                },
                other => {
                    m.insert(k, (name, other));
                    let r = Json::Object(m);
                    assert(json_view(r)->Object_0 =~= mv);
                    r
                },
            }
        },
        other => other,
    }
}

/// The position of the first member named `key`.
fn member_index(m: &Vec<(String, Json)>, key: &str) -> (r: Option<usize>)
    ensures
        match r {
            Some(k) => k < m@.len() && crate::grafana::datasource::key_position(
                Seq::new(m@.len(), |i: int| (m@[i].0@, json_view(m@[i].1))), key@, 0) == Some(k as int),
            None => crate::grafana::datasource::key_position(
                Seq::new(m@.len(), |i: int| (m@[i].0@, json_view(m@[i].1))), key@, 0) is None,
        },
{
    let ghost mv = Seq::new(m@.len(), |i: int| (m@[i].0@, json_view(m@[i].1)));
    let mut i: usize = 0;
    while i < m.len()
        invariant
            i <= m@.len(),
            mv == Seq::new(m@.len(), |i: int| (m@[i].0@, json_view(m@[i].1))),
            crate::grafana::datasource::key_position(mv, key@, 0) == crate::grafana::datasource::key_position(mv, key@, i as int),
        decreases m.len() - i,
    {
        if str_eq(m[i].0.as_str(), key) {
            return Some(i);
        }
        i = i + 1;
    }
    None
}

/// The tables of a table listing: the listing itself when it is an array,
/// else its `results`, else its `data` (nothing when that is not an array).
pub open spec fn listed_tables(listing: Json) -> Seq<Json> {
    match listing {
        Json::Array(a) => a@,
        _ => match listing.get_spec("results"@) {
            Some(r) => match r.array_spec() {
                Some(a) => a,
                None => Seq::empty(),
            },
            None => match listing.get_spec("data"@) {
                Some(d) => match d.array_spec() {
                    Some(a) => a,
                    None => Seq::empty(),
                },
                None => Seq::empty(),
            },
        },
    }
}

/// The uuid of a listed table when it has the name `name` (a table without
/// a name counts as named with the empty string).
pub open spec fn uuid_if_named(t: Json, name: Seq<char>) -> Option<Seq<char>> {
    let n = match t.get_spec("name"@) {
        Some(v) => match v.str_spec() {
            Some(s) => s,
            None => Seq::empty(),
        },
        None => Seq::empty(),
    };
    if n == name {
        match t.get_spec("uuid"@) {
            Some(u) => u.str_spec(),
            None => None,
        }
    } else {
        None
    }
}

pub open spec fn first_named(list: Seq<Json>, name: Seq<char>, i: int) -> Option<Seq<char>>
    decreases list.len() - i,
{
    if i < 0 || i >= list.len() {
        None
    } else {
        match uuid_if_named(list[i], name) {
            Some(u) => Some(u),
            None => first_named(list, name, i + 1),
        }
    }
}

fn listed_tables_exec(listing: &Json) -> (r: Option<&Vec<Json>>)
    ensures
        match r {
            Some(a) => a@ == listed_tables(*listing),
            None => listed_tables(*listing).len() == 0,
        },
{
    match listing {
        Json::Array(a) => Some(a),
        _ => match listing.get("results") {
            Some(r) => r.as_array(),
            None => match listing.get("data") {
                Some(d) => d.as_array(),
                None => None,
            },
        },
    }
}

/// The uuid of the table named `table_name` in a table listing.
pub fn table_uuid_by_name(listing: &Json, table_name: &str) -> (r: Option<String>)
    ensures
        match r {
            Some(u) => first_named(listed_tables(*listing), table_name@, 0) == Some(u@),
            None => first_named(listed_tables(*listing), table_name@, 0) is None,
        },
{
    let items = match listed_tables_exec(listing) {
        Some(a) => a,
        None => {
            return None;
        },
    };
    let mut i: usize = 0;
    while i < items.len()
        invariant
            i <= items@.len(),
            items@ == listed_tables(*listing),
            first_named(items@, table_name@, 0) == first_named(items@, table_name@, i as int),
        decreases items.len() - i,
    {
        let t = &items[i];
        let n: &str = match t.get("name") {
            Some(v) => match v.as_str() {
                Some(s) => s.as_str(),
                None => "",
            },
            None => "",
        };
        proof {
            reveal_strlit("");
            assert(""@ =~= Seq::<char>::empty());
        }
        let mut hit: Option<String> = None;
        if str_eq(n, table_name) {
            match t.get("uuid") {
                Some(u) => match u.as_str() {
                    Some(s) => {
                        hit = Some(s.clone());
                    },
                    None => {},
                },
                None => {},
            }
        }
        assert(match hit {
            Some(h) => uuid_if_named(items@[i as int], table_name@) == Some(h@),
            None => uuid_if_named(items@[i as int], table_name@) is None,
        });
        if hit.is_some() {
            assert(first_named(items@, table_name@, i as int) == Some(hit->0@));
            return hit;
        }
        i = i + 1;
    }
    None
}

/// The link to the project's folder in the review Grafana.
pub fn review_url(grafana_url: &str, folder_uid: &str, project_name: &str) -> (r: String)
    ensures
        r@ == grafana_url@ + "/dashboards/f/"@ + folder_uid@ + "/"@ + project_name@,
{
    let mut r = concat(grafana_url, "/dashboards/f/");
    append(&mut r, folder_uid);
    append(&mut r, "/");
    append(&mut r, project_name);
    r
}

/// The version message of a review push.
pub fn push_message(bundle_name: &str, project_name: &str) -> (r: String)
    ensures
        r@ == "review push: "@ + bundle_name@ + " ("@ + project_name@ + ")"@,
{
    let mut r = concat("review push: ", bundle_name);
    append(&mut r, " (");
    append(&mut r, project_name);
    append(&mut r, ")");
    r
}

/// A bundle dashboard wrapped as `{"dashboard": {...}}` and nothing else is
/// unwrapped; anything else stays as it is.
pub open spec fn unwrapped_dashboard(v: JsonV) -> JsonV {
    match v {
        JsonV::Object(m) => if m.len() == 1 && m[0].0 == "dashboard"@ {
            m[0].1
        } else {
            v
        },
        _ => v,
    }
}

/// Unwraps a bundle dashboard from its `dashboard` wrapper.
pub fn unwrap_dashboard(d: Json) -> (r: Json)
    ensures
        r@ == unwrapped_dashboard(d@),
{
    let ghost dv = d@;
    match d {
        Json::Object(mut m) => {
            if m.len() == 1 && str_eq(m[0].0.as_str(), "dashboard") {
                assert(dv->Object_0[0] == (m@[0].0@, json_view(m@[0].1)));
                let (_, inner) = m.remove(0);
                inner
            } else {
                Json::Object(m)
            }
        },
        other => other,
    }
}

/// An object without its member `key`; anything else unchanged.
pub open spec fn without_member(v: JsonV, key: Seq<char>) -> JsonV {
    match v {
        JsonV::Object(m) => match crate::grafana::datasource::key_position(m, key, 0) {
            Some(k) => JsonV::Object(m.remove(k)),
            None => v,
        },
        _ => v,
    }
}

/// Removes member `key` from an object (the server-assigned `id` of a
/// dashboard, so that it is upserted by uid alone).
pub fn remove_member(d: Json, key: &str) -> (r: Json)
    ensures
        r@ == without_member(d@, key@),
{
    let ghost dv = d@;
    match d {
        Json::Object(mut m) => {
            let ghost mv = dv->Object_0;
            assert forall|j: int| 0 <= j < m@.len() implies #[trigger] mv[j] == (m@[j].0@, json_view(m@[j].1)) by {}
            assert(mv =~= Seq::new(m@.len(), |i: int| (m@[i].0@, json_view(m@[i].1))));
            match member_index(&m, key) {
                Some(k) => {
                    let _ = m.remove(k);
                    let r = Json::Object(m);
                    assert(json_view(r)->Object_0 =~= mv.remove(k as int));
                    r
                },
                None => Json::Object(m),
            }
        },
        other => other,
    }
}

/// The project a bundle is pushed to: its sanitized name, or the reason the
/// name cannot be one.
pub fn review_project_name(bundle_name: &str) -> (r: Result<String, String>)
    ensures
        match sanitize_spec(bundle_name@) {
            Ok(p) => r matches Ok(s) && s@ == p,
            Err(e) => r matches Err(m) && m@ == "invalid bundle name '"@ + bundle_name@ + "': "@ + e,
        },
{
    match sanitize_project_name(bundle_name) {
        Ok(p) => Ok(p),
        Err(e) => {
            let mut m = concat("invalid bundle name '", bundle_name);
            append(&mut m, "': ");
            append(&mut m, e.as_str());
            Err(m)
        },
    }
}

/// The dashboards a bundle pushes: its main dashboard, then the others in
/// order.
pub fn dashboard_paths(bundle: &Bundle) -> (r: Vec<String>)
    ensures
        crate::text::views(r@) == seq![bundle.dashboard.path@] + match bundle.other_dashboards {
            Some(o) => Seq::new(o@.len(), |i: int| o@[i].path@),
            None => Seq::empty(),
        },
{
    let mut r: Vec<String> = Vec::new();
    r.push(bundle.dashboard.path.clone());
    match &bundle.other_dashboards {
        Some(others) => {
            let mut i: usize = 0;
            while i < others.len()
                invariant
                    i <= others@.len(),
                    r@.len() == i + 1,
                    r@[0]@ == bundle.dashboard.path@,
                    forall|k: int| 0 <= k < i ==> (#[trigger] r@[k + 1])@ == others@[k].path@,
                decreases others.len() - i,
            {
                let p = others[i].path.clone();
                r.push(p);
                i = i + 1;
            }
            let ghost expected = seq![bundle.dashboard.path@] + Seq::new(others@.len(), |i: int| others@[i].path@);
            assert forall|k: int| 0 <= k < r@.len() implies crate::text::views(r@)[k] == expected[k] by {
                if k > 0 {
                    assert(r@[(k - 1) + 1]@ == others@[k - 1].path@);
                }
            }
            assert(crate::text::views(r@) =~= expected);
        },
        None => {
            assert(crate::text::views(r@) =~= seq![bundle.dashboard.path@] + Seq::<Seq<char>>::empty());
        },
    }
    r
}

/// Whether a failed attempt to create a summary table is tried again: up
/// to six attempts in all.
pub fn retry_summary(attempt: u32) -> (b: bool)
    ensures
        b == (attempt < 6),
{
    attempt < 6
}

} // verus!
