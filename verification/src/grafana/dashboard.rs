//! Dashboard templates: title slugs, sibling-dashboard uid macros and the
//! placeholders that a deployment fills in.
use vstd::prelude::*;
use crate::ext::{is_hyphenated_uuid, lowercase, lowercase_spec, new_uuid_v4, uppercase, uppercase_spec};
use crate::json::Json;
use crate::models::bundle::{Bundle, SummaryTable, Table};
use crate::text::{alnum, chars_of, concat, is_alnum, is_digit, is_lower, is_upper, replace, str_eq, str_replace, string_of};

verus! {

broadcast use vstd::string::group_string_axioms;

// ---------------------------------------------------------------------------
// Slugs and macros
// ---------------------------------------------------------------------------

/// The runs of ASCII letters and digits of `s`, in order, joined by `-`.
pub open spec fn alnum_runs_joined(s: Seq<char>) -> Seq<char>
    decreases s.len(),
{
    if s.len() == 0 {
        Seq::empty()
    } else {
        let p = alnum_runs_joined(s.drop_last());
        let c = s.last();
        if !is_alnum(c) {
            p
        } else if p.len() > 0 && !is_alnum(s[s.len() - 2]) {
            p.push('-').push(c)
        } else {
            p.push(c)
        }
    }
}

/// The slug of a dashboard title: the title lower-cased, then its runs of
/// ASCII letters and digits joined by `-`.
pub open spec fn slug_spec(title: Seq<char>) -> Seq<char> {
    alnum_runs_joined(lowercase_spec(title))
}

/// A slug: ASCII letters, digits and single `-` between them.
pub open spec fn is_slug(s: Seq<char>) -> bool {
    &&& forall|i: int| 0 <= i < s.len() ==> is_alnum(#[trigger] s[i]) || s[i] == '-'
    &&& s.len() > 0 ==> is_alnum(s[0]) && is_alnum(s.last())
    &&& forall|i: int| 0 <= i < s.len() - 1 ==> #[trigger] s[i] == '-' ==> is_alnum(s[i + 1])
}

/// Every slug has the shape of a slug: no character but ASCII letters, digits
/// and `-`, no `-` at either end, and never two `-` in a row.
pub proof fn lemma_slug_shape(s: Seq<char>)
    ensures
        is_slug(alnum_runs_joined(s)),
    decreases s.len(),
{
    if s.len() > 0 {
        lemma_slug_shape(s.drop_last());
        let p = alnum_runs_joined(s.drop_last());
        let r = alnum_runs_joined(s);
        if is_alnum(s.last()) {
            if p.len() > 0 && !is_alnum(s[s.len() - 2]) {
                assert forall|i: int| 0 <= i < r.len() - 1 implies #[trigger] r[i] == '-' ==> is_alnum(r[i + 1]) by {
                    if i < p.len() - 1 {
                        assert(r[i] == p[i] && r[i + 1] == p[i + 1]);
                    }
                }
                assert forall|i: int| 0 <= i < r.len() implies is_alnum(#[trigger] r[i]) || r[i] == '-' by {
                    if i < p.len() {
                        assert(r[i] == p[i]);
                    }
                }
            } else {
                assert forall|i: int| 0 <= i < r.len() - 1 implies #[trigger] r[i] == '-' ==> is_alnum(r[i + 1]) by {
                    if i < p.len() - 1 {
                        assert(r[i] == p[i] && r[i + 1] == p[i + 1]);
                    }
                }
                assert forall|i: int| 0 <= i < r.len() implies is_alnum(#[trigger] r[i]) || r[i] == '-' by {
                    if i < p.len() {
                        assert(r[i] == p[i]);
                    }
                }
            }
        }
    }
}

/// The runs keep the characters they are made of: no ASCII capital appears
/// that was not in the text.
proof fn lemma_runs_keep_case(s: Seq<char>)
    requires
        forall|i: int| 0 <= i < s.len() ==> !is_upper(#[trigger] s[i]),
    ensures
        forall|i: int| 0 <= i < alnum_runs_joined(s).len() ==> !is_upper(#[trigger] alnum_runs_joined(s)[i]),
    decreases s.len(),
{
    if s.len() > 0 {
        let d = s.drop_last();
        assert forall|i: int| 0 <= i < d.len() implies !is_upper(#[trigger] d[i]) by {
            assert(d[i] == s[i]);
        }
        lemma_runs_keep_case(d);
        let p = alnum_runs_joined(d);
        let r = alnum_runs_joined(s);
        assert forall|i: int| 0 <= i < r.len() implies !is_upper(#[trigger] r[i]) by {
            if i < p.len() {
                assert(r[i] == p[i]);
            }
        }
    }
}

/// A slug is its own slug: joining the runs of a slug gives it back.
pub proof fn lemma_slug_fixed(s: Seq<char>)
    requires
        is_slug(s),
    ensures
        alnum_runs_joined(s) == s,
{
    lemma_runs_of_dashed(s);
}

proof fn lemma_runs_of_dashed(s: Seq<char>)
    requires
        forall|i: int| 0 <= i < s.len() ==> is_alnum(#[trigger] s[i]) || s[i] == '-',
        s.len() > 0 ==> is_alnum(s[0]),
        forall|i: int| 0 <= i < s.len() - 1 ==> #[trigger] s[i] == '-' ==> is_alnum(s[i + 1]),
    ensures
        alnum_runs_joined(s) == if s.len() > 0 && s.last() == '-' {
            s.drop_last()
        } else {
            s
        },
    decreases s.len(),
{
    if s.len() > 0 {
        let d = s.drop_last();
        assert forall|i: int| 0 <= i < d.len() implies is_alnum(#[trigger] d[i]) || d[i] == '-' by {
            assert(d[i] == s[i]);
        }
        assert forall|i: int| 0 <= i < d.len() - 1 implies #[trigger] d[i] == '-' ==> is_alnum(d[i + 1]) by {
            assert(d[i] == s[i] && d[i + 1] == s[i + 1]);
        }
        if d.len() > 0 {
            assert(d[0] == s[0]);
        }
        lemma_runs_of_dashed(d);
        let c = s.last();
        if is_alnum(c) {
            if d.len() > 0 && d.last() == '-' {
                assert(d.len() >= 2);
                assert(s[s.len() - 2] == d.last());
                assert(d.drop_last().push('-').push(c) =~= s);
            } else {
                if d.len() > 0 {
                    assert(s[s.len() - 2] == d.last());
                }
                assert(d.push(c) =~= s);
            }
        } else {
            assert(c == '-');
            if d.len() > 0 {
                assert(s[s.len() - 2] == '-' ==> is_alnum(s[s.len() - 1]));
                assert(d.last() == s[s.len() - 2]);
            }
        }
    }
}

/// Grafana-style title slugification: lower-cased, every run of characters
/// that are not ASCII letters or digits becomes one `-`, and no `-` is left
/// at either end.
pub fn slugify_grafana_title(title: &str) -> (r: String)
    ensures
        r@ == slug_spec(title@),
        is_slug(r@),
        forall|i: int| 0 <= i < r@.len() ==> is_lower(#[trigger] r@[i]) || is_digit(r@[i]) || r@[i] == '-',
{
    let lower = lowercase(title);
    let cs = chars_of(lower.as_str());
    let mut out: Vec<char> = Vec::new();
    let mut i: usize = 0;
    let mut prev_alnum = false;
    while i < cs.len()
        invariant
            i <= cs@.len(),
            cs@ == lowercase_spec(title@),
            out@ == alnum_runs_joined(cs@.take(i as int)),
            i > 0 ==> prev_alnum == is_alnum(cs@[i - 1]),
        decreases cs.len() - i,
    {
        let c = cs[i];
        let ghost pre = cs@.take(i + 1);
        assert(pre.drop_last() =~= cs@.take(i as int));
        assert(pre.last() == c);
        let a = alnum(c);
        if a {
            if out.len() > 0 && !prev_alnum {
                assert(pre[pre.len() - 2] == cs@[i - 1]);
                out.push('-');
            }
            out.push(c);
        }
        prev_alnum = a;
        i = i + 1;
    }
    assert(cs@.take(cs@.len() as int) =~= cs@);
    proof {
        lemma_slug_shape(cs@);
        lemma_runs_keep_case(cs@);
    }
    string_of(out.as_slice())
}

/// The `__DASHBOARD_UID_*__` macro that stands for the dashboard with `slug`.
pub open spec fn macro_spec(slug: Seq<char>) -> Seq<char> {
    "__DASHBOARD_UID_"@ + replace(uppercase_spec(slug), "-"@, "_"@) + "__"@
}

/// Converts a slug to its `__DASHBOARD_UID_*__` macro name: upper-cased,
/// with `-` turned into `_`.
pub fn slug_to_macro(slug: &str) -> (r: String)
    ensures
        r@ == macro_spec(slug@),
{
    let up = uppercase(slug);
    let body = str_replace(up.as_str(), "-", "_");
    let head = concat("__DASHBOARD_UID_", body.as_str());
    let r = concat(head.as_str(), "__");
    assert(r@ =~= macro_spec(slug@));
    r
}

// ---------------------------------------------------------------------------
// Substitutions
// ---------------------------------------------------------------------------

/// The pairs of a list of string pairs, as plain values.
pub open spec fn pair_views(v: Seq<(String, String)>) -> Seq<(Seq<char>, Seq<char>)> {
    v.map_values(|p: (String, String)| (p.0@, p.1@))
}

/// `s` after replacing, pair by pair in order, every occurrence of the first
/// string of the pair with the second.
pub open spec fn replace_each(s: Seq<char>, pairs: Seq<(Seq<char>, Seq<char>)>) -> Seq<char>
    decreases pairs.len(),
{
    if pairs.len() == 0 {
        s
    } else {
        replace_each(replace(s, pairs[0].0, pairs[0].1), pairs.skip(1))
    }
}

/// Replaces, pair by pair in order, every occurrence of the first string of
/// the pair with the second.
pub fn replace_pairs(s: &str, pairs: &Vec<(String, String)>) -> (r: String)
    ensures
        r@ == replace_each(s@, pair_views(pairs@)),
{
    let ghost all = pair_views(pairs@);
    let mut cur = s.to_string();
    let mut i: usize = 0;
    assert(all.skip(0) =~= all);
    while i < pairs.len()
        invariant
            i <= pairs@.len(),
            all == pair_views(pairs@),
            replace_each(s@, all) == replace_each(cur@, all.skip(i as int)),
        decreases pairs.len() - i,
    {
        assert(all.skip(i as int)[0] == (pairs@[i as int].0@, pairs@[i as int].1@));
        assert(all.skip(i as int).skip(1) =~= all.skip(i + 1));
        cur = str_replace(cur.as_str(), pairs[i].0.as_str(), pairs[i].1.as_str());
        i = i + 1;
    }
    assert(all.skip(i as int) =~= Seq::<(Seq<char>, Seq<char>)>::empty());
    cur
}

/// Each sibling's macro paired with that sibling's uid.
pub open spec fn macro_pairs(siblings: Seq<(Seq<char>, Seq<char>)>) -> Seq<(Seq<char>, Seq<char>)> {
    siblings.map_values(|e: (Seq<char>, Seq<char>)| (macro_spec(e.0), e.1))
}

/// What `apply_sibling_uid_subs` makes of `contents`.
pub open spec fn sibling_subs_spec(contents: Seq<char>, siblings: Seq<(Seq<char>, Seq<char>)>) -> Seq<char> {
    replace_each(contents, macro_pairs(siblings))
}

/// Replaces every `__DASHBOARD_UID_<SLUG>__` occurrence in `contents` with
/// the uid of that sibling; `sibling_uid_map` holds (slug, uid) pairs, applied
/// in its order.
pub fn apply_sibling_uid_subs(contents: &mut String, sibling_uid_map: &Vec<(String, String)>)
    ensures
        final(contents)@ == sibling_subs_spec(old(contents)@, pair_views(sibling_uid_map@)),
{
    let mut macros: Vec<(String, String)> = Vec::new();
    let mut i: usize = 0;
    while i < sibling_uid_map.len()
        invariant
            i <= sibling_uid_map@.len(),
            macros@.len() == i,
            pair_views(macros@) =~= macro_pairs(pair_views(sibling_uid_map@)).take(i as int),
        decreases sibling_uid_map.len() - i,
    {
        let m = slug_to_macro(sibling_uid_map[i].0.as_str());
        let u = sibling_uid_map[i].1.clone();
        let ghost before = macros@;
        macros.push((m, u));
        assert(pair_views(macros@) =~= macro_pairs(pair_views(sibling_uid_map@)).take(i + 1)) by {
            assert forall|j: int| 0 <= j < i + 1 implies #[trigger] pair_views(macros@)[j] == macro_pairs(
                pair_views(sibling_uid_map@),
            )[j] by {
                if j < i {
                    assert(macros@[j] == before[j]);
                    assert(pair_views(before)[j] == macro_pairs(pair_views(sibling_uid_map@)).take(i as int)[j]);
                }
            }
        }
        i = i + 1;
    }
    assert(macro_pairs(pair_views(sibling_uid_map@)).take(i as int) =~= macro_pairs(
        pair_views(sibling_uid_map@),
    ));
    let r = replace_pairs(contents.as_str(), &macros);
    *contents = r;
}

/// The uid paired with `slug`, the first such pair.
pub open spec fn lookup(entries: Seq<(Seq<char>, Seq<char>)>, slug: Seq<char>) -> Option<Seq<char>>
    decreases entries.len(),
{
    if entries.len() == 0 {
        None
    } else if entries[0].0 == slug {
        Some(entries[0].1)
    } else {
        lookup(entries.skip(1), slug)
    }
}

/// The title of a dashboard document: `dashboard.title` when the document
/// has a `dashboard` member, else its own `title`; empty when that is not a
/// string.
pub open spec fn dashboard_title(doc: Json) -> Seq<char> {
    let d = match doc.get_spec("dashboard"@) {
        Some(x) => x,
        None => doc,
    };
    match d.at("title"@).str_spec() {
        Some(t) => t,
        None => Seq::empty(),
    }
}

/// The title of a dashboard document.
pub fn title_of(doc: &Json) -> (r: String)
    ensures
        r@ == dashboard_title(*doc),
{
    let d = match doc.get("dashboard") {
        Some(x) => x,
        None => doc,
    };
    match d.get("title") {
        Some(t) => match t.as_str() {
            Some(s) => s.clone(),
            None => String::new(),
        },
        None => String::new(),
    }
}

/// Finds a dashboard's own uid among the siblings by its title's slug; where
/// the slug is not there, a fresh random uid.
pub fn own_uuid_from_map(doc: &Json, sibling_uid_map: &Vec<(String, String)>) -> (r: String)
    ensures
        match lookup(pair_views(sibling_uid_map@), slug_spec(dashboard_title(*doc))) {
            Some(u) => r@ == u,
            None => is_hyphenated_uuid(r@),
        },
{
    let title = title_of(doc);
    let slug = slugify_grafana_title(title.as_str());
    let ghost all = pair_views(sibling_uid_map@);
    let mut i: usize = 0;
    assert(all.skip(0) =~= all);
    while i < sibling_uid_map.len()
        invariant
            i <= sibling_uid_map@.len(),
            all == pair_views(sibling_uid_map@),
            slug@ == slug_spec(dashboard_title(*doc)),
            lookup(all, slug@) == lookup(all.skip(i as int), slug@),
        decreases sibling_uid_map.len() - i,
    {
        assert(all.skip(i as int)[0] == (sibling_uid_map@[i as int].0@, sibling_uid_map@[i as int].1@));
        assert(all.skip(i as int).skip(1) =~= all.skip(i + 1));
        if str_eq(sibling_uid_map[i].0.as_str(), slug.as_str()) {
            return sibling_uid_map[i].1.clone();
        }
        i = i + 1;
    }
    new_uuid_v4()
}

// ---------------------------------------------------------------------------
// Filling in a template
// ---------------------------------------------------------------------------

/// The primary dashboard of a deployment: sibling macros replaced, then the
/// project name, the datasource and the dashboard's own uid filled in.
pub open spec fn primary_dashboard_spec(
    template: Seq<char>,
    own_uuid: Seq<char>,
    project_name: Seq<char>,
    datalink: Seq<char>,
    siblings: Seq<(Seq<char>, Seq<char>)>,
) -> Seq<char> {
    let s0 = sibling_subs_spec(template, siblings);
    let s1 = replace(s0, "__PROJECT_NAME__"@, project_name);
    let s2 = replace(s1, "__DATASOURCE__"@, datalink);
    replace(s2, "__DASHBOARD_UUID__"@, own_uuid)
}

/// Fills in the primary dashboard template.
pub fn fill_primary_dashboard(
    template: &str,
    own_uuid: &str,
    project_name: &str,
    datalink: &str,
    sibling_uid_map: &Vec<(String, String)>,
) -> (r: String)
    ensures
        r@ == primary_dashboard_spec(template@, own_uuid@, project_name@, datalink@, pair_views(sibling_uid_map@)),
{
    let mut s = template.to_string();
    apply_sibling_uid_subs(&mut s, sibling_uid_map);
    let s = str_replace(s.as_str(), "__PROJECT_NAME__", project_name);
    let s = str_replace(s.as_str(), "__DATASOURCE__", datalink);
    str_replace(s.as_str(), "__DASHBOARD_UUID__", own_uuid)
}

/// Each table's dashboard variable paired with the table's name.
pub open spec fn table_var_pairs(tables: Seq<Table>) -> Seq<(Seq<char>, Seq<char>)> {
    tables.map_values(|t: Table| (t.dashboard_var@, t.name@))
}

/// Each summary table's dashboard variable paired with its name.
pub open spec fn summary_var_pairs(tables: Seq<SummaryTable>) -> Seq<(Seq<char>, Seq<char>)> {
    tables.map_values(|t: SummaryTable| (t.dashboard_var@, t.name@))
}

/// The `n`-th summary table variable (`MIN` for the first, `HOUR` for the
/// second) replaced, in both its braced and bare forms, by the qualified
/// table name.
pub open spec fn summary_var_subs(s: Seq<char>, project_name: Seq<char>, summaries: Option<Seq<SummaryTable>>) -> Seq<char> {
    match summaries {
        None => s,
        Some(st) => {
            let s1 = if st.len() > 0 {
                let q = project_name + "."@ + st[0].name@;
                replace(replace(s, "${VAR_SUMMARY_MIN}"@, q), "$VAR_SUMMARY_MIN"@, q)
            } else {
                s
            };
            if st.len() > 1 {
                let q = project_name + "."@ + st[1].name@;
                replace(replace(s1, "${VAR_SUMMARY_HOUR}"@, q), "$VAR_SUMMARY_HOUR"@, q)
            } else {
                s1
            }
        },
    }
}

pub open spec fn summaries_of(b: Bundle) -> Option<Seq<SummaryTable>> {
    match b.summary_tables {
        Some(v) => Some(v@),
        None => None,
    }
}

/// An additional dashboard of a deployment: as the primary one, then the
/// shared project, the summary table variables, and each table's and summary
/// table's dashboard variable filled in.
pub open spec fn other_dashboard_spec(
    template: Seq<char>,
    own_uuid: Seq<char>,
    bundle: Bundle,
    project_name: Seq<char>,
    datalink: Seq<char>,
    shared_project: Seq<char>,
    siblings: Seq<(Seq<char>, Seq<char>)>,
) -> Seq<char> {
    let s3 = primary_dashboard_spec(template, own_uuid, project_name, datalink, siblings);
    let s4 = replace(s3, "__SHARED_PROJECT__"@, shared_project);
    let s5 = summary_var_subs(s4, project_name, summaries_of(bundle));
    let s6 = replace_each(s5, table_var_pairs(bundle.tables@));
    match summaries_of(bundle) {
        Some(st) => replace_each(s6, summary_var_pairs(st)),
        None => s6,
    }
}

fn table_pairs(tables: &Vec<Table>) -> (r: Vec<(String, String)>)
    ensures
        pair_views(r@) == table_var_pairs(tables@),
{
    let mut r: Vec<(String, String)> = Vec::new();
    let mut i: usize = 0;
    while i < tables.len()
        invariant
            i <= tables@.len(),
            r@.len() == i,
            pair_views(r@) =~= table_var_pairs(tables@).take(i as int),
        decreases tables.len() - i,
    {
        let a = tables[i].dashboard_var.clone();
        let b = tables[i].name.clone();
        let ghost before = r@;
        r.push((a, b));
        assert(pair_views(r@) =~= table_var_pairs(tables@).take(i + 1)) by {
            assert forall|j: int| 0 <= j < i + 1 implies #[trigger] pair_views(r@)[j] == table_var_pairs(tables@)[j] by {
                if j < i {
                    assert(r@[j] == before[j]);
                    assert(pair_views(before)[j] == table_var_pairs(tables@).take(i as int)[j]);
                }
            }
        }
        i = i + 1;
    }
    assert(table_var_pairs(tables@).take(i as int) =~= table_var_pairs(tables@));
    r
}

fn summary_pairs(tables: &Vec<SummaryTable>) -> (r: Vec<(String, String)>)
    ensures
        pair_views(r@) == summary_var_pairs(tables@),
{
    let mut r: Vec<(String, String)> = Vec::new();
    let mut i: usize = 0;
    while i < tables.len()
        invariant
            i <= tables@.len(),
            r@.len() == i,
            pair_views(r@) =~= summary_var_pairs(tables@).take(i as int),
        decreases tables.len() - i,
    {
        let a = tables[i].dashboard_var.clone();
        let b = tables[i].name.clone();
        let ghost before = r@;
        r.push((a, b));
        assert(pair_views(r@) =~= summary_var_pairs(tables@).take(i + 1)) by {
            assert forall|j: int| 0 <= j < i + 1 implies #[trigger] pair_views(r@)[j] == summary_var_pairs(tables@)[j] by {
                if j < i {
                    assert(r@[j] == before[j]);
                    assert(pair_views(before)[j] == summary_var_pairs(tables@).take(i as int)[j]);
                }
            }
        }
        i = i + 1;
    }
    assert(summary_var_pairs(tables@).take(i as int) =~= summary_var_pairs(tables@));
    r
}

/// Fills in an additional dashboard template.
pub fn fill_other_dashboard(
    template: &str,
    own_uuid: &str,
    bundle: &Bundle,
    project_name: &str,
    datalink: &str,
    shared_project_name: &str,
    sibling_uid_map: &Vec<(String, String)>,
) -> (r: String)
    ensures
        r@ == other_dashboard_spec(
            template@,
            own_uuid@,
            *bundle,
            project_name@,
            datalink@,
            shared_project_name@,
            pair_views(sibling_uid_map@),
        ),
{
    let s = fill_primary_dashboard(template, own_uuid, project_name, datalink, sibling_uid_map);
    let mut s = str_replace(s.as_str(), "__SHARED_PROJECT__", shared_project_name);
    let ghost s4 = s@;
    match &bundle.summary_tables {
        Some(st) => {
            if st.len() > 0 {
                let head = concat(project_name, ".");
                let q = concat(head.as_str(), st[0].name.as_str());
                assert(q@ =~= project_name@ + "."@ + st@[0].name@);
                s = str_replace(s.as_str(), "${VAR_SUMMARY_MIN}", q.as_str());
                s = str_replace(s.as_str(), "$VAR_SUMMARY_MIN", q.as_str());
            }
            if st.len() > 1 {
                let head = concat(project_name, ".");
                let q = concat(head.as_str(), st[1].name.as_str());
                assert(q@ =~= project_name@ + "."@ + st@[1].name@);
                s = str_replace(s.as_str(), "${VAR_SUMMARY_HOUR}", q.as_str());
                s = str_replace(s.as_str(), "$VAR_SUMMARY_HOUR", q.as_str());
            }
        },
        None => {},
    }
    assert(s@ == summary_var_subs(s4, project_name@, summaries_of(*bundle)));
    let tp = table_pairs(&bundle.tables);
    let s = replace_pairs(s.as_str(), &tp);
    match &bundle.summary_tables {
        Some(st) => {
            let sp = summary_pairs(st);
            replace_pairs(s.as_str(), &sp)
        },
        None => s,
    }
}

} // verus!
