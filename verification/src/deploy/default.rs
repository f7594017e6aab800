//! The local deployment: what the dashboards and the output report are made
//! of while a bundle is deployed to the testing cluster and the local
//! Grafana. The requests and waits are the caller's.
use vstd::prelude::*;
use crate::ext::{new_uuid_v4, is_hyphenated_uuid};
use crate::json::{copy_json, Json, JsonV};
use crate::models::bundle::{Bundle, Table};
use crate::output_struct::OutputTransformation;
use crate::text::{concat, append, owned, replace, str_replace};
use crate::deploy::remote::{substitute_transform_template_vars, substituted_transform};

verus! {

broadcast use vstd::string::group_string_axioms;

/// A string member along a path of keys, or the empty string.
pub open spec fn str_at(v: Json, keys: Seq<Seq<char>>) -> Seq<char>
    decreases keys.len(),
{
    if keys.len() == 0 {
        match v.str_spec() {
            Some(s) => s,
            None => Seq::empty(),
        }
    } else {
        match v.get_spec(keys[0]) {
            Some(x) => str_at(x, keys.skip(1)),
            None => Seq::empty(),
        }
    }
}

fn str_or_empty(v: Option<&Json>) -> (r: String)
    ensures
        r@ == match v {
            Some(x) => match x.str_spec() {
                Some(s) => s,
                None => Seq::empty(),
            },
            None => Seq::empty(),
        },
{
    match v {
        Some(x) => match x.as_str() {
            Some(s) => s.clone(),
            None => String::new(),
        },
        None => String::new(),
    }
}

/// The transform's format subtype (`settings.format_details.subtype`), or
/// the empty string.
pub fn get_transformation_subtype(transform_json: &Json) -> (r: String)
    ensures
        r@ == str_at(*transform_json, seq!["settings"@, "format_details"@, "subtype"@]),
{
    let ghost keys = seq!["settings"@, "format_details"@, "subtype"@];
    assert(keys.skip(1) =~= seq!["format_details"@, "subtype"@]);
    assert(keys.skip(1).skip(1) =~= seq!["subtype"@]);
    assert(keys.skip(1).skip(1).skip(1) =~= Seq::<Seq<char>>::empty());
    proof {
        reveal_with_fuel(str_at, 4);
    }
    let v = match transform_json.get("settings") {
        Some(s) => match s.get("format_details") {
            Some(f) => f.get("subtype"),
            None => None,
        },
        None => None,
    };
    str_or_empty(v)
}

/// The transform's `type`, or the empty string.
pub fn get_transformation_type(transform_json: &Json) -> (r: String)
    ensures
        r@ == str_at(*transform_json, seq!["type"@]),
{
    assert(seq!["type"@].skip(1) =~= Seq::<Seq<char>>::empty());
    proof {
        reveal_with_fuel(str_at, 2);
    }
    str_or_empty(transform_json.get("type"))
}

/// The transform's `name`, or the empty string.
pub fn get_transformation_name(transform_json: &Json) -> (r: String)
    ensures
        r@ == str_at(*transform_json, seq!["name"@]),
{
    assert(seq!["name"@].skip(1) =~= Seq::<Seq<char>>::empty());
    proof {
        reveal_with_fuel(str_at, 2);
    }
    str_or_empty(transform_json.get("name"))
}

/// The sample data to insert: `settings.sample_data` when it is a
/// non-empty object, else `null` (nothing to insert).
pub open spec fn sample_to_insert(t: Json) -> JsonV {
    match t.get_spec("settings"@) {
        Some(s) => match s.get_spec("sample_data"@) {
            Some(d) => if d.is_object() && d.object_len() > 0 {
                d@
            } else {
                JsonV::Null
            },
            None => JsonV::Null,
        },
        None => JsonV::Null,
    }
}

/// The sample data of a transform that is inserted after it is created.
pub fn get_sample_data_as_json(transform_json: &Json) -> (r: Json)
    ensures
        r@ == sample_to_insert(*transform_json),
{
    match transform_json.get("settings") {
        Some(s) => match s.get("sample_data") {
            Some(d) => if d.is_object_exec() && d.object_len_exec() > 0 {
                copy_json(d)
            } else {
                Json::Null
            },
            None => Json::Null,
        },
        None => Json::Null,
    }
}

/// A transform for the testing project: the project and the shared project
/// filled into its SQL.
pub fn replace_transform_variables(transform_json: Json, project_name: &str, shared_project: &str) -> (r: Json)
    ensures
        r@ == substituted_transform(transform_json@, project_name@, shared_project@),
{
    substitute_transform_template_vars(transform_json, project_name, shared_project)
}

/// What the report says of a transform that was added.
pub fn output_transformation(name: String, transform_json: &Json) -> (r: OutputTransformation)
    ensures
        r.name == name,
        r.data_type@ == str_at(*transform_json, seq!["type"@]),
        r.data_sub_type@ == str_at(*transform_json, seq!["settings"@, "format_details"@, "subtype"@]),
{
    OutputTransformation {
        name,
        data_type: get_transformation_type(transform_json),
        data_sub_type: get_transformation_subtype(transform_json),
    }
}

/// The dashboard text with each table's variable replaced by the table's
/// name, table by table.
pub open spec fn tables_named(text: Seq<char>, tables: Seq<Table>) -> Seq<char>
    decreases tables.len(),
{
    if tables.len() == 0 {
        text
    } else {
        replace(tables_named(text, tables.drop_last()), tables.last().dashboard_var@, tables.last().name@)
    }
}

/// Fills the bundle's table variables into a dashboard's text.
pub fn name_tables(dashboard_data: &str, bundle: &Bundle) -> (r: String)
    ensures
        r@ == tables_named(dashboard_data@, bundle.tables@),
{
    let mut out = owned(dashboard_data);
    let mut i: usize = 0;
    while i < bundle.tables.len()
        invariant
            i <= bundle.tables@.len(),
            out@ == tables_named(dashboard_data@, bundle.tables@.take(i as int)),
        decreases bundle.tables.len() - i,
    {
        assert(bundle.tables@.take(i + 1).drop_last() =~= bundle.tables@.take(i as int));
        let t = &bundle.tables[i];
        out = str_replace(out.as_str(), t.dashboard_var.as_str(), t.name.as_str());
        i = i + 1;
    }
    assert(bundle.tables@.take(bundle.tables@.len() as int) =~= bundle.tables@);
    out
}

/// Fills a summary table's variable into a dashboard's text with its name
/// in the project.
pub fn name_summary(dashboard_data: &str, dashboard_var: &str, project_name: &str, summary_name: &str) -> (r: String)
    ensures
        r@ == replace(dashboard_data@, dashboard_var@, project_name@ + "."@ + summary_name@),
{
    let mut full = concat(project_name, ".");
    append(&mut full, summary_name);
    str_replace(dashboard_data, dashboard_var, full.as_str())
}

/// The text of a dashboard deployed on its own: `__PROJECT_NAME__` becomes
/// `JUST GRAFANA` and `__DASHBOARD_UUID__` a new random uuid.
pub fn dashboard_only_text(raw: &str) -> (r: String)
    ensures
        exists|u: Seq<char>| is_hyphenated_uuid(u)
            && r@ == replace(replace(raw@, "__PROJECT_NAME__"@, "JUST GRAFANA"@), "__DASHBOARD_UUID__"@, u),
{
    let a = str_replace(raw, "__PROJECT_NAME__", "JUST GRAFANA");
    let u = new_uuid_v4();
    let r = str_replace(a.as_str(), "__DASHBOARD_UUID__", u.as_str());
    assert(is_hyphenated_uuid(u@));
    r
}

} // verus!
