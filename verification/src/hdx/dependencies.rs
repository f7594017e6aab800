//! Production mode: the functions and dictionaries that a bundle needs must
//! already be on the cluster, and their definition files in the bundle.
use vstd::prelude::*;
use crate::grafana::plugins::{join, join_strings};
use crate::json::Json;
use crate::text::{append, concat, list_contains, views};

verus! {

broadcast use vstd::string::group_string_axioms;

/// The project that production resources live in.
pub open spec fn production_project() -> Seq<char> {
    "cdn_test_project"@
}

/// The entries of a listing response: the response itself when it is an
/// array, else the array under `key`, else the array under `data`; nothing
/// when the chosen member is not an array.
pub open spec fn listed_items(response: Json, key: Seq<char>) -> Seq<Json> {
    if response.array_spec() is Some {
        response.array_spec()->Some_0
    } else if response.get_spec(key) is Some {
        match response.get_spec(key)->Some_0.array_spec() {
            Some(v) => v,
            None => Seq::empty(),
        }
    } else if response.get_spec("data"@) is Some {
        match response.get_spec("data"@)->Some_0.array_spec() {
            Some(v) => v,
            None => Seq::empty(),
        }
    } else {
        Seq::empty()
    }
}

/// The string `name`s of the listed entries, in order.
pub open spec fn entry_names(items: Seq<Json>) -> Seq<Seq<char>>
    decreases items.len(),
{
    if items.len() == 0 {
        Seq::empty()
    } else {
        let rest = entry_names(items.drop_last());
        match items.last().get_spec("name"@) {
            Some(n) => match n.str_spec() {
                Some(s) => rest.push(s),
                None => rest,
            },
            None => rest,
        }
    }
}

fn listed<'a>(response: &'a Json, key: &str) -> (r: Option<&'a Vec<Json>>)
    ensures
        match r {
            Some(v) => listed_items(*response, key@) == v@,
            None => listed_items(*response, key@) == Seq::<Json>::empty(),
        },
{
    if response.is_array() {
        return response.as_array();
    }
    match response.get(key) {
        Some(v) => v.as_array(),
        None => match response.get("data") {
            Some(v) => v.as_array(),
            None => None,
        },
    }
}

/// The names of the functions or dictionaries (by `key`) that a listing
/// response holds.
pub fn existing_names(response: &Json, key: &str) -> (r: Vec<String>)
    ensures
        views(r@) == entry_names(listed_items(*response, key@)),
{
    let mut r: Vec<String> = Vec::new();
    match listed(response, key) {
        Some(items) => {
            let mut i: usize = 0;
            assert(items@.take(0) =~= Seq::<Json>::empty());
            assert(views(r@) =~= Seq::<Seq<char>>::empty());
            while i < items.len()
                invariant
                    i <= items@.len(),
                    views(r@) == entry_names(items@.take(i as int)),
                decreases items.len() - i,
            {
                assert(items@.take(i + 1).drop_last() =~= items@.take(i as int));
                assert(items@.take(i + 1).last() == items@[i as int]);
                match items[i].get("name") {
                    Some(n) => match n.as_str() {
                        Some(s) => {
                            let ghost before = views(r@);
                            r.push(s.clone());
                            assert(views(r@) =~= before.push(s@));
                        },
                        None => {},
                    },
                    None => {},
                }
                i = i + 1;
            }
            assert(items@.take(i as int) =~= items@);
        },
        None => {
            assert(views(r@) =~= Seq::<Seq<char>>::empty());
        },
    }
    r
}

/// The required names whose production counterpart
/// (`cdn_test_project_<name>`) is not among `existing`, in order.
pub open spec fn missing_spec(required: Seq<Seq<char>>, existing: Seq<Seq<char>>) -> Seq<Seq<char>> {
    required.filter(|n: Seq<char>| !existing.contains(production_project() + "_"@ + n))
}

/// The required names that the cluster lacks.
pub fn missing_on_cluster(required: &Vec<String>, existing: &Vec<String>) -> (r: Vec<String>)
    ensures
        views(r@) == missing_spec(views(required@), views(existing@)),
{
    let ghost req = views(required@);
    let mut r: Vec<String> = Vec::new();
    let mut i: usize = 0;
    assert(req.take(0) =~= Seq::<Seq<char>>::empty());
    assert(views(r@) =~= Seq::<Seq<char>>::empty());
    assert(missing_spec(req.take(0), views(existing@)) =~= Seq::<Seq<char>>::empty()) by {
        reveal(Seq::filter);
    }
    while i < required.len()
        invariant
            i <= required@.len(),
            req == views(required@),
            views(r@) == missing_spec(req.take(i as int), views(existing@)),
        decreases required.len() - i,
    {
        let ghost pre = req.take(i as int);
        assert(req.take(i + 1) =~= pre.push(req[i as int]));
        proof {
            pre.lemma_filter_push(req[i as int], |n: Seq<char>| !views(existing@).contains(production_project() + "_"@ + n));
        }
        let full = concat("cdn_test_project_", required[i].as_str());
        proof {
            reveal_strlit("cdn_test_project_");
            reveal_strlit("cdn_test_project");
            reveal_strlit("_");
            assert(full@ =~= production_project() + "_"@ + required@[i as int]@);
        }
        if !list_contains(existing, full.as_str()) {
            let ghost before = views(r@);
            r.push(required[i].clone());
            assert(views(r@) =~= before.push(required@[i as int]@));
        }
        i = i + 1;
    }
    assert(req.take(i as int) =~= req);
    r
}

/// The lines of the report for one kind of missing resource.
pub open spec fn missing_lines(header: Seq<char>, names: Seq<Seq<char>>) -> Seq<Seq<char>> {
    if names.len() == 0 {
        Seq::empty()
    } else {
        seq![header] + names.map_values(|n: Seq<char>| "   - "@ + n + " (expected as: "@ + production_project() + "_"@ + n + ")"@)
    }
}

/// The lines of the report on missing resources and files.
pub open spec fn report_lines(functions: Seq<Seq<char>>, dictionaries: Seq<Seq<char>>, files: Seq<Seq<char>>) -> Seq<Seq<char>> {
    let a = missing_lines("\n❌ Missing functions on cluster:"@, functions) + missing_lines(
        "\n❌ Missing dictionaries on cluster:"@,
        dictionaries,
    ) + if files.len() == 0 {
        Seq::empty()
    } else {
        seq!["\n⚠️  Missing local definition files:"@] + files.map_values(|f: Seq<char>| "   - "@ + f)
    };
    if a.len() == 0 {
        a
    } else {
        let b = a.push("\n📋 In production mode:"@);
        let c = if functions.len() > 0 || dictionaries.len() > 0 {
            b.push("   • Resources must exist on cluster before deployment"@).push(
                "   • Either create them manually or run without --production flag first"@,
            )
        } else {
            b
        };
        if files.len() > 0 {
            c.push("   • Local files should be included for documentation and validation"@)
        } else {
            c
        }
    }
}

fn push_missing_lines(lines: &mut Vec<String>, header: &str, names: &Vec<String>)
    ensures
        views(final(lines)@) == views(old(lines)@) + missing_lines(header@, views(names@)),
{
    if names.len() == 0 {
        assert(views(lines@) =~= views(lines@) + missing_lines(header@, views(names@)));
        return;
    }
    let ghost base = views(lines@);
    lines.push(header.to_string());
    let ghost f = |n: Seq<char>| "   - "@ + n + " (expected as: "@ + production_project() + "_"@ + n + ")"@;
    let mut i: usize = 0;
    while i < names.len()
        invariant
            i <= names@.len(),
            f == (|n: Seq<char>| "   - "@ + n + " (expected as: "@ + production_project() + "_"@ + n + ")"@),
            views(lines@) =~= base + seq![header@] + views(names@).map_values(f).take(i as int),
        decreases names.len() - i,
    {
        let mut l = "   - ".to_string();
        append(&mut l, names[i].as_str());
        append(&mut l, " (expected as: cdn_test_project_");
        append(&mut l, names[i].as_str());
        append(&mut l, ")");
        proof {
            reveal_strlit(" (expected as: cdn_test_project_");
            reveal_strlit(" (expected as: ");
            reveal_strlit("cdn_test_project");
            reveal_strlit("_");
            assert(l@ =~= f(names@[i as int]@));
        }
        let ghost before = views(lines@);
        lines.push(l);
        assert(views(lines@) =~= before.push(f(views(names@)[i as int])));
        assert(views(names@).map_values(f).take(i + 1) =~= views(names@).map_values(f).take(i as int).push(f(views(names@)[i as int])));
        i = i + 1;
    }
    assert(views(names@).map_values(f).take(i as int) =~= views(names@).map_values(f));
}

/// The outcome of the production check: an error that lists every missing
/// function, dictionary and file, or success when nothing is missing.
pub fn dependency_report(missing_functions: &Vec<String>, missing_dictionaries: &Vec<String>, missing_files: &Vec<String>) -> (r: Result<(), String>)
    ensures
        match r {
            Ok(()) => report_lines(views(missing_functions@), views(missing_dictionaries@), views(missing_files@)).len() == 0,
            Err(e) => e@ == join(report_lines(views(missing_functions@), views(missing_dictionaries@), views(missing_files@)), "\n"@),
        },
{
    let mut lines: Vec<String> = Vec::new();
    push_missing_lines(&mut lines, "\n❌ Missing functions on cluster:", missing_functions);
    push_missing_lines(&mut lines, "\n❌ Missing dictionaries on cluster:", missing_dictionaries);
    if missing_files.len() > 0 {
        let ghost base = views(lines@);
        lines.push("\n⚠️  Missing local definition files:".to_string());
        let ghost f = |x: Seq<char>| "   - "@ + x;
        let mut i: usize = 0;
        while i < missing_files.len()
            invariant
                i <= missing_files@.len(),
                f == (|x: Seq<char>| "   - "@ + x),
                views(lines@) =~= base + seq!["\n⚠️  Missing local definition files:"@] + views(missing_files@).map_values(f).take(i as int),
            decreases missing_files.len() - i,
        {
            let l = concat("   - ", missing_files[i].as_str());
            let ghost before = views(lines@);
            lines.push(l);
            assert(views(lines@) =~= before.push(f(views(missing_files@)[i as int])));
            assert(views(missing_files@).map_values(f).take(i + 1) =~= views(missing_files@).map_values(f).take(i as int).push(f(views(missing_files@)[i as int])));
            i = i + 1;
        }
        assert(views(missing_files@).map_values(f).take(i as int) =~= views(missing_files@).map_values(f));
    }
    let ghost a = views(lines@);
    assert(a =~= missing_lines("\n❌ Missing functions on cluster:"@, views(missing_functions@)) + missing_lines(
        "\n❌ Missing dictionaries on cluster:"@,
        views(missing_dictionaries@),
    ) + if views(missing_files@).len() == 0 {
        Seq::empty()
    } else {
        seq!["\n⚠️  Missing local definition files:"@] + views(missing_files@).map_values(|f: Seq<char>| "   - "@ + f)
    });
    if lines.len() == 0 {
        return Ok(());
    }
    lines.push("\n📋 In production mode:".to_string());
    if missing_functions.len() > 0 || missing_dictionaries.len() > 0 {
        lines.push("   • Resources must exist on cluster before deployment".to_string());
        lines.push("   • Either create them manually or run without --production flag first".to_string());
    }
    if missing_files.len() > 0 {
        lines.push("   • Local files should be included for documentation and validation".to_string());
    }
    assert(views(lines@) =~= report_lines(views(missing_functions@), views(missing_dictionaries@), views(missing_files@)));
    Err(join_strings(&lines, "\n"))
}

} // verus!
