//! Cleaning a project: which functions, dictionaries, dictionary files and
//! tables a run deletes, read from the cluster's listings.
use vstd::prelude::*;
use crate::json::Json;
use crate::models::bundle::{Bundle, SummaryTable, Table};
use crate::text::{append, concat, list_contains, push_unique, starts_with, str_eq, str_starts_with, views};

verus! {

broadcast use vstd::string::group_string_axioms;

/// What the cleanup command was asked to do.
pub struct CleanupArgs {
    pub delete_functions: bool,
    pub delete_dictionaries: bool,
    pub delete_dictionary_files: bool,
    pub delete_tables: bool,
    pub dry_run: bool,
    /// The first argument after the program name that is not a flag; empty
    /// when there is none.
    pub bundle_name: String,
}

pub open spec fn has_arg(args: Seq<Seq<char>>, a: Seq<char>) -> bool {
    args.contains(a)
}

/// The first argument after the program name that is not a flag.
pub open spec fn first_positional(args: Seq<Seq<char>>, i: int) -> Seq<char>
    decreases args.len() - i,
{
    if i >= args.len() {
        Seq::empty()
    } else if !starts_with(args[i], "--"@) {
        args[i]
    } else {
        first_positional(args, i + 1)
    }
}

/// Reads the cleanup command line (program name first). `--all` selects
/// every kind of resource.
pub fn parse_cleanup_args(args: &Vec<String>) -> (r: CleanupArgs)
    ensures
        r.delete_functions == (has_arg(views(args@), "--functions"@) || has_arg(views(args@), "--all"@)),
        r.delete_dictionaries == (has_arg(views(args@), "--dictionaries"@) || has_arg(views(args@), "--all"@)),
        r.delete_dictionary_files == (has_arg(views(args@), "--dictionary-files"@) || has_arg(views(args@), "--all"@)),
        r.delete_tables == (has_arg(views(args@), "--tables"@) || has_arg(views(args@), "--all"@)),
        r.dry_run == has_arg(views(args@), "--dry-run"@),
        r.bundle_name@ == first_positional(views(args@), 1),
{
    let all = list_contains(args, "--all");
    let delete_functions = list_contains(args, "--functions") || all;
    let delete_dictionaries = list_contains(args, "--dictionaries") || all;
    let delete_dictionary_files = list_contains(args, "--dictionary-files") || all;
    let delete_tables = list_contains(args, "--tables") || all;
    let dry_run = list_contains(args, "--dry-run");
    let mut i: usize = 1;
    let mut bundle_name = String::new();
    let mut found = false;
    while i < args.len() && !found
        invariant
            1 <= i,
            found ==> bundle_name@ == first_positional(views(args@), 1),
            !found ==> bundle_name@ == Seq::<char>::empty() && first_positional(views(args@), 1) == first_positional(views(args@), i as int),
        decreases args.len() - i,
    {
        assert(views(args@)[i as int] == args@[i as int]@);
        if !str_starts_with(args[i].as_str(), "--") {
            bundle_name = args[i].clone();
            found = true;
        }
        i = i + 1;
    }
    CleanupArgs { delete_functions, delete_dictionaries, delete_dictionary_files, delete_tables, dry_run, bundle_name }
}

/// Whether anything was asked for; when not, the command prints its usage.
pub open spec fn anything_requested(a: CleanupArgs) -> bool {
    a.delete_functions || a.delete_dictionaries || a.delete_tables || a.delete_dictionary_files
}

// ---------------------------------------------------------------------------
// Scopes
// ---------------------------------------------------------------------------

/// A set of names given as a list: `x` is in it.
pub open spec fn in_scope(scope: Seq<Seq<char>>, x: Seq<char>) -> bool {
    scope.contains(x)
}

/// The functions that a bundle's cleanup deletes: those it declares and
/// those found in its directory.
pub fn function_scope(declared: &Vec<String>, discovered: &Vec<String>) -> (r: Vec<String>)
    ensures
        views(r@).no_duplicates(),
        forall|x: Seq<char>| #[trigger] views(r@).contains(x) <==> (views(declared@).contains(x) || views(discovered@).contains(x)),
{
    let mut r: Vec<String> = Vec::new();
    assert(views(r@) =~= Seq::<Seq<char>>::empty());
    let mut i: usize = 0;
    while i < declared.len()
        invariant
            i <= declared@.len(),
            views(r@).no_duplicates(),
            forall|x: Seq<char>| #[trigger] views(r@).contains(x) <==> views(declared@).take(i as int).contains(x),
        decreases declared.len() - i,
    {
        proof {
            crate::text::lemma_take_contains(views(declared@), i as int);
        }
        push_unique(&mut r, declared[i].as_str());
        i = i + 1;
    }
    assert(views(declared@).take(i as int) =~= views(declared@));
    let mut k: usize = 0;
    while k < discovered.len()
        invariant
            k <= discovered@.len(),
            views(r@).no_duplicates(),
            forall|x: Seq<char>| #[trigger] views(r@).contains(x) <==> (views(declared@).contains(x) || views(discovered@).take(k as int).contains(x)),
        decreases discovered.len() - k,
    {
        proof {
            crate::text::lemma_take_contains(views(discovered@), k as int);
        }
        push_unique(&mut r, discovered[k].as_str());
        k = k + 1;
    }
    assert(views(discovered@).take(k as int) =~= views(discovered@));
    r
}

/// The file names that a dictionary may have been uploaded under: its name
/// alone and with each data extension.
pub open spec fn dictionary_file_names(name: Seq<char>) -> Seq<Seq<char>> {
    seq![name, name + ".csv"@, name + ".yaml"@, name + ".yml"@, name + ".tsv"@]
}

/// The dictionary files that a bundle's cleanup deletes.
pub fn dictionary_file_scope(dictionaries: &Vec<String>) -> (r: Vec<String>)
    ensures
        views(r@).no_duplicates(),
        forall|x: Seq<char>| #[trigger] views(r@).contains(x) <==> exists|i: int| 0 <= i < dictionaries@.len()
            && dictionary_file_names(dictionaries@[i]@).contains(x),
{
    let mut r: Vec<String> = Vec::new();
    assert(views(r@) =~= Seq::<Seq<char>>::empty());
    let mut i: usize = 0;
    while i < dictionaries.len()
        invariant
            i <= dictionaries@.len(),
            views(r@).no_duplicates(),
            forall|x: Seq<char>| #[trigger] views(r@).contains(x) <==> exists|k: int| 0 <= k < i
                && dictionary_file_names(dictionaries@[k]@).contains(x),
        decreases dictionaries.len() - i,
    {
        let d = dictionaries[i].as_str();
        let ghost before = views(r@);
        push_unique(&mut r, d);
        let a = concat(d, ".csv");
        push_unique(&mut r, a.as_str());
        let b = concat(d, ".yaml");
        push_unique(&mut r, b.as_str());
        let c = concat(d, ".yml");
        push_unique(&mut r, c.as_str());
        let e = concat(d, ".tsv");
        push_unique(&mut r, e.as_str());
        assert forall|x: Seq<char>| #[trigger] views(r@).contains(x) <==> exists|k: int| 0 <= k < i + 1
            && dictionary_file_names(dictionaries@[k]@).contains(x) by {
            let names = dictionary_file_names(d@);
            assert(names[0] == d@ && names[1] == a@ && names[2] == b@ && names[3] == c@ && names[4] == e@);
            if names.contains(x) {
                let w = choose|w: int| 0 <= w < names.len() && names[w] == x;
                assert(w == 0 || w == 1 || w == 2 || w == 3 || w == 4);
            }
            if x == d@ || x == a@ || x == b@ || x == c@ || x == e@ {
                assert(names.contains(x)) by {
                    if x == d@ { assert(names[0] == x); }
                    else if x == a@ { assert(names[1] == x); }
                    else if x == b@ { assert(names[2] == x); }
                    else if x == c@ { assert(names[3] == x); }
                    else { assert(names[4] == x); }
                }
            }
        }
        i = i + 1;
    }
    r
}

/// The tables that a bundle's cleanup deletes: its tables and summary
/// tables.
pub fn table_scope(b: &Bundle) -> (r: Vec<String>)
    ensures
        views(r@).no_duplicates(),
        forall|x: Seq<char>| #[trigger] views(r@).contains(x) <==> ((exists|i: int| 0 <= i < b.tables@.len() && b.tables@[i].name@ == x)
            || (b.summary_tables is Some && exists|i: int| 0 <= i < b.summary_tables->Some_0@.len() && b.summary_tables->Some_0@[i].name@ == x)),
{
    let mut r: Vec<String> = Vec::new();
    assert(views(r@) =~= Seq::<Seq<char>>::empty());
    let mut i: usize = 0;
    while i < b.tables.len()
        invariant
            i <= b.tables@.len(),
            views(r@).no_duplicates(),
            forall|x: Seq<char>| #[trigger] views(r@).contains(x) <==> exists|k: int| 0 <= k < i && b.tables@[k].name@ == x,
        decreases b.tables.len() - i,
    {
        push_unique(&mut r, b.tables[i].name.as_str());
        i = i + 1;
    }
    let ghost after_tables = views(r@);
    match &b.summary_tables {
        Some(st) => {
            let mut k: usize = 0;
            while k < st.len()
                invariant
                    k <= st@.len(),
                    views(r@).no_duplicates(),
                    forall|x: Seq<char>| #[trigger] views(r@).contains(x) <==> (after_tables.contains(x) || exists|j: int| 0 <= j < k && st@[j].name@ == x),
                decreases st.len() - k,
            {
                push_unique(&mut r, st[k].name.as_str());
                k = k + 1;
            }
        },
        None => {},
    }
    r
}

// ---------------------------------------------------------------------------
// Listings
// ---------------------------------------------------------------------------

/// The entries of a cleanup listing: the array under `results`, else the
/// response itself when it is an array, else nothing.
pub open spec fn cleanup_entries(response: Json) -> Seq<Json> {
    match response.get_spec("results"@) {
        Some(r) if r.array_spec() is Some => r.array_spec()->Some_0,
        _ => match response.array_spec() {
            Some(a) => a,
            None => Seq::empty(),
        },
    }
}

/// The entries of a cleanup listing (`None` when there are none).
pub fn cleanup_entries_exec(response: &Json) -> (r: Option<&Vec<Json>>)
    ensures
        match r {
            Some(v) => v@ == cleanup_entries(*response),
            None => cleanup_entries(*response) == Seq::<Json>::empty(),
        },
{
    match response.get("results") {
        Some(r) => match r.as_array() {
            Some(a) => {
                return Some(a);
            },
            None => {},
        },
        None => {},
    }
    response.as_array()
}

/// The string that the first present member among `keys` holds (a present
/// member that is no string gives the default).
pub open spec fn first_member_str(v: Json, keys: Seq<Seq<char>>, default: Seq<char>) -> Seq<char>
    decreases keys.len(),
{
    if keys.len() == 0 {
        default
    } else {
        match v.get_spec(keys[0]) {
            Some(m) => match m.str_spec() {
                Some(s) => s,
                None => default,
            },
            None => first_member_str(v, keys.skip(1), default),
        }
    }
}

fn first_member_str_exec(v: &Json, keys: &[&str], default: &str) -> (r: String)
    ensures
        r@ == first_member_str(*v, crate::text::str_views(keys@), default@),
{
    let ghost ks = crate::text::str_views(keys@);
    let mut i: usize = 0;
    assert(ks.skip(0) =~= ks);
    while i < keys.len()
        invariant
            i <= keys@.len(),
            ks == crate::text::str_views(keys@),
            first_member_str(*v, ks, default@) == first_member_str(*v, ks.skip(i as int), default@),
        decreases keys.len() - i,
    {
        assert(ks.skip(i as int)[0] == keys@[i as int]@);
        assert(ks.skip(i as int).skip(1) =~= ks.skip(i + 1));
        match v.get(keys[i]) {
            Some(m) => {
                return match m.as_str() {
                    Some(s) => s.clone(),
                    None => default.to_string(),
                };
            },
            None => {},
        }
        i = i + 1;
    }
    assert(ks.skip(i as int) =~= Seq::<Seq<char>>::empty());
    default.to_string()
}

/// A function or dictionary on the cluster: its name and uuid.
pub struct ListedResource {
    pub name: String,
    pub uuid: String,
}

/// The keys under which a function listing entry's name is found.
pub open spec fn function_name_keys() -> Seq<Seq<char>> {
    seq!["name"@, "function_name"@, "id"@]
}

/// The keys under which a function listing entry's uuid is found.
pub open spec fn function_uuid_keys() -> Seq<Seq<char>> {
    seq!["uuid"@, "id"@, "uid"@, "function_id"@]
}

/// The keys under which a dictionary listing entry's name is found.
pub open spec fn dictionary_name_keys() -> Seq<Seq<char>> {
    seq!["name"@, "dictionary_name"@, "id"@]
}

/// The keys under which a dictionary listing entry's uuid is found.
pub open spec fn dictionary_uuid_keys() -> Seq<Seq<char>> {
    seq!["uuid"@, "id"@, "uid"@, "dictionary_id"@]
}

/// Reads a function entry of a listing: its name (`name`, `function_name`
/// or `id`; "unknown" when none) and uuid (`uuid`, `id`, `uid` or
/// `function_id`; empty when none).
pub fn function_entry(entry: &Json) -> (r: ListedResource)
    ensures
        r.name@ == first_member_str(*entry, function_name_keys(), "unknown"@),
        r.uuid@ == first_member_str(*entry, function_uuid_keys(), ""@),
{
    let nk = ["name", "function_name", "id"];
    let uk = ["uuid", "id", "uid", "function_id"];
    assert(crate::text::str_views(nk@) =~= function_name_keys());
    assert(crate::text::str_views(uk@) =~= function_uuid_keys());
    let name = first_member_str_exec(entry, &nk, "unknown");
    let uuid = first_member_str_exec(entry, &uk, "");
    ListedResource { name, uuid }
}

/// Reads a dictionary entry of a listing.
pub fn dictionary_entry(entry: &Json) -> (r: ListedResource)
    ensures
        r.name@ == first_member_str(*entry, dictionary_name_keys(), "unknown"@),
        r.uuid@ == first_member_str(*entry, dictionary_uuid_keys(), ""@),
{
    let nk = ["name", "dictionary_name", "id"];
    let uk = ["uuid", "id", "uid", "dictionary_id"];
    assert(crate::text::str_views(nk@) =~= dictionary_name_keys());
    assert(crate::text::str_views(uk@) =~= dictionary_uuid_keys());
    let name = first_member_str_exec(entry, &nk, "unknown");
    let uuid = first_member_str_exec(entry, &uk, "");
    ListedResource { name, uuid }
}

// ---------------------------------------------------------------------------
// What to do with each listed resource
// ---------------------------------------------------------------------------

/// The step for one listed resource.
pub enum CleanupStep {
    /// Not the bundle's: left alone.
    OutOfScope,
    /// A dry run reports it and deletes nothing.
    WouldDelete,
    /// It has no uuid to delete it by.
    NoUuid,
    /// Delete it at this url.
    Delete(String),
}

/// Decides what to do with one listed resource.
pub fn step_for(name: &str, uuid: &str, scope: &Option<Vec<String>>, dry_run: bool, list_url: &str) -> (r: CleanupStep)
    ensures
        match r {
            CleanupStep::OutOfScope => scope is Some && !views(scope->Some_0@).contains(name@),
            CleanupStep::WouldDelete => (scope is None || views(scope->Some_0@).contains(name@)) && dry_run,
            CleanupStep::NoUuid => (scope is None || views(scope->Some_0@).contains(name@)) && !dry_run && uuid@.len() == 0,
            CleanupStep::Delete(url) => (scope is None || views(scope->Some_0@).contains(name@)) && !dry_run && uuid@.len() > 0
                && url@ == list_url@ + uuid@,
        },
{
    match scope {
        Some(s) => {
            if !list_contains(s, name) {
                return CleanupStep::OutOfScope;
            }
        },
        None => {},
    }
    if dry_run {
        return CleanupStep::WouldDelete;
    }
    if uuid.is_empty() {
        return CleanupStep::NoUuid;
    }
    CleanupStep::Delete(concat(list_url, uuid))
}

/// The name of a dictionary file entry: the entry itself when it is a
/// string, else its `name` or `id` (empty when none).
pub open spec fn file_entry_name(entry: Json) -> Seq<char> {
    match entry.str_spec() {
        Some(s) => s,
        None => first_member_str(entry, seq!["name"@, "id"@], ""@),
    }
}

/// The entries of a dictionary file listing: the response when it is an
/// array, else the array under `files`, else the array under `results`.
pub open spec fn file_entries(response: Json) -> Seq<Json> {
    match response.array_spec() {
        Some(a) => a,
        None => match response.get_spec("files"@) {
            Some(f) if f.array_spec() is Some => f.array_spec()->Some_0,
            _ => match response.get_spec("results"@) {
                Some(r) if r.array_spec() is Some => r.array_spec()->Some_0,
                _ => Seq::empty(),
            },
        },
    }
}

/// The names of the uploaded dictionary files that a listing reports.
pub fn dictionary_file_names_listed(response: &Json) -> (r: Vec<String>)
    ensures
        r@.len() == file_entries(*response).len(),
        forall|i: int| 0 <= i < r@.len() ==> #[trigger] r@[i]@ == file_entry_name(file_entries(*response)[i]),
{
    let found: Option<&Vec<Json>> = match response.as_array() {
        Some(a) => Some(a),
        None => {
            let mut found: Option<&Vec<Json>> = None;
            match response.get("files") {
                Some(f) => match f.as_array() {
                    Some(a) => {
                        found = Some(a);
                    },
                    None => {},
                },
                None => {},
            }
            match found {
                Some(a) => Some(a),
                None => match response.get("results") {
                    Some(rr) => rr.as_array(),
                    None => None,
                },
            }
        },
    };
    let mut r: Vec<String> = Vec::new();
    let entries = match found {
        Some(e) => e,
        None => {
            assert(file_entries(*response) =~= Seq::<Json>::empty());
            return r;
        },
    };
    assert(entries@ == file_entries(*response));
    let keys = ["name", "id"];
    assert(crate::text::str_views(keys@) =~= seq!["name"@, "id"@]);
    let mut i: usize = 0;
    while i < entries.len()
        invariant
            i <= entries@.len(),
            r@.len() == i,
            crate::text::str_views(keys@) == seq!["name"@, "id"@],
            forall|k: int| 0 <= k < i ==> #[trigger] r@[k]@ == file_entry_name(entries@[k]),
        decreases entries.len() - i,
    {
        let e = &entries[i];
        let name = match e.as_str() {
            Some(s) => s.clone(),
            None => first_member_str_exec(e, &keys, ""),
        };
        r.push(name);
        i = i + 1;
    }
    r
}

/// A table on the cluster with both a string name and a string uuid.
pub open spec fn table_entry(entry: Json) -> Option<(Seq<char>, Seq<char>)> {
    match entry.get_spec("name"@) {
        Some(n) if n.str_spec() is Some => match entry.get_spec("uuid"@) {
            Some(u) if u.str_spec() is Some => Some((n.str_spec()->Some_0, u.str_spec()->Some_0)),
            _ => None,
        },
        _ => None,
    }
}

/// The tables of a listing that have a name and a uuid, in order.
pub open spec fn listed_tables(entries: Seq<Json>) -> Seq<(Seq<char>, Seq<char>)>
    decreases entries.len(),
{
    if entries.len() == 0 {
        Seq::empty()
    } else {
        let rest = listed_tables(entries.drop_last());
        match table_entry(entries.last()) {
            Some(t) => rest.push(t),
            None => rest,
        }
    }
}

/// The (name, uuid) of each table of a listing that has both.
pub fn tables_listed(response: &Json) -> (r: Vec<(String, String)>)
    ensures
        r@.map_values(|p: (String, String)| (p.0@, p.1@)) == listed_tables(cleanup_entries(*response)),
{
    let mut r: Vec<(String, String)> = Vec::new();
    let entries = match cleanup_entries_exec(response) {
        Some(e) => e,
        None => {
            assert(r@.map_values(|p: (String, String)| (p.0@, p.1@)) =~= Seq::<(Seq<char>, Seq<char>)>::empty());
            assert(listed_tables(Seq::<Json>::empty()) =~= Seq::<(Seq<char>, Seq<char>)>::empty());
            return r;
        },
    };
    let mut i: usize = 0;
    assert(entries@.take(0) =~= Seq::<Json>::empty());
    assert(r@.map_values(|p: (String, String)| (p.0@, p.1@)) =~= Seq::<(Seq<char>, Seq<char>)>::empty());
    while i < entries.len()
        invariant
            i <= entries@.len(),
            r@.map_values(|p: (String, String)| (p.0@, p.1@)) == listed_tables(entries@.take(i as int)),
        decreases entries.len() - i,
    {
        assert(entries@.take(i + 1).drop_last() =~= entries@.take(i as int));
        assert(entries@.take(i + 1).last() == entries@[i as int]);
        let e = &entries[i];
        match e.get("name") {
            Some(n) => match n.as_str() {
                Some(name) => match e.get("uuid") {
                    Some(u) => match u.as_str() {
                        Some(uuid) => {
                            let ghost before = r@.map_values(|p: (String, String)| (p.0@, p.1@));
                            r.push((name.clone(), uuid.clone()));
                            assert(r@.map_values(|p: (String, String)| (p.0@, p.1@)) =~= before.push((name@, uuid@)));
                        },
                        None => {},
                    },
                    None => {},
                },
                None => {},
            },
            None => {},
        }
        i = i + 1;
    }
    assert(entries@.take(i as int) =~= entries@);
    r
}

} // verus!
