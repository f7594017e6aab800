//! Dashboards must point at their datasource through the `__DATASOURCE__`
//! placeholder, never a hardcoded uid.
use vstd::prelude::*;
use crate::text::{append, str_eq, views};
use super::{regex_group, regex_group_spec};

verus! {

broadcast use vstd::string::group_string_axioms;

/// The pattern of a datasource uid: a `datasource` object's `uid` string.
pub open spec fn uid_pattern() -> Seq<char> {
    "\"datasource\":\\s*\\{[^}]*\"uid\":\\s*\"([^\"]+)\""@
}

/// A uid that a dashboard may hold: the placeholder or one of Grafana's
/// own datasources.
pub open spec fn allowed_uid_spec(uid: Seq<char>) -> bool {
    uid == "__DATASOURCE__"@ || uid == "-- Grafana --"@ || uid == "-- Mixed --"@ || uid == "-- Dashboard --"@
}

/// Whether a datasource uid is the placeholder or a Grafana built-in.
pub fn is_allowed_uid(uid: &str) -> (b: bool)
    ensures
        b == allowed_uid_spec(uid@),
{
    str_eq(uid, "__DATASOURCE__") || str_eq(uid, "-- Grafana --") || str_eq(uid, "-- Mixed --") || str_eq(uid, "-- Dashboard --")
}

/// The datasource uids of a dashboard's text, in order.
pub fn datasource_uids(content: &str) -> (r: Vec<String>)
    ensures
        views(r@) == regex_group_spec(uid_pattern(), content@, 1),
{
    regex_group("\"datasource\":\\s*\\{[^}]*\"uid\":\\s*\"([^\"]+)\"", content, 1)
}

pub open spec fn hardcoded_uid_message(dashboard_name: Seq<char>, uid: Seq<char>) -> Seq<char> {
    "ERROR: Dashboard "@ + dashboard_name + " uses hardcoded datasource UID '"@ + uid
        + "' instead of '__DATASOURCE__' placeholder.\n  This will break deployment flexibility. All datasources should use '__DATASOURCE__' placeholder.\n"@
}

/// The first hardcoded uid of the list, as an error.
pub open spec fn first_hardcoded(uids: Seq<Seq<char>>, dashboard_name: Seq<char>) -> Option<Seq<char>>
    decreases uids.len(),
{
    if uids.len() == 0 {
        None
    } else if !allowed_uid_spec(uids[0]) {
        Some(hardcoded_uid_message(dashboard_name, uids[0]))
    } else {
        first_hardcoded(uids.skip(1), dashboard_name)
    }
}

/// Every uid of the list is looked at: the check passes exactly when each
/// one is the `__DATASOURCE__` placeholder or one of Grafana's own
/// datasources (`-- Grafana --`, `-- Mixed --`, `-- Dashboard --`), and a
/// failure names a uid of the list that is neither.
pub proof fn lemma_every_uid_checked(uids: Seq<Seq<char>>, dashboard_name: Seq<char>)
    ensures
        first_hardcoded(uids, dashboard_name) is None <==> forall|i: int| 0 <= i < uids.len() ==> (#[trigger] uids[i]
            == "__DATASOURCE__"@ || uids[i] == "-- Grafana --"@ || uids[i] == "-- Mixed --"@ || uids[i]
            == "-- Dashboard --"@),
        first_hardcoded(uids, dashboard_name) matches Some(e) ==> exists|i: int| 0 <= i < uids.len() && !(#[trigger] uids[i]
            == "__DATASOURCE__"@ || uids[i] == "-- Grafana --"@ || uids[i] == "-- Mixed --"@ || uids[i]
            == "-- Dashboard --"@) && e == hardcoded_uid_message(dashboard_name, uids[i]),
    decreases uids.len(),
{
    if uids.len() > 0 {
        let rest = uids.skip(1);
        lemma_every_uid_checked(rest, dashboard_name);
        assert forall|i: int| 0 <= i < rest.len() implies #[trigger] rest[i] == uids[i + 1] by {}
        if allowed_uid_spec(uids[0]) {
            if first_hardcoded(rest, dashboard_name) is None {
                assert forall|i: int| 0 <= i < uids.len() implies (#[trigger] uids[i] == "__DATASOURCE__"@ || uids[i]
                    == "-- Grafana --"@ || uids[i] == "-- Mixed --"@ || uids[i] == "-- Dashboard --"@) by {
                    if i > 0 {
                        assert(uids[i] == rest[i - 1]);
                    }
                }
            } else {
                let e = first_hardcoded(rest, dashboard_name)->Some_0;
                let j = choose|j: int| 0 <= j < rest.len() && !(#[trigger] rest[j] == "__DATASOURCE__"@ || rest[j]
                    == "-- Grafana --"@ || rest[j] == "-- Mixed --"@ || rest[j] == "-- Dashboard --"@)
                    && e == hardcoded_uid_message(dashboard_name, rest[j]);
                assert(uids[j + 1] == rest[j]);
            }
        }
    }
}

/// Checks the datasource uids of one dashboard.
pub fn check_dashboard(dashboard_name: &str, content: &str) -> (r: Result<(), String>)
    ensures
        match r {
            Ok(()) => first_hardcoded(regex_group_spec(uid_pattern(), content@, 1), dashboard_name@) is None,
            Err(e) => first_hardcoded(regex_group_spec(uid_pattern(), content@, 1), dashboard_name@) == Some(e@),
        },
        r is Ok <==> forall|i: int| 0 <= i < regex_group_spec(uid_pattern(), content@, 1).len() ==> ({
            let u = #[trigger] regex_group_spec(uid_pattern(), content@, 1)[i];
            u == "__DATASOURCE__"@ || u == "-- Grafana --"@ || u == "-- Mixed --"@ || u == "-- Dashboard --"@
        }),
{
    proof {
        lemma_every_uid_checked(regex_group_spec(uid_pattern(), content@, 1), dashboard_name@);
    }
    let uids = datasource_uids(content);
    let ghost all = views(uids@);
    let mut i: usize = 0;
    assert(all.skip(0) =~= all);
    while i < uids.len()
        invariant
            i <= uids@.len(),
            all == views(uids@),
            all == regex_group_spec(uid_pattern(), content@, 1),
            first_hardcoded(all, dashboard_name@) == first_hardcoded(all.skip(i as int), dashboard_name@),
        decreases uids.len() - i,
    {
        assert(all.skip(i as int)[0] == uids@[i as int]@);
        assert(all.skip(i as int).skip(1) =~= all.skip(i + 1));
        if !is_allowed_uid(uids[i].as_str()) {
            let mut e = "ERROR: Dashboard ".to_string();
            append(&mut e, dashboard_name);
            append(&mut e, " uses hardcoded datasource UID '");
            append(&mut e, uids[i].as_str());
            append(&mut e, "' instead of '__DATASOURCE__' placeholder.\n  This will break deployment flexibility. All datasources should use '__DATASOURCE__' placeholder.\n");
            assert(e@ =~= hardcoded_uid_message(dashboard_name@, uids@[i as int]@));
            return Err(e);
        }
        i = i + 1;
    }
    assert(all.skip(i as int) =~= Seq::<Seq<char>>::empty());
    Ok(())
}

} // verus!
