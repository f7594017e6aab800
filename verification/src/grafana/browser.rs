//! What the headless browser check reads: the Grafana session cookie, and
//! which browser events show a missing datasource or a failed query. The
//! browser itself is the caller's.
use vstd::prelude::*;
use crate::ext::{regex_captures, regex_captures_spec};
use crate::text::{chars_of, concat, append, owned, split_char, split_chars, string_of};
use crate::validate::check_dependencies::regex_matches;

verus! {

broadcast use vstd::string::group_string_axioms;

/// The name and value of a `Set-Cookie` header: its part before the first
/// `;`, which must be exactly one `name=value` pair.
pub open spec fn session_cookie_spec(header: Seq<char>) -> Option<(Seq<char>, Seq<char>)> {
    let parts = split_char(split_char(header, ';')[0], '=');
    if parts.len() == 2 {
        Some((parts[0], parts[1]))
    } else {
        None
    }
}

/// Reads the session cookie out of a `Set-Cookie` header.
pub fn parse_session_cookie(header: &str) -> (r: Result<(String, String), String>)
    ensures
        match session_cookie_spec(header@) {
            Some((n, v)) => r matches Ok(p) && p.0@ == n && p.1@ == v,
            None => r matches Err(e) && e@ == "Invalid cookie format"@,
        },
{
    let cs = chars_of(header);
    let pieces = split_chars(cs.as_slice(), ';');
    proof {
        crate::text::lemma_split_char_nonempty(header@, ';');
    }
    let parts = split_chars(pieces[0].as_slice(), '=');
    if parts.len() != 2 {
        return Err(owned("Invalid cookie format"));
    }
    Ok((string_of(parts[0].as_slice()), string_of(parts[1].as_slice())))
}

/// The pattern of an event that reports a missing datasource.
pub open spec fn missing_datasource_pattern() -> Seq<char> {
    "Datasource \\w+ was not found"@
}

/// The pattern of an event that shows a query to the ClickHouse datasource.
pub open spec fn datasource_query_pattern() -> Seq<char> {
    "api/ds/query\\?ds_type=[^&]+-clickhouse-datasource"@
}

/// Which counts a browser event (its debug text) adds to: missing
/// datasources, and datasource queries.
pub fn event_findings(raw_event: &str) -> (r: (bool, bool))
    ensures
        r.0 == regex_matches(missing_datasource_pattern(), raw_event@),
        r.1 == regex_matches(datasource_query_pattern(), raw_event@),
{
    let a = match regex_captures("Datasource \\w+ was not found", raw_event) {
        Some(c) => c.len() > 0,
        None => false,
    };
    let b = match regex_captures("api/ds/query\\?ds_type=[^&]+-clickhouse-datasource", raw_event) {
        Some(c) => c.len() > 0,
        None => false,
    };
    (a, b)
}

/// The page of a dashboard in the local Grafana over the last two weeks.
pub fn dashboard_page_url(grafana_location: &str, dashboard_id: &str) -> (r: String)
    ensures
        r@ == "http://"@ + grafana_location@ + "/d/"@ + dashboard_id@ + "?from=now-14d&to=now"@,
{
    let mut r = concat("http://", grafana_location);
    append(&mut r, "/d/");
    append(&mut r, dashboard_id);
    append(&mut r, "?from=now-14d&to=now");
    r
}

} // verus!
