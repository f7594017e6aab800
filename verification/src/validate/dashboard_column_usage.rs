//! The columns that dashboard queries use must exist in the tables they
//! query.
use vstd::prelude::*;
use crate::ext::{
    all_captures_view, captures_view, debug_strings, debug_strings_spec, lowercase, lowercase_spec, regex_captures, regex_captures_spec,
    uppercase, uppercase_spec,
};
use crate::text::{
    chars_of, has_char, has_char_exec, is_one_of, starts_with, str_starts_with, str_views,
    string_of, trim, trim_chars, views, ends_with, ends_with_exec, str_eq, byte_len_prefix,
    char_index_at_byte, char_index_of_byte, contains, find, list_contains, occurs_at, owned,
    push_unique, replace, str_contains, str_replace, utf8_len, concat, append,
};
use crate::json::Json;
use crate::models::bundle::Bundle;
use super::raw_logs_timestamp::at;
use super::summary_column_schema::{last_token, last_token_exec};
use super::{first_match_spec, group_text, regex_first, regex_group, regex_group_spec};

verus! {

broadcast use vstd::string::group_string_axioms;

/// The state of splitting at top-level commas after reading `s`: the parts
/// finished so far (trimmed), the part being read, and the parenthesis depth.
pub open spec fn split_state(s: Seq<char>) -> (Seq<Seq<char>>, Seq<char>, int)
    decreases s.len(),
{
    if s.len() == 0 {
        (Seq::empty(), Seq::empty(), 0)
    } else {
        let (ps, cur, d) = split_state(s.drop_last());
        let c = s.last();
        if c == '(' {
            (ps, cur.push(c), d + 1)
        } else if c == ')' {
            (ps, cur.push(c), d - 1)
        } else if c == ',' && d == 0 {
            (ps.push(trim(cur)), Seq::empty(), d)
        } else {
            (ps, cur.push(c), d)
        }
    }
}

/// `text` split at the commas outside parentheses, each part trimmed; a
/// blank last part is left out.
pub open spec fn split_by_comma_spec(text: Seq<char>) -> Seq<Seq<char>> {
    let (ps, cur, _) = split_state(text);
    if trim(cur).len() > 0 {
        ps.push(trim(cur))
    } else {
        ps
    }
}

proof fn lemma_depth_bound(s: Seq<char>)
    ensures
        -(s.len() as int) <= split_state(s).2 <= s.len(),
    decreases s.len(),
{
    if s.len() > 0 {
        lemma_depth_bound(s.drop_last());
    }
}

/// Splits a select list at the commas that are not inside parentheses.
pub fn split_by_comma(text: &str) -> (r: Vec<String>)
    ensures
        views(r@) == split_by_comma_spec(text@),
{
    let cs = chars_of(text);
    let mut parts: Vec<String> = Vec::new();
    let mut current: Vec<char> = Vec::new();
    let mut opened: usize = 0;
    let mut closed: usize = 0;
    let mut i: usize = 0;
    assert(cs@.take(0) =~= Seq::<char>::empty());
    assert(views(parts@) =~= Seq::<Seq<char>>::empty());
    while i < cs.len()
        invariant
            i <= cs@.len(),
            opened + closed <= i,
            cs@ == text@,
            split_state(cs@.take(i as int)) == (views(parts@), current@, opened - closed),
        decreases cs.len() - i,
    {
        let ghost pre = cs@.take(i as int);
        assert(cs@.take(i + 1).drop_last() =~= pre);
        assert(cs@.take(i + 1).last() == cs@[i as int]);
        proof {
            lemma_depth_bound(pre);
        }
        let c = cs[i];
        if c == '(' {
            opened = opened + 1;
            current.push(c);
        } else if c == ')' {
            closed = closed + 1;
            current.push(c);
        } else if c == ',' && opened == closed {
            let t = trim_chars(current.as_slice());
            let ghost before = views(parts@);
            parts.push(string_of(t.as_slice()));
            assert(views(parts@) =~= before.push(trim(current@)));
            current = Vec::new();
        } else {
            current.push(c);
        }
        i = i + 1;
    }
    assert(cs@.take(i as int) =~= cs@);
    let t = trim_chars(current.as_slice());
    if t.len() > 0 {
        let ghost before = views(parts@);
        parts.push(string_of(t.as_slice()));
        assert(views(parts@) =~= before.push(trim(current@)));
    }
    parts
}

/// The SQL keywords that are no column names.
pub open spec fn sql_keywords() -> Seq<Seq<char>> {
    seq![
        "SELECT"@, "FROM"@, "WHERE"@, "AND"@, "OR"@, "NOT"@, "NULL"@, "AS"@, "ON"@, "JOIN"@,
        "LEFT"@, "RIGHT"@, "INNER"@, "OUTER"@, "GROUP"@, "BY"@, "ORDER"@, "HAVING"@, "LIMIT"@,
        "OFFSET"@, "UNION"@, "CASE"@, "WHEN"@, "THEN"@, "ELSE"@, "END"@, "IF"@, "IN"@, "EXISTS"@,
        "BETWEEN"@, "LIKE"@, "IS"@, "ASC"@, "DESC"@, "DISTINCT"@, "ALL"@, "ANY"@, "SOME"@,
        "SETTINGS"@, "INTERVAL"@, "MINUTE"@, "HOUR"@, "DAY"@, "WEEK"@, "MONTH"@, "YEAR"@, "OVER"@,
        "PARTITION"@, "ROW"@, "ROWS"@, "RANGE"@, "UNBOUNDED"@, "PRECEDING"@, "FOLLOWING"@,
        "CURRENT"@,
    ]
}

/// Whether a word, upper-cased, is an SQL keyword.
pub fn is_sql_keyword(word: &str) -> (b: bool)
    ensures
        b == sql_keywords().contains(uppercase_spec(word@)),
{
    let keywords = vec![
        "SELECT", "FROM", "WHERE", "AND", "OR", "NOT", "NULL", "AS", "ON", "JOIN", "LEFT",
        "RIGHT", "INNER", "OUTER", "GROUP", "BY", "ORDER", "HAVING", "LIMIT", "OFFSET", "UNION",
        "CASE", "WHEN", "THEN", "ELSE", "END", "IF", "IN", "EXISTS", "BETWEEN", "LIKE", "IS",
        "ASC", "DESC", "DISTINCT", "ALL", "ANY", "SOME", "SETTINGS", "INTERVAL", "MINUTE", "HOUR",
        "DAY", "WEEK", "MONTH", "YEAR", "OVER", "PARTITION", "ROW", "ROWS", "RANGE", "UNBOUNDED",
        "PRECEDING", "FOLLOWING", "CURRENT",
    ];
    assert(str_views(keywords@) =~= sql_keywords());
    let up = uppercase(word);
    is_one_of(up.as_str(), keywords.as_slice())
}

/// A Grafana macro or variable: it starts with `__` or `$`.
pub open spec fn grafana_macro_spec(word: Seq<char>) -> bool {
    starts_with(word, "__"@) || starts_with(word, "$"@)
}

/// Whether a word is a Grafana macro or variable.
pub fn is_grafana_macro(word: &str) -> (b: bool)
    ensures
        b == grafana_macro_spec(word@),
{
    str_starts_with(word, "__") || str_starts_with(word, "$")
}

/// ClickHouse functions and Grafana format modifiers that are no column
/// names (in lower case).
pub open spec fn special_identifiers() -> Seq<Seq<char>> {
    seq![
        "now"@, "count"@, "sum"@, "avg"@, "min"@, "max"@, "todatetime"@, "concat"@, "if"@,
        "arraymap"@, "arrayfilter"@, "position"@, "length"@, "trim"@, "replace"@, "substring"@,
        "tostring"@, "toint"@, "tofloat"@, "datediff"@, "formatdatetime"@, "empty"@, "notempty"@,
        "quantile"@, "quantiles"@, "round"@, "floor"@, "ceil"@, "abs"@, "log"@, "exp"@,
        "tostartofminute"@, "tostartofhour"@, "tostartofday"@, "tostartofweek"@,
        "tostartofmonth"@, "tostartofinterval"@, "arrayjoin"@, "arrayconcat"@, "arrayelement"@,
        "grouparray"@, "uniq"@, "uniqexact"@, "topk"@, "median"@, "countmerge"@,
        "countmergeif"@, "summerge"@, "avgmerge"@, "minmerge"@, "maxmerge"@, "uniqmerge"@,
        "quantilemerge"@, "quantilesmerge"@, "raw"@, "csv"@, "json"@, "sqlstring"@, "regex"@,
        "pipe"@, "distributed"@,
    ]
}

/// Whether a word, lower-cased, is a function or format name rather than a
/// column.
pub fn is_special_identifier(word: &str) -> (b: bool)
    ensures
        b == special_identifiers().contains(lowercase_spec(word@)),
{
    let special = vec![
        "now", "count", "sum", "avg", "min", "max", "todatetime", "concat", "if", "arraymap",
        "arrayfilter", "position", "length", "trim", "replace", "substring", "tostring", "toint",
        "tofloat", "datediff", "formatdatetime", "empty", "notempty", "quantile", "quantiles",
        "round", "floor", "ceil", "abs", "log", "exp", "tostartofminute", "tostartofhour",
        "tostartofday", "tostartofweek", "tostartofmonth", "tostartofinterval", "arrayjoin",
        "arrayconcat", "arrayelement", "grouparray", "uniq", "uniqexact", "topk", "median",
        "countmerge", "countmergeif", "summerge", "avgmerge", "minmerge", "maxmerge", "uniqmerge",
        "quantilemerge", "quantilesmerge", "raw", "csv", "json", "sqlstring", "regex", "pipe",
        "distributed",
    ];
    assert(str_views(special@) =~= special_identifiers());
    let low = lowercase(word);
    is_one_of(low.as_str(), special.as_slice())
}

/// The pattern of an identifier.
pub open spec fn identifier_pattern() -> Seq<char> {
    "\\b([a-zA-Z_][a-zA-Z0-9_]*)\\b"@
}

/// An identifier that can name a column: no keyword, macro or function.
pub open spec fn column_like(w: Seq<char>) -> bool {
    !sql_keywords().contains(uppercase_spec(w)) && !grafana_macro_spec(w) && !special_identifiers().contains(lowercase_spec(w))
}

/// The column names that a template variable's query uses, in order.
pub open spec fn query_columns_spec(query: Seq<char>) -> Seq<Seq<char>> {
    regex_group_spec(identifier_pattern(), query, 1).filter(|w: Seq<char>| column_like(w))
}

/// The column names that a template variable's query uses.
pub fn extract_columns_from_query(query: &str) -> (r: Vec<String>)
    ensures
        views(r@) == query_columns_spec(query@),
{
    let words = regex_group("\\b([a-zA-Z_][a-zA-Z0-9_]*)\\b", query, 1);
    let ghost ws = views(words@);
    let ghost pred = |w: Seq<char>| column_like(w);
    let mut r: Vec<String> = Vec::new();
    let mut i: usize = 0;
    assert(ws.take(0).filter(pred) =~= Seq::<Seq<char>>::empty()) by {
        reveal(Seq::filter);
    }
    assert(views(r@) =~= ws.take(0).filter(pred));
    while i < words.len()
        invariant
            i <= words@.len(),
            ws == views(words@),
            pred == (|w: Seq<char>| column_like(w)),
            views(r@) == ws.take(i as int).filter(pred),
        decreases words.len() - i,
    {
        let w = words[i].as_str();
        let ghost pre = ws.take(i as int);
        assert(ws.take(i + 1) =~= pre.push(ws[i as int]));
        proof {
            pre.lemma_filter_push(ws[i as int], pred);
        }
        if !is_sql_keyword(w) && !is_grafana_macro(w) && !is_special_identifier(w) {
            let ghost before = views(r@);
            r.push(words[i].clone());
            assert(views(r@) =~= before.push(w@));
        }
        i = i + 1;
    }
    assert(ws.take(i as int) =~= ws);
    r
}

/// The pattern of an explicit alias: ` as name`.
pub open spec fn alias_pattern() -> Seq<char> {
    "(?i)\\s+as\\s+([a-zA-Z_][a-zA-Z0-9_]*)"@
}

/// The output column of one select item: its alias, or else its last token
/// when that is no function call.
pub open spec fn summary_item_column(part: Seq<char>) -> Option<Seq<char>> {
    match first_match_spec(alias_pattern(), part) {
        Some(m) => group_text(m, 1),
        None => {
            let tok = last_token(part);
            if tok.len() > 0 && !ends_with(tok, ")"@) && !has_char(tok, '(') {
                Some(tok)
            } else {
                None
            }
        },
    }
}

/// The output columns of the select items, in order.
pub open spec fn summary_columns_of(parts: Seq<Seq<char>>) -> Seq<Seq<char>>
    decreases parts.len(),
{
    if parts.len() == 0 {
        Seq::empty()
    } else {
        let rest = summary_columns_of(parts.drop_last());
        let p = trim(parts.last());
        if p.len() > 0 && summary_item_column(p) is Some {
            rest.push(summary_item_column(p)->Some_0)
        } else {
            rest
        }
    }
}

/// The output columns of a summary SQL, or why the select list cannot be
/// found.
pub open spec fn summary_columns_spec(sql: Seq<char>) -> Result<Seq<Seq<char>>, Seq<char>> {
    match first_match_spec("(?is)SELECT\\s+(.*?)\\s+FROM"@, sql) {
        None => Err("Could not find SELECT clause"@),
        Some(m) => match group_text(m, 1) {
            None => Err("Could not extract SELECT clause"@),
            Some(l) => Ok(summary_columns_of(split_by_comma_spec(l))),
        },
    }
}

fn summary_item_column_exec(part: &str) -> (r: Option<String>)
    ensures
        match r {
            Some(c) => summary_item_column(part@) == Some(c@),
            None => summary_item_column(part@) is None,
        },
{
    match regex_first("(?i)\\s+as\\s+([a-zA-Z_][a-zA-Z0-9_]*)", part) {
        Some(m) => {
            if m.len() > 1 {
                match &m[1] {
                    Some(t) => Some(t.clone()),
                    None => None,
                }
            } else {
                None
            }
        },
        None => {
            let pc = chars_of(part);
            let tok = last_token_exec(pc.as_slice());
            if tok.len() > 0 && !ends_with_exec(tok.as_slice(), chars_of(")").as_slice()) && !has_char_exec(tok.as_slice(), '(') {
                Some(string_of(tok.as_slice()))
            } else {
                None
            }
        },
    }
}

/// Reads the output columns of a summary SQL: for each top-level item of
/// the select list its alias, or else its last token.
pub fn parse_summary_columns(sql: &str) -> (r: Result<Vec<String>, String>)
    ensures
        match r {
            Ok(cols) => summary_columns_spec(sql@) == Ok::<Seq<Seq<char>>, Seq<char>>(views(cols@)),
            Err(e) => summary_columns_spec(sql@) == Err::<Seq<Seq<char>>, Seq<char>>(e@),
        },
{
    let m = match regex_first("(?is)SELECT\\s+(.*?)\\s+FROM", sql) {
        Some(m) => m,
        None => return Err("Could not find SELECT clause".to_string()),
    };
    let list = if m.len() > 1 {
        match &m[1] {
            Some(l) => l,
            None => return Err("Could not extract SELECT clause".to_string()),
        }
    } else {
        return Err("Could not extract SELECT clause".to_string());
    };
    let parts = split_by_comma(list.as_str());
    let ghost ps = views(parts@);
    let mut cols: Vec<String> = Vec::new();
    let mut i: usize = 0;
    assert(ps.take(0) =~= Seq::<Seq<char>>::empty());
    assert(views(cols@) =~= Seq::<Seq<char>>::empty());
    while i < parts.len()
        invariant
            i <= parts@.len(),
            ps == views(parts@),
            views(cols@) == summary_columns_of(ps.take(i as int)),
        decreases parts.len() - i,
    {
        assert(ps.take(i + 1).drop_last() =~= ps.take(i as int));
        assert(ps.take(i + 1).last() == parts@[i as int]@);
        let t = trim_chars(chars_of(parts[i].as_str()).as_slice());
        if t.len() > 0 {
            let ts = string_of(t.as_slice());
            match summary_item_column_exec(ts.as_str()) {
                Some(c) => {
                    let ghost before = views(cols@);
                    cols.push(c);
                    assert(views(cols@) =~= before.push(summary_item_column(trim(parts@[i as int]@))->Some_0));
                },
                None => {},
            }
        }
        i = i + 1;
    }
    assert(ps.take(i as int) =~= ps);
    Ok(cols)
}


// ---------------------------------------------------------------------------
// Template variables of a dashboard
// ---------------------------------------------------------------------------

/// The pattern of a `name` member whose value is an identifier.
pub open spec fn var_name_pattern() -> Seq<char> {
    "\"name\":\\s*\"([a-zA-Z_][a-zA-Z0-9_]*)\""@
}

/// The pattern of a `query` member with a string value.
pub open spec fn var_query_pattern() -> Seq<char> {
    "\"query\":\\s*\"([^\"]*(?:\\\\.[^\"]*)*)\""@
}

/// Group 1 of each match, with the byte offset where it starts; matches
/// where the group took no part are skipped.
pub open spec fn group_one_hits(caps: Seq<Seq<Option<(Seq<char>, usize)>>>) -> Seq<(usize, Seq<char>)>
    decreases caps.len(),
{
    if caps.len() == 0 {
        Seq::empty()
    } else {
        let rest = group_one_hits(caps.drop_last());
        let c = caps.last();
        if 1 < c.len() && c[1] is Some {
            rest.push((c[1]->Some_0.1, c[1]->Some_0.0))
        } else {
            rest
        }
    }
}

/// Group 1 of each match of `pattern` in `text`, with its offset.
pub open spec fn hits_spec(pattern: Seq<char>, text: Seq<char>) -> Seq<(usize, Seq<char>)> {
    match regex_captures_spec(pattern, text) {
        Some(caps) => group_one_hits(caps),
        None => Seq::empty(),
    }
}

pub open spec fn hit_views(v: Seq<(usize, String)>) -> Seq<(usize, Seq<char>)> {
    v.map_values(|h: (usize, String)| (h.0, h.1@))
}

fn hits(pattern: &str, text: &str) -> (r: Vec<(usize, String)>)
    ensures
        hit_views(r@) == hits_spec(pattern@, text@),
{
    let mut r: Vec<(usize, String)> = Vec::new();
    let caps = match regex_captures(pattern, text) {
        Some(c) => c,
        None => {
            assert(hit_views(r@) =~= Seq::<(usize, Seq<char>)>::empty());
            return r;
        },
    };
    let ghost all = all_captures_view(caps);
    let mut i: usize = 0;
    assert(all.take(0) =~= Seq::<Seq<Option<(Seq<char>, usize)>>>::empty());
    assert(hit_views(r@) =~= Seq::<(usize, Seq<char>)>::empty());
    while i < caps.len()
        invariant
            i <= caps@.len(),
            all == all_captures_view(caps),
            hits_spec(pattern@, text@) == group_one_hits(all),
            hit_views(r@) == group_one_hits(all.take(i as int)),
        decreases caps.len() - i,
    {
        assert(all.take(i + 1).drop_last() =~= all.take(i as int));
        assert(all.take(i + 1).last() == captures_view(caps@[i as int]));
        let c = &caps[i];
        if 1 < c.len() {
            match &c[1] {
                Some(m) => {
                    assert(captures_view(*c)[1] == Some((m.text@, m.start)));
                    let ghost before = hit_views(r@);
                    r.push((m.start, m.text.clone()));
                    assert(hit_views(r@) =~= before.push((m.start, m.text@)));
                },
                None => {
                    assert(captures_view(*c)[1] is None);
                },
            }
        }
        i = i + 1;
    }
    assert(all.take(i as int) =~= all);
    r
}

/// The first query, from index `i` on, that starts after `pos` and less
/// than 500 bytes after it.
pub open spec fn query_after(queries: Seq<(usize, Seq<char>)>, pos: usize, i: int) -> Option<Seq<char>>
    decreases queries.len() - i,
{
    if i < 0 || i >= queries.len() {
        None
    } else if queries[i].0 > pos && queries[i].0 - pos < 500 {
        Some(queries[i].1)
    } else {
        query_after(queries, pos, i + 1)
    }
}

/// Each variable name paired with the first query that follows it closely
/// (names without one are left out), in the order of the names.
pub open spec fn var_pairs(names: Seq<(usize, Seq<char>)>, queries: Seq<(usize, Seq<char>)>) -> Seq<(Seq<char>, Seq<char>)>
    decreases names.len(),
{
    if names.len() == 0 {
        Seq::empty()
    } else {
        let rest = var_pairs(names.drop_last(), queries);
        match query_after(queries, names.last().0, 0) {
            Some(q) => rest.push((names.last().1, q)),
            None => rest,
        }
    }
}

/// The template variables of a dashboard's text: each `name` member with
/// the first `query` member that starts after it and within 500 bytes.
pub open spec fn template_variables_spec(json: Seq<char>) -> Seq<(Seq<char>, Seq<char>)> {
    var_pairs(hits_spec(var_name_pattern(), json), hits_spec(var_query_pattern(), json))
}

/// The query of variable `name`: where a name occurs twice, the later pair
/// wins.
pub open spec fn var_query(pairs: Seq<(Seq<char>, Seq<char>)>, name: Seq<char>) -> Option<Seq<char>>
    decreases pairs.len(),
{
    if pairs.len() == 0 {
        None
    } else if pairs.last().0 == name {
        Some(pairs.last().1)
    } else {
        var_query(pairs.drop_last(), name)
    }
}

pub open spec fn var_views(v: Seq<(String, String)>) -> Seq<(Seq<char>, Seq<char>)> {
    v.map_values(|p: (String, String)| (p.0@, p.1@))
}

fn query_after_exec(queries: &Vec<(usize, String)>, pos: usize) -> (r: Option<String>)
    ensures
        match r {
            Some(q) => query_after(hit_views(queries@), pos, 0) == Some(q@),
            None => query_after(hit_views(queries@), pos, 0) is None,
        },
{
    let ghost qv = hit_views(queries@);
    let mut i: usize = 0;
    while i < queries.len()
        invariant
            i <= queries@.len(),
            qv == hit_views(queries@),
            query_after(qv, pos, 0) == query_after(qv, pos, i as int),
        decreases queries.len() - i,
    {
        let q = &queries[i];
        assert(qv[i as int] == (q.0, q.1@));
        if q.0 > pos && q.0 - pos < 500 {
            return Some(q.1.clone());
        }
        i = i + 1;
    }
    None
}

/// Reads a dashboard's template variables: each variable name with the
/// query that follows it.
pub fn extract_template_variables(dashboard_json: &str) -> (r: Vec<(String, String)>)
    ensures
        var_views(r@) == template_variables_spec(dashboard_json@),
{
    let names = hits("\"name\":\\s*\"([a-zA-Z_][a-zA-Z0-9_]*)\"", dashboard_json);
    let queries = hits("\"query\":\\s*\"([^\"]*(?:\\\\.[^\"]*)*)\"", dashboard_json);
    let ghost nv = hit_views(names@);
    let ghost qv = hit_views(queries@);
    let mut r: Vec<(String, String)> = Vec::new();
    let mut i: usize = 0;
    assert(nv.take(0) =~= Seq::<(usize, Seq<char>)>::empty());
    assert(var_views(r@) =~= Seq::<(Seq<char>, Seq<char>)>::empty());
    while i < names.len()
        invariant
            i <= names@.len(),
            nv == hit_views(names@),
            qv == hit_views(queries@),
            var_views(r@) == var_pairs(nv.take(i as int), qv),
        decreases names.len() - i,
    {
        assert(nv.take(i + 1).drop_last() =~= nv.take(i as int));
        assert(nv.take(i + 1).last() == (names@[i as int].0, names@[i as int].1@));
        match query_after_exec(&queries, names[i].0) {
            Some(q) => {
                let ghost before = var_views(r@);
                r.push((names[i].1.clone(), q));
                assert(var_views(r@) =~= before.push((names@[i as int].1@, q@)));
            },
            None => {},
        }
        i = i + 1;
    }
    assert(nv.take(i as int) =~= nv);
    proof {
        assert(nv == hits_spec(var_name_pattern(), dashboard_json@));
        assert(qv == hits_spec(var_query_pattern(), dashboard_json@));
    }
    r
}

fn var_query_exec<'a>(pairs: &'a Vec<(String, String)>, name: &str) -> (r: Option<&'a String>)
    ensures
        match r {
            Some(q) => var_query(var_views(pairs@), name@) == Some(q@),
            None => var_query(var_views(pairs@), name@) is None,
        },
{
    let ghost pv = var_views(pairs@);
    let mut i: usize = pairs.len();
    assert(pv.take(pv.len() as int) =~= pv);
    while i > 0
        invariant
            i <= pairs@.len(),
            pv == var_views(pairs@),
            var_query(pv, name@) == var_query(pv.take(i as int), name@),
        decreases i,
    {
        assert(pv.take(i as int).last() == (pairs@[i - 1].0@, pairs@[i - 1].1@));
        assert(pv.take(i as int).drop_last() =~= pv.take(i - 1));
        if str_eq(pairs[i - 1].0.as_str(), name) {
            return Some(&pairs[i - 1].1);
        }
        i = i - 1;
    }
    None
}


// ---------------------------------------------------------------------------
// Columns that a dashboard's queries use
// ---------------------------------------------------------------------------

/// The pattern of a panel's `rawSql` member.
pub open spec fn raw_sql_pattern() -> Seq<char> {
    "\"rawSql\":\\s*\"([^\"]*(?:\\\\.[^\"]*)*)\""@
}

/// The pattern of an `AS` alias, in any case.
pub open spec fn as_alias_pattern() -> Seq<char> {
    "(?i)\\s+AS\\s+([a-zA-Z_][a-zA-Z0-9_]*)"@
}

/// A panel's SQL with the JSON escapes `\n`, `\t` and `\r` made spaces.
pub open spec fn unescaped_sql(sql: Seq<char>) -> Seq<char> {
    replace(replace(replace(sql, "\\n"@, " "@), "\\t"@, " "@), "\\r"@, " "@)
}

/// The first position at which `p` occurs in `s`.
pub open spec fn first_occurrence(s: Seq<char>, p: Seq<char>) -> Option<int> {
    if contains(s, p) {
        Some(choose|i: int| occurs_at(s, p, i) && forall|j: int| 0 <= j < i ==> !occurs_at(s, p, j))
    } else {
        None
    }
}

proof fn lemma_first_occurrence(s: Seq<char>, p: Seq<char>, i: int)
    requires
        occurs_at(s, p, i),
        forall|j: int| 0 <= j < i ==> !occurs_at(s, p, j),
    ensures
        first_occurrence(s, p) == Some(i),
{
    assert(contains(s, p));
    let c = choose|k: int| occurs_at(s, p, k) && forall|j: int| 0 <= j < k ==> !occurs_at(s, p, j);
    if c < i {
        assert(!occurs_at(s, p, c));
    } else if c > i {
        assert(!occurs_at(s, p, i));
    }
}

/// A panel's SQL up to its `SETTINGS` clause, found in the upper-cased SQL
/// and cut at the same byte offset of the SQL; `None` when that offset is
/// no character boundary of the SQL (where slicing there panics).
#[verifier::opaque]
pub open spec fn before_settings(sql: Seq<char>) -> Option<Seq<char>> {
    let up = uppercase_spec(sql);
    match first_occurrence(up, "SETTINGS"@) {
        None => Some(sql),
        Some(k) => match char_index_at_byte(sql, utf8_len(up.take(k)) as int) {
            Some(j) => Some(sql.take(j)),
            None => None,
        },
    }
}

/// The columns that one identifier of a panel's SQL stands for: none for a
/// keyword, macro, function or alias; for a template variable, the columns
/// of its query (none when the query uses other variables); otherwise the
/// identifier itself.
pub open spec fn ident_columns(ident: Seq<char>, aliases: Seq<Seq<char>>, vars: Seq<(Seq<char>, Seq<char>)>) -> Set<Seq<char>> {
    if !column_like(ident) || aliases.contains(ident) {
        Set::empty()
    } else {
        match var_query(vars, ident) {
            Some(q) => if contains(q, "${"@) {
                Set::empty()
            } else {
                Set::new(|c: Seq<char>| query_columns_spec(q).contains(c))
            },
            None => Set::empty().insert(ident),
        }
    }
}

/// The columns that a list of identifiers stands for.
pub open spec fn idents_columns(idents: Seq<Seq<char>>, aliases: Seq<Seq<char>>, vars: Seq<(Seq<char>, Seq<char>)>) -> Set<Seq<char>>
    decreases idents.len(),
{
    if idents.len() == 0 {
        Set::empty()
    } else {
        idents_columns(idents.drop_last(), aliases, vars).union(ident_columns(idents.last(), aliases, vars))
    }
}

/// The columns that a panel's SQL (already cut before `SETTINGS`) uses.
#[verifier::opaque]
pub open spec fn sql_columns(cut: Seq<char>, vars: Seq<(Seq<char>, Seq<char>)>) -> Set<Seq<char>> {
    idents_columns(regex_group_spec(identifier_pattern(), cut, 1), regex_group_spec(as_alias_pattern(), cut, 1), vars)
}

/// The columns that the panels' SQL uses; `None` when a cut before
/// `SETTINGS` falls inside a character.
pub open spec fn panels_columns(sqls: Seq<Seq<char>>, vars: Seq<(Seq<char>, Seq<char>)>) -> Option<Set<Seq<char>>>
    decreases sqls.len(),
{
    if sqls.len() == 0 {
        Some(Set::empty())
    } else {
        match panels_columns(sqls.drop_last(), vars) {
            None => None,
            Some(rest) => match before_settings(unescaped_sql(sqls.last())) {
                None => None,
                Some(cut) => Some(rest.union(sql_columns(cut, vars))),
            },
        }
    }
}

/// The columns that a dashboard's queries use.
pub open spec fn column_references_spec(json: Seq<char>) -> Option<Set<Seq<char>>> {
    panels_columns(regex_group_spec(raw_sql_pattern(), json, 1), template_variables_spec(json))
}

fn before_settings_exec(sql: &str) -> (r: Option<String>)
    ensures
        match r {
            Some(c) => before_settings(sql@) == Some(c@),
            None => before_settings(sql@) is None,
        },
{
    reveal(before_settings);
    let up = uppercase(sql);
    let uc = chars_of(up.as_str());
    let pat = chars_of("SETTINGS");
    match find(uc.as_slice(), pat.as_slice()) {
        None => {
            assert(first_occurrence(uppercase_spec(sql@), "SETTINGS"@) is None);
            Some(owned(sql))
        },
        Some(k) => {
            proof {
                lemma_first_occurrence(uc@, pat@, k as int);
            }
            let b = byte_len_prefix(uc.as_slice(), k);
            let sc = chars_of(sql);
            match char_index_of_byte(sc.as_slice(), b) {
                Some(j) => {
                    let mut cut: Vec<char> = Vec::new();
                    let mut i: usize = 0;
                    while i < j
                        invariant
                            j <= sc@.len(),
                            i <= j,
                            cut@ == sc@.take(i as int),
                        decreases j - i,
                    {
                        cut.push(sc[i]);
                        assert(sc@.take(i + 1) =~= sc@.take(i as int).push(sc@[i as int]));
                        i = i + 1;
                    }
                    Some(string_of(cut.as_slice()))
                },
                None => None,
            }
        },
    }
}

/// Adds the columns of one identifier to `out`.
fn add_ident_columns(out: &mut Vec<String>, ident: &str, aliases: &Vec<String>, vars: &Vec<(String, String)>)
    ensures
        views(old(out)@).no_duplicates() ==> views(final(out)@).no_duplicates(),
        forall|x: Seq<char>| #[trigger] views(final(out)@).contains(x) <==> (views(old(out)@).contains(x)
            || ident_columns(ident@, views(aliases@), var_views(vars@)).contains(x)),
{
    if is_sql_keyword(ident) || is_grafana_macro(ident) || is_special_identifier(ident) || list_contains(aliases, ident) {
        return;
    }
    match var_query_exec(vars, ident) {
        Some(q) => {
            if str_contains(q.as_str(), "${") {
                return;
            }
            let cols = extract_columns_from_query(q.as_str());
            let ghost start = views(out@);
            let mut i: usize = 0;
            while i < cols.len()
                invariant
                    i <= cols@.len(),
                    start.no_duplicates() ==> views(out@).no_duplicates(),
                    forall|x: Seq<char>| #[trigger] views(out@).contains(x) <==> (start.contains(x)
                        || exists|k: int| 0 <= k < i && views(cols@)[k] == x),
                decreases cols.len() - i,
            {
                let ghost before = views(out@);
                push_unique(out, cols[i].as_str());
                proof {
                    assert forall|x: Seq<char>| #[trigger] views(out@).contains(x) <==> (start.contains(x)
                        || exists|k: int| 0 <= k < i + 1 && views(cols@)[k] == x) by {
                        if x == cols@[i as int]@ {
                            assert(views(cols@)[i as int] == x);
                        }
                        if exists|k: int| 0 <= k < i + 1 && views(cols@)[k] == x {
                            let k = choose|k: int| 0 <= k < i + 1 && views(cols@)[k] == x;
                            if k < i {
                                assert(exists|k2: int| 0 <= k2 < i && views(cols@)[k2] == x);
                            }
                        }
                    }
                }
                i = i + 1;
            }
            proof {
                let s = Set::new(|c: Seq<char>| query_columns_spec(q@).contains(c));
                assert(ident_columns(ident@, views(aliases@), var_views(vars@)) == s);
                assert forall|x: Seq<char>| #[trigger] views(out@).contains(x) <==> (start.contains(x) || s.contains(x)) by {
                    if s.contains(x) {
                        let k = choose|k: int| 0 <= k < views(cols@).len() && views(cols@)[k] == x;
                        assert(0 <= k < cols@.len() && views(cols@)[k] == x);
                    }
                    if exists|k: int| 0 <= k < cols@.len() && views(cols@)[k] == x {
                        let k = choose|k: int| 0 <= k < cols@.len() && views(cols@)[k] == x;
                        assert(views(cols@).contains(x));
                    }
                }
            }
        },
        None => {
            push_unique(out, ident);
            proof {
                assert(ident_columns(ident@, views(aliases@), var_views(vars@)) == Set::<Seq<char>>::empty().insert(ident@));
            }
        },
    }
}

/// Adds the columns of one panel's (cut) SQL to `out`.
fn add_sql_columns(out: &mut Vec<String>, cut: &str, vars: &Vec<(String, String)>)
    ensures
        views(old(out)@).no_duplicates() ==> views(final(out)@).no_duplicates(),
        forall|x: Seq<char>| #[trigger] views(final(out)@).contains(x) <==> (views(old(out)@).contains(x)
            || sql_columns(cut@, var_views(vars@)).contains(x)),
{
    reveal(sql_columns);
    let idents = regex_group("\\b([a-zA-Z_][a-zA-Z0-9_]*)\\b", cut, 1);
    let aliases = regex_group("(?i)\\s+AS\\s+([a-zA-Z_][a-zA-Z0-9_]*)", cut, 1);
    let ghost iv = views(idents@);
    let ghost start = views(out@);
    let mut i: usize = 0;
    assert(iv.take(0) =~= Seq::<Seq<char>>::empty());
    while i < idents.len()
        invariant
            i <= idents@.len(),
            iv == views(idents@),
            start.no_duplicates() ==> views(out@).no_duplicates(),
            forall|x: Seq<char>| #[trigger] views(out@).contains(x) <==> (start.contains(x)
                || idents_columns(iv.take(i as int), views(aliases@), var_views(vars@)).contains(x)),
        decreases idents.len() - i,
    {
        assert(iv.take(i + 1).drop_last() =~= iv.take(i as int));
        assert(iv.take(i + 1).last() == idents@[i as int]@);
        add_ident_columns(out, idents[i].as_str(), &aliases, vars);
        i = i + 1;
    }
    assert(iv.take(i as int) =~= iv);
}

/// Adds the columns of one panel's raw SQL to `out`; false, and `out`
/// unchanged, when its cut before `SETTINGS` falls inside a character.
fn add_panel_columns(out: &mut Vec<String>, raw: &str, vars: &Vec<(String, String)>) -> (ok: bool)
    ensures
        ok == before_settings(unescaped_sql(raw@)) is Some,
        views(old(out)@).no_duplicates() ==> views(final(out)@).no_duplicates(),
        ok ==> forall|x: Seq<char>| #[trigger] views(final(out)@).contains(x) <==> (views(old(out)@).contains(x)
            || sql_columns(before_settings(unescaped_sql(raw@))->Some_0, var_views(vars@)).contains(x)),
{
    let a = str_replace(raw, "\\n", " ");
    let b = str_replace(a.as_str(), "\\t", " ");
    let c = str_replace(b.as_str(), "\\r", " ");
    assert(c@ == unescaped_sql(raw@));
    match before_settings_exec(c.as_str()) {
        Some(cut) => {
            add_sql_columns(out, cut.as_str(), vars);
            true
        },
        None => false,
    }
}

/// Reads the columns that a dashboard's queries use, each once: for every
/// panel's `rawSql`, with its escapes made spaces and cut before its
/// `SETTINGS` clause, the identifiers that are no keyword, macro, function
/// or alias, a template variable standing for the columns of its query.
/// `None` where a cut before `SETTINGS` falls inside a character.
pub fn extract_column_references(dashboard_json: &str) -> (r: Option<Vec<String>>)
    ensures
        match r {
            Some(cols) => column_references_spec(dashboard_json@) matches Some(s) && views(cols@).no_duplicates()
                && forall|x: Seq<char>| #[trigger] views(cols@).contains(x) <==> s.contains(x),
            None => column_references_spec(dashboard_json@) is None,
        },
{
    let vars = extract_template_variables(dashboard_json);
    let sqls = regex_group("\"rawSql\":\\s*\"([^\"]*(?:\\\\.[^\"]*)*)\"", dashboard_json, 1);
    let ghost sv = views(sqls@);
    let ghost vv = var_views(vars@);
    let mut out: Vec<String> = Vec::new();
    let mut i: usize = 0;
    assert(sv.take(0) =~= Seq::<Seq<char>>::empty());
    assert(views(out@) =~= Seq::<Seq<char>>::empty());
    let ghost mut acc: Set<Seq<char>> = Set::empty();
    while i < sqls.len()
        invariant
            i <= sqls@.len(),
            sv == views(sqls@),
            vv == var_views(vars@),
            sv == regex_group_spec(raw_sql_pattern(), dashboard_json@, 1),
            vv == template_variables_spec(dashboard_json@),
            panels_columns(sv.take(i as int), vv) == Some(acc),
            views(out@).no_duplicates(),
            forall|x: Seq<char>| #[trigger] views(out@).contains(x) <==> acc.contains(x),
        decreases sqls.len() - i,
    {
        proof {
            assert(sv.take(i + 1).drop_last() =~= sv.take(i as int));
            assert(sv.take(i + 1).last() == sqls@[i as int]@);
        }
        let ok = add_panel_columns(&mut out, sqls[i].as_str(), &vars);
        if !ok {
            proof {
                assert(panels_columns(sv.take(i + 1), vv) is None);
                lemma_panels_none(sv, vv, i as int + 1);
            }
            return None;
        }
        proof {
            acc = acc.union(sql_columns(before_settings(unescaped_sql(sv[i as int]))->Some_0, vv));
        }
        i = i + 1;
    }
    assert(sv.take(i as int) =~= sv);
    Some(out)
}

/// Once the panels up to `i` have no columns, the whole list has none.
proof fn lemma_panels_none(sqls: Seq<Seq<char>>, vars: Seq<(Seq<char>, Seq<char>)>, i: int)
    requires
        0 <= i <= sqls.len(),
        panels_columns(sqls.take(i), vars) is None,
    ensures
        panels_columns(sqls, vars) is None,
    decreases sqls.len() - i,
{
    if i < sqls.len() {
        assert(sqls.take(i + 1).drop_last() =~= sqls.take(i));
        lemma_panels_none(sqls, vars, i + 1);
    } else {
        assert(sqls.take(i) =~= sqls);
    }
}


// ---------------------------------------------------------------------------
// Columns of the tables, and the check
// ---------------------------------------------------------------------------

/// The names of the output columns that a list of column entries gives, in
/// order (entries without a string `name` skipped).
pub open spec fn column_names(cols: Seq<Json>) -> Seq<Seq<char>>
    decreases cols.len(),
{
    if cols.len() == 0 {
        Seq::empty()
    } else {
        let rest = column_names(cols.drop_last());
        match cols.last().at("name"@).str_spec() {
            Some(n) => rest.push(n),
            None => rest,
        }
    }
}

/// The columns of the base table: the names of its first transform's output
/// columns.
pub open spec fn base_columns_spec(transform: Json) -> Seq<Seq<char>> {
    match transform.at("settings"@).at("output_columns"@).array_spec() {
        Some(cols) => column_names(cols),
        None => Seq::empty(),
    }
}

/// Reads the base table's columns from its first transform.
pub fn base_table_columns(transform: &Json) -> (r: Vec<String>)
    ensures
        views(r@) == base_columns_spec(*transform),
{
    let mut r: Vec<String> = Vec::new();
    let cols = match at(at(transform, "settings"), "output_columns").as_array() {
        Some(c) => c,
        None => {
            assert(views(r@) =~= Seq::<Seq<char>>::empty());
            return r;
        },
    };
    let mut i: usize = 0;
    assert(cols@.take(0) =~= Seq::<Json>::empty());
    assert(views(r@) =~= Seq::<Seq<char>>::empty());
    while i < cols.len()
        invariant
            i <= cols@.len(),
            views(r@) == column_names(cols@.take(i as int)),
        decreases cols.len() - i,
    {
        assert(cols@.take(i + 1).drop_last() =~= cols@.take(i as int));
        assert(cols@.take(i + 1).last() == cols@[i as int]);
        match at(&cols[i], "name").as_str() {
            Some(n) => {
                let ghost before = views(r@);
                r.push(n.clone());
                assert(views(r@) =~= before.push(n@));
            },
            None => {},
        }
        i = i + 1;
    }
    assert(cols@.take(i as int) =~= cols@);
    r
}

/// The path of the transform whose columns are the base table's: the first
/// transform of the first table, when there is one.
pub fn base_transform_path(b: &Bundle) -> (r: Option<String>)
    ensures
        match r {
            Some(p) => b.tables@.len() > 0 && b.tables@[0].transforms@.len() > 0 && p@ == b.tables@[0].transforms@[0].path@,
            None => b.tables@.len() == 0 || b.tables@[0].transforms@.len() == 0,
        },
{
    if b.tables.len() == 0 || b.tables[0].transforms.len() == 0 {
        None
    } else {
        Some(b.tables[0].transforms[0].path.clone())
    }
}

/// At most the first ten of a list.
pub open spec fn first_ten(s: Seq<Seq<char>>) -> Seq<Seq<char>> {
    if s.len() <= 10 {
        s
    } else {
        s.take(10)
    }
}

/// Whether a column that a dashboard uses is missing: a Raw Logs dashboard
/// queries the base table, the others a summary table or the base table.
pub open spec fn column_missing(name: Seq<char>, col: Seq<char>, summary: Seq<Seq<char>>, base: Seq<Seq<char>>) -> bool {
    !special_identifiers().contains(lowercase_spec(col)) && if contains(name, "Raw Logs"@) {
        !base.contains(col)
    } else {
        !summary.contains(col) && !base.contains(col)
    }
}

/// The error for a missing column; it lists the first ten columns of the
/// table that was searched.
pub open spec fn missing_column_message(name: Seq<char>, col: Seq<char>, summary: Seq<Seq<char>>, base: Seq<Seq<char>>) -> Seq<char> {
    if contains(name, "Raw Logs"@) {
        "Dashboard "@ + name + " queries column '"@ + col + "' but it doesn't exist in base table.\n  Available base table columns: "@
            + debug_strings_spec(first_ten(base))
    } else {
        "Dashboard "@ + name + " queries column '"@ + col + "' but it doesn't exist in summary tables.\n  Available summary columns: "@
            + debug_strings_spec(first_ten(summary))
    }
}

/// The error for the first missing column from index `i` on.
pub open spec fn first_missing_column(name: Seq<char>, refs: Seq<Seq<char>>, summary: Seq<Seq<char>>, base: Seq<Seq<char>>, i: int) -> Option<Seq<char>>
    decreases refs.len() - i,
{
    if i < 0 || i >= refs.len() {
        None
    } else if column_missing(name, refs[i], summary, base) {
        Some(missing_column_message(name, refs[i], summary, base))
    } else {
        first_missing_column(name, refs, summary, base, i + 1)
    }
}

fn first_ten_exec(v: &Vec<String>) -> (r: Vec<String>)
    ensures
        views(r@) == first_ten(views(v@)),
{
    let mut r: Vec<String> = Vec::new();
    let mut i: usize = 0;
    while i < v.len() && i < 10
        invariant
            i <= v@.len(),
            i <= 10,
            views(r@) == views(v@).take(i as int),
        decreases v.len() - i,
    {
        assert(views(v@).take(i + 1) =~= views(v@).take(i as int).push(v@[i as int]@));
        r.push(v[i].clone());
        i = i + 1;
    }
    assert(views(v@).len() <= 10 ==> views(v@).take(i as int) =~= views(v@));
    r
}

/// Checks the columns that a dashboard uses (in the order given) against
/// the columns of the summary tables and of the base table.
pub fn check_dashboard_columns(
    dashboard_name: &str,
    referenced: &Vec<String>,
    summary_columns: &Vec<String>,
    base_columns: &Vec<String>,
) -> (r: Result<(), String>)
    ensures
        match r {
            Ok(()) => first_missing_column(dashboard_name@, views(referenced@), views(summary_columns@), views(base_columns@), 0) is None,
            Err(e) => first_missing_column(dashboard_name@, views(referenced@), views(summary_columns@), views(base_columns@), 0) == Some(e@),
        },
{
    let ghost rv = views(referenced@);
    let ghost sv = views(summary_columns@);
    let ghost bv = views(base_columns@);
    let raw_logs = str_contains(dashboard_name, "Raw Logs");
    let mut i: usize = 0;
    while i < referenced.len()
        invariant
            i <= referenced@.len(),
            rv == views(referenced@),
            sv == views(summary_columns@),
            bv == views(base_columns@),
            raw_logs == contains(dashboard_name@, "Raw Logs"@),
            first_missing_column(dashboard_name@, rv, sv, bv, 0) == first_missing_column(dashboard_name@, rv, sv, bv, i as int),
        decreases referenced.len() - i,
    {
        let col = referenced[i].as_str();
        assert(rv[i as int] == col@);
        if !is_special_identifier(col) {
            let in_summary = list_contains(summary_columns, col);
            let in_base = list_contains(base_columns, col);
            if raw_logs {
                if !in_base {
                    let mut e = concat("Dashboard ", dashboard_name);
                    append(&mut e, " queries column '");
                    append(&mut e, col);
                    append(&mut e, "' but it doesn't exist in base table.\n  Available base table columns: ");
                    let shown = debug_strings(&first_ten_exec(base_columns));
                    append(&mut e, shown.as_str());
                    assert(e@ =~= missing_column_message(dashboard_name@, col@, sv, bv));
                    return Err(e);
                }
            } else if !in_summary && !in_base {
                let mut e = concat("Dashboard ", dashboard_name);
                append(&mut e, " queries column '");
                append(&mut e, col);
                append(&mut e, "' but it doesn't exist in summary tables.\n  Available summary columns: ");
                let shown = debug_strings(&first_ten_exec(summary_columns));
                append(&mut e, shown.as_str());
                assert(e@ =~= missing_column_message(dashboard_name@, col@, sv, bv));
                return Err(e);
            }
        }
        i = i + 1;
    }
    Ok(())
}

} // verus!
