//! A summary table's `hdx_primary_key` must be one of the columns that its
//! SQL selects.
use vstd::prelude::*;
use crate::ext::{lowercase, lowercase_spec};
use crate::grafana::plugins::{join, join_strings};
use crate::text::{
    append, char_index_at_byte, char_index_of_byte, chars_of, contains, has_char, has_char_exec,
    is_ws, occurs_at, rfind, split_char, split_chars, str_trim, string_of, trim, trim_chars,
    utf8_len, views, whitespace, list_contains,
};
use super::{first_match_spec, group_text, regex_first};

verus! {

broadcast use vstd::string::group_string_axioms;

// ---------------------------------------------------------------------------
// SQL comments
// ---------------------------------------------------------------------------

/// The index of the first line break at or after `k` (the length when none).
pub open spec fn line_end(s: Seq<char>, k: int) -> int
    decreases s.len() - k,
{
    if k >= s.len() {
        s.len() as int
    } else if s[k] == '\n' || s[k] == '\r' {
        k
    } else {
        line_end(s, k + 1)
    }
}

/// The index just after the first `*/` at or after `k` (the length when none).
pub open spec fn block_end(s: Seq<char>, k: int) -> int
    decreases s.len() - k,
{
    if k >= s.len() {
        s.len() as int
    } else if s[k] == '*' && k + 1 < s.len() && s[k + 1] == '/' {
        k + 2
    } else {
        block_end(s, k + 1)
    }
}

pub proof fn lemma_ends(s: Seq<char>, k: int)
    requires
        0 <= k <= s.len(),
    ensures
        k <= line_end(s, k) <= s.len(),
        k <= block_end(s, k) <= s.len(),
    decreases s.len() - k,
{
    if k < s.len() {
        lemma_ends(s, k + 1);
    }
}

/// `s` from index `i` on with every `--` comment (up to the line break) and
/// every `/* */` comment (an unterminated one to the end) replaced by a space.
pub open spec fn strip_from(s: Seq<char>, i: int) -> Seq<char>
    decreases s.len() - i,
{
    if i < 0 || i >= s.len() {
        Seq::empty()
    } else if s[i] == '-' && i + 1 < s.len() && s[i + 1] == '-' {
        proof {
            lemma_ends(s, i + 2);
        }
        seq![' '] + strip_from(s, line_end(s, i + 2))
    } else if s[i] == '/' && i + 1 < s.len() && s[i + 1] == '*' {
        proof {
            lemma_ends(s, i + 2);
        }
        seq![' '] + strip_from(s, block_end(s, i + 2))
    } else {
        seq![s[i]] + strip_from(s, i + 1)
    }
}

/// The SQL text with its comments replaced by spaces.
pub open spec fn strip_comments(s: Seq<char>) -> Seq<char> {
    strip_from(s, 0)
}

/// No `--` and no `/*` in `t`.
pub open spec fn no_comment_marker(t: Seq<char>) -> bool {
    forall|j: int| 0 <= j < t.len() - 1 ==> !(#[trigger] t[j] == '-' && t[j + 1] == '-') && !(t[j] == '/' && t[j + 1] == '*')
}

proof fn lemma_strip_from_shape(s: Seq<char>, i: int)
    requires
        0 <= i,
    ensures
        no_comment_marker(strip_from(s, i)),
        i < s.len() ==> strip_from(s, i).len() > 0 && (strip_from(s, i)[0] == ' ' || strip_from(s, i)[0] == s[i]),
    decreases s.len() - i,
{
    if i < s.len() {
        let t = strip_from(s, i);
        if s[i] == '-' && i + 1 < s.len() && s[i + 1] == '-' {
            lemma_ends(s, i + 2);
            let e = line_end(s, i + 2);
            lemma_strip_from_shape(s, e);
            let rest = strip_from(s, e);
            assert forall|j: int| 0 <= j < t.len() - 1 implies !(#[trigger] t[j] == '-' && t[j + 1] == '-') && !(t[j] == '/'
                && t[j + 1] == '*') by {
                if j > 0 {
                    assert(t[j] == rest[j - 1] && t[j + 1] == rest[j]);
                }
            }
        } else if s[i] == '/' && i + 1 < s.len() && s[i + 1] == '*' {
            lemma_ends(s, i + 2);
            let e = block_end(s, i + 2);
            lemma_strip_from_shape(s, e);
            let rest = strip_from(s, e);
            assert forall|j: int| 0 <= j < t.len() - 1 implies !(#[trigger] t[j] == '-' && t[j + 1] == '-') && !(t[j] == '/'
                && t[j + 1] == '*') by {
                if j > 0 {
                    assert(t[j] == rest[j - 1] && t[j + 1] == rest[j]);
                }
            }
        } else {
            lemma_strip_from_shape(s, i + 1);
            let rest = strip_from(s, i + 1);
            assert forall|j: int| 0 <= j < t.len() - 1 implies !(#[trigger] t[j] == '-' && t[j + 1] == '-') && !(t[j] == '/'
                && t[j + 1] == '*') by {
                if j > 0 {
                    assert(t[j] == rest[j - 1] && t[j + 1] == rest[j]);
                } else {
                    assert(t[0] == s[i] && t[1] == rest[0]);
                }
            }
        }
    }
}

proof fn lemma_strip_from_plain(s: Seq<char>, i: int)
    requires
        0 <= i <= s.len(),
        no_comment_marker(s),
    ensures
        strip_from(s, i) == s.skip(i),
    decreases s.len() - i,
{
    if i < s.len() {
        assert(!(s[i] == '-' && i + 1 < s.len() && s[i + 1] == '-'));
        assert(!(s[i] == '/' && i + 1 < s.len() && s[i + 1] == '*'));
        lemma_strip_from_plain(s, i + 1);
        assert(seq![s[i]] + s.skip(i + 1) =~= s.skip(i));
    } else {
        assert(s.skip(i) =~= Seq::<char>::empty());
    }
}

/// What remains of the SQL once its comments are gone holds no comment
/// marker (`--` or `/*`), and SQL without one is left as it is; so removing
/// comments a second time changes nothing.
pub proof fn lemma_comments_gone(sql: Seq<char>)
    ensures
        !contains(strip_comments(sql), "--"@),
        !contains(strip_comments(sql), "/*"@),
        (!contains(sql, "--"@) && !contains(sql, "/*"@)) ==> strip_comments(sql) == sql,
        strip_comments(strip_comments(sql)) == strip_comments(sql),
{
    reveal_strlit("--");
    reveal_strlit("/*");
    let t = strip_comments(sql);
    lemma_strip_from_shape(sql, 0);
    assert forall|j: int| !occurs_at(t, "--"@, j) by {
        if occurs_at(t, "--"@, j) {
            assert(t.subrange(j, j + 2)[0] == t[j] && t.subrange(j, j + 2)[1] == t[j + 1]);
        }
    }
    assert forall|j: int| !occurs_at(t, "/*"@, j) by {
        if occurs_at(t, "/*"@, j) {
            assert(t.subrange(j, j + 2)[0] == t[j] && t.subrange(j, j + 2)[1] == t[j + 1]);
        }
    }
    if !contains(sql, "--"@) && !contains(sql, "/*"@) {
        assert forall|j: int| 0 <= j < sql.len() - 1 implies !(#[trigger] sql[j] == '-' && sql[j + 1] == '-') && !(sql[j] == '/'
            && sql[j + 1] == '*') by {
            if sql[j] == '-' && sql[j + 1] == '-' {
                assert(sql.subrange(j, j + 2) =~= "--"@);
                assert(occurs_at(sql, "--"@, j));
            }
            if sql[j] == '/' && sql[j + 1] == '*' {
                assert(sql.subrange(j, j + 2) =~= "/*"@);
                assert(occurs_at(sql, "/*"@, j));
            }
        }
        lemma_strip_from_plain(sql, 0);
        assert(sql.skip(0) =~= sql);
    }
    lemma_strip_from_plain(t, 0);
    assert(t.skip(0) =~= t);
}

/// Replaces each SQL comment (`-- ...` to the end of the line, `/* ... */`)
/// with a space.
pub fn remove_sql_comments(sql: &str) -> (r: String)
    ensures
        r@ == strip_comments(sql@),
{
    let s = chars_of(sql);
    let n = s.len();
    let mut out: Vec<char> = Vec::new();
    let mut i: usize = 0;
    while i < n
        invariant
            i <= n == s@.len(),
            s@ == sql@,
            strip_comments(sql@) == out@ + strip_from(s@, i as int),
        decreases n - i,
    {
        let ghost before = out@;
        if s[i] == '-' && i + 1 < n && s[i + 1] == '-' {
            let mut k: usize = i + 2;
            proof {
                lemma_ends(s@, k as int);
            }
            while k < n && s[k] != '\n' && s[k] != '\r'
                invariant
                    i + 2 <= k <= n == s@.len(),
                    line_end(s@, i + 2) == line_end(s@, k as int),
                decreases n - k,
            {
                k = k + 1;
            }
            out.push(' ');
            assert(out@ + strip_from(s@, k as int) =~= before + strip_from(s@, i as int));
            i = k;
        } else if s[i] == '/' && i + 1 < n && s[i + 1] == '*' {
            let mut k: usize = i + 2;
            proof {
                lemma_ends(s@, k as int);
            }
            while k < n && !(s[k] == '*' && k + 1 < n && s[k + 1] == '/')
                invariant
                    i + 2 <= k <= n == s@.len(),
                    block_end(s@, i + 2) == block_end(s@, k as int),
                decreases n - k,
            {
                k = k + 1;
            }
            let next = if k < n {
                k + 2
            } else {
                n
            };
            out.push(' ');
            assert(out@ + strip_from(s@, next as int) =~= before + strip_from(s@, i as int));
            i = next;
        } else {
            out.push(s[i]);
            assert(out@ + strip_from(s@, i + 1) =~= before + strip_from(s@, i as int));
            i = i + 1;
        }
    }
    assert(out@ + strip_from(s@, i as int) =~= out@);
    string_of(out.as_slice())
}

// ---------------------------------------------------------------------------
// The primary key
// ---------------------------------------------------------------------------

/// The pattern of the primary key setting: `hdx_primary_key = 'name'`.
pub open spec fn primary_key_pattern() -> Seq<char> {
    "(?i)hdx_primary_key\\s*=\\s*['\"]([^'\"]+)['\"]"@
}

/// The `hdx_primary_key` that a summary SQL sets, comments ignored.
pub open spec fn primary_key_spec(sql: Seq<char>) -> Option<Seq<char>> {
    match first_match_spec(primary_key_pattern(), strip_comments(sql)) {
        Some(m) => group_text(m, 1),
        None => None,
    }
}

/// Reads the `hdx_primary_key` that a summary SQL sets.
pub fn parse_primary_key(sql: &str) -> (r: Option<String>)
    ensures
        match r {
            Some(k) => primary_key_spec(sql@) == Some(k@),
            None => primary_key_spec(sql@) is None,
        },
{
    let s = remove_sql_comments(sql);
    match regex_first("(?i)hdx_primary_key\\s*=\\s*['\"]([^'\"]+)['\"]", s.as_str()) {
        Some(m) => {
            if m.len() > 1 {
                match &m[1] {
                    Some(t) => Some(t.clone()),
                    None => None,
                }
            } else {
                None
            }
        },
        None => None,
    }
}

// ---------------------------------------------------------------------------
// The selected columns
// ---------------------------------------------------------------------------

/// The pattern of the select list: what stands between `SELECT` and `FROM`.
pub open spec fn select_pattern() -> Seq<char> {
    "(?is)SELECT\\s+(.*?)\\s+FROM"@
}

/// The last maximal run of non-whitespace characters of `s`.
pub open spec fn last_token(s: Seq<char>) -> Seq<char>
    decreases s.len(),
{
    if s.len() == 0 || is_ws(s.last()) {
        Seq::empty()
    } else {
        last_token(s.drop_last()).push(s.last())
    }
}

/// The last occurrence of `p` in `s`.
pub open spec fn last_occurrence(s: Seq<char>, p: Seq<char>) -> Option<int> {
    if contains(s, p) {
        Some(choose|i: int| occurs_at(s, p, i) && forall|j: int| i < j ==> !occurs_at(s, p, j))
    } else {
        None
    }
}

/// Where the alias of a select item starts: four bytes after the last
/// ` as ` of its lower-cased text, counted in bytes of that text.
pub open spec fn alias_byte(t: Seq<char>) -> Option<int> {
    match last_occurrence(lowercase_spec(t), " as "@) {
        Some(p) => Some(utf8_len(lowercase_spec(t).take(p)) + 4int),
        None => None,
    }
}

/// The column that one trimmed select item names: its alias when it has
/// one, else its last token when that has no `(`.
pub open spec fn item_column(t: Seq<char>) -> Option<Seq<char>> {
    match alias_byte(t) {
        Some(b) => match char_index_at_byte(t, b) {
            Some(k) => Some(trim(t.skip(k))),
            None => None,
        },
        None => {
            let col = trim(last_token(t));
            if col.len() > 0 && !has_char(col, '(') {
                Some(col)
            } else {
                None
            }
        },
    }
}

/// The columns of the select items, in order.
pub open spec fn item_columns(parts: Seq<Seq<char>>) -> Seq<Seq<char>>
    decreases parts.len(),
{
    if parts.len() == 0 {
        Seq::empty()
    } else {
        let rest = item_columns(parts.drop_last());
        let t = trim(parts.last());
        if t.len() > 0 && item_column(t) is Some {
            rest.push(item_column(t)->Some_0)
        } else {
            rest
        }
    }
}

/// The byte offset of an alias falls on a character boundary of its item.
pub open spec fn alias_cut_ok(part: Seq<char>) -> bool {
    let t = trim(part);
    t.len() > 0 && alias_byte(t) is Some ==> char_index_at_byte(t, alias_byte(t)->Some_0) is Some
}

/// The select list of a summary SQL (comments ignored), when it has one.
pub open spec fn select_list(sql: Seq<char>) -> Result<Seq<char>, Seq<char>> {
    match first_match_spec(select_pattern(), strip_comments(sql)) {
        None => Err("Could not find SELECT clause in SQL"@),
        Some(m) => match group_text(m, 1) {
            None => Err("Could not extract SELECT clause"@),
            Some(l) => Ok(l),
        },
    }
}

/// Every alias cut of the select list falls on a character boundary.
pub open spec fn select_cuts_ok(sql: Seq<char>) -> bool {
    match select_list(sql) {
        Ok(l) => forall|i: int| 0 <= i < split_char(l, ',').len() ==> alias_cut_ok(#[trigger] split_char(l, ',')[i]),
        Err(_) => true,
    }
}


pub fn last_token_exec(t: &[char]) -> (r: Vec<char>)
    ensures
        r@ == last_token(t@),
{
    let mut j: usize = t.len();
    assert(t@.take(j as int) =~= t@);
    assert(t@.subrange(j as int, t@.len() as int) =~= Seq::<char>::empty());
    assert(last_token(t@) =~= last_token(t@.take(j as int)) + t@.subrange(j as int, t@.len() as int));
    while j > 0 && !whitespace(t[j - 1])
        invariant
            j <= t@.len(),
            last_token(t@) == last_token(t@.take(j as int)) + t@.subrange(j as int, t@.len() as int),
        decreases j,
    {
        assert(t@.take(j as int).drop_last() =~= t@.take(j - 1));
        assert(t@.take(j as int).last() == t@[j - 1]);
        assert(t@.subrange(j - 1, t@.len() as int) =~= seq![t@[j - 1]] + t@.subrange(j as int, t@.len() as int));
        j = j - 1;
    }
    proof {
        assert(last_token(t@.take(j as int)) =~= Seq::<char>::empty());
        if j == t.len() {
            assert(t@.take(j as int) =~= t@);
        }
    }
    let mut r: Vec<char> = Vec::new();
    let mut k: usize = j;
    while k < t.len()
        invariant
            j <= k <= t@.len(),
            r@ == t@.subrange(j as int, k as int),
        decreases t.len() - k,
    {
        r.push(t[k]);
        assert(t@.subrange(j as int, k + 1) =~= t@.subrange(j as int, k as int).push(t@[k as int]));
        k = k + 1;
    }
    proof {
        assert(last_token(t@) =~= r@);
    }
    r
}

fn item_column_exec(t: &str) -> (r: Option<String>)
    requires
        t@.len() > 0 && alias_byte(t@) is Some ==> char_index_at_byte(t@, alias_byte(t@)->Some_0) is Some,
        t@.len() > 0,
    ensures
        match r {
            Some(c) => item_column(t@) == Some(c@),
            None => item_column(t@) is None,
        },
{
    let lower = lowercase(t);
    let lc = chars_of(lower.as_str());
    let pat = chars_of(" as ");
    match rfind(lc.as_slice(), pat.as_slice()) {
        Some(p) => {
            proof {
                assert(occurs_at(lc@, pat@, p as int));
                assert(contains(lc@, pat@));
                let q = choose|i: int| occurs_at(lc@, pat@, i) && forall|j: int| i < j ==> !occurs_at(lc@, pat@, j);
                if q < p {
                    assert(!occurs_at(lc@, pat@, p as int));
                } else if q > p {
                    assert(!occurs_at(lc@, pat@, q));
                }
                assert(last_occurrence(lowercase_spec(t@), " as "@) == Some(p as int));
            }
            proof {
                reveal_strlit(" as ");
                assert(lc@.subrange(p as int, p + 4) == pat@);
                assert(lc@[p as int] == ' ' && lc@[p + 1] == 'a' && lc@[p + 2] == 's' && lc@[p + 3] == ' ') by {
                    assert(lc@.subrange(p as int, p + 4)[0] == lc@[p as int]);
                    assert(lc@.subrange(p as int, p + 4)[1] == lc@[p + 1]);
                    assert(lc@.subrange(p as int, p + 4)[2] == lc@[p + 2]);
                    assert(lc@.subrange(p as int, p + 4)[3] == lc@[p + 3]);
                }
                crate::text::lemma_take_utf8_step(lc@, p as int);
                crate::text::lemma_take_utf8_step(lc@, p + 1);
                crate::text::lemma_take_utf8_step(lc@, p + 2);
                crate::text::lemma_take_utf8_step(lc@, p + 3);
                if p + 4 < lc@.len() {
                    crate::text::lemma_take_utf8_strict(lc@, p + 4, lc@.len() as int);
                }
                assert(lc@.take(lc@.len() as int) =~= lc@);
            }
            let prefix_bytes = crate::text::byte_len_prefix(lc.as_slice(), p);
            let tc = chars_of(t);
            match char_index_of_byte(tc.as_slice(), prefix_bytes + 4) {
                Some(k) => {
                    let mut rest: Vec<char> = Vec::new();
                    let mut j: usize = k;
                    while j < tc.len()
                        invariant
                            k <= j <= tc@.len(),
                            rest@ == tc@.subrange(k as int, j as int),
                        decreases tc.len() - j,
                    {
                        rest.push(tc[j]);
                        assert(tc@.subrange(k as int, j + 1) =~= tc@.subrange(k as int, j as int).push(tc@[j as int]));
                        j = j + 1;
                    }
                    assert(rest@ =~= tc@.skip(k as int));
                    let a = trim_chars(rest.as_slice());
                    Some(string_of(a.as_slice()))
                },
                None => None,
            }
        },
        None => {
            let tc = chars_of(t);
            let tok = last_token_exec(tc.as_slice());
            let col = trim_chars(tok.as_slice());
            if col.len() > 0 && !has_char_exec(col.as_slice(), '(') {
                Some(string_of(col.as_slice()))
            } else {
                None
            }
        },
    }
}

/// `s` with later repetitions removed.
pub open spec fn dedup(s: Seq<Seq<char>>) -> Seq<Seq<char>>
    decreases s.len(),
{
    if s.len() == 0 {
        Seq::empty()
    } else {
        let rest = dedup(s.drop_last());
        if rest.contains(s.last()) {
            rest
        } else {
            rest.push(s.last())
        }
    }
}

/// The output columns of a summary SQL, each once.
pub open spec fn select_columns_spec(sql: Seq<char>) -> Result<Seq<Seq<char>>, Seq<char>> {
    match select_list(sql) {
        Err(e) => Err(e),
        Ok(l) => Ok(dedup(item_columns(split_char(l, ',')))),
    }
}

/// Reads the output columns that a summary SQL selects: for each item of
/// the select list its alias, or else its last token.
pub fn parse_select_columns(sql: &str) -> (r: Result<Vec<String>, String>)
    requires
        select_cuts_ok(sql@),
    ensures
        match r {
            Ok(cols) => select_columns_spec(sql@) == Ok::<Seq<Seq<char>>, Seq<char>>(views(cols@)),
            Err(e) => select_columns_spec(sql@) == Err::<Seq<Seq<char>>, Seq<char>>(e@),
        },
{
    let s = remove_sql_comments(sql);
    let m = match regex_first("(?is)SELECT\\s+(.*?)\\s+FROM", s.as_str()) {
        Some(m) => m,
        None => return Err("Could not find SELECT clause in SQL".to_string()),
    };
    let list = if m.len() > 1 {
        match &m[1] {
            Some(l) => l,
            None => return Err("Could not extract SELECT clause".to_string()),
        }
    } else {
        return Err("Could not extract SELECT clause".to_string());
    };
    let lc = chars_of(list.as_str());
    let parts = split_chars(lc.as_slice(), ',');
    let ghost ps = split_char(list@, ',');
    let mut all: Vec<String> = Vec::new();
    let mut cols: Vec<String> = Vec::new();
    let mut i: usize = 0;
    assert(ps.take(0) =~= Seq::<Seq<char>>::empty());
    assert(views(all@) =~= Seq::<Seq<char>>::empty());
    assert(views(cols@) =~= Seq::<Seq<char>>::empty());
    while i < parts.len()
        invariant
            i <= parts@.len() == ps.len(),
            ps == split_char(list@, ','),
            forall|k: int| 0 <= k < parts@.len() ==> #[trigger] parts@[k]@ == ps[k],
            select_list(sql@) == Ok::<Seq<char>, Seq<char>>(list@),
            select_cuts_ok(sql@),
            views(all@) == item_columns(ps.take(i as int)),
            views(cols@) == dedup(views(all@)),
        decreases parts.len() - i,
    {
        assert(ps.take(i + 1).drop_last() =~= ps.take(i as int));
        assert(ps.take(i + 1).last() == ps[i as int]);
        proof {
            let l = select_list(sql@)->Ok_0;
            assert(l == list@);
            assert(0 <= i < split_char(l, ',').len());
            assert(alias_cut_ok(split_char(l, ',')[i as int]));
        }
        let t = trim_chars(parts[i].as_slice());
        if t.len() > 0 {
            let ts = string_of(t.as_slice());
            match item_column_exec(ts.as_str()) {
                Some(c) => {
                    let ghost before_all = views(all@);
                    all.push(c.clone());
                    assert(views(all@) =~= before_all.push(c@));
                    assert(views(all@).drop_last() =~= before_all);
                    let ghost before = views(cols@);
                    if !list_contains(&cols, c.as_str()) {
                        cols.push(c);
                        assert(views(cols@) =~= before.push(views(all@).last()));
                    }
                },
                None => {},
            }
        }
        i = i + 1;
    }
    assert(ps.take(i as int) =~= ps);
    Ok(cols)
}

pub open spec fn primary_key_missing_message(name: Seq<char>, pk: Seq<char>, cols: Seq<Seq<char>>) -> Seq<char> {
    "ERROR: Summary table "@ + name + " has hdx_primary_key='"@ + pk
        + "' but this column is not in the SELECT output.\n  Available columns: "@ + join(cols, ", "@)
        + "\n  Fix: Either add '"@ + pk + "' to the SELECT clause or change hdx_primary_key to match an existing column.\n"@
}

/// What a summary table's SQL must satisfy: its select list can be read,
/// and its primary key, when it sets one, is among the selected columns.
pub open spec fn summary_sql_error(name: Seq<char>, sql: Seq<char>) -> Option<Seq<char>> {
    match select_columns_spec(sql) {
        Err(e) => Some(e),
        Ok(cols) => match primary_key_spec(sql) {
            None => None,
            Some(pk) => if cols.contains(pk) {
                None
            } else {
                Some(primary_key_missing_message(name, pk, cols))
            },
        },
    }
}

/// Checks one summary table's SQL.
pub fn check_summary_sql(name: &str, sql: &str) -> (r: Result<(), String>)
    requires
        select_cuts_ok(sql@),
    ensures
        match r {
            Ok(()) => summary_sql_error(name@, sql@) is None,
            Err(e) => summary_sql_error(name@, sql@) == Some(e@),
        },
{
    let cols = parse_select_columns(sql)?;
    match parse_primary_key(sql) {
        Some(pk) => {
            if !list_contains(&cols, pk.as_str()) {
                let mut e = "ERROR: Summary table ".to_string();
                append(&mut e, name);
                append(&mut e, " has hdx_primary_key='");
                append(&mut e, pk.as_str());
                append(&mut e, "' but this column is not in the SELECT output.\n  Available columns: ");
                let j = join_strings(&cols, ", ");
                append(&mut e, j.as_str());
                append(&mut e, "\n  Fix: Either add '");
                append(&mut e, pk.as_str());
                append(&mut e, "' to the SELECT clause or change hdx_primary_key to match an existing column.\n");
                assert(e@ =~= primary_key_missing_message(name@, pk@, views(cols@)));
                return Err(e);
            }
            Ok(())
        },
        None => Ok(()),
    }
}

/// Whether the alias cut of one select item falls on a character boundary.
fn alias_cut_ok_exec(part: &[char]) -> (b: bool)
    ensures
        b == alias_cut_ok(part@),
{
    let t = trim_chars(part);
    if t.len() == 0 {
        return true;
    }
    let ts = string_of(t.as_slice());
    let lower = lowercase(ts.as_str());
    let lc = chars_of(lower.as_str());
    let pat = chars_of(" as ");
    match rfind(lc.as_slice(), pat.as_slice()) {
        Some(p) => {
            proof {
                assert(occurs_at(lc@, pat@, p as int));
                assert(contains(lc@, pat@));
                let q = choose|i: int| occurs_at(lc@, pat@, i) && forall|j: int| i < j ==> !occurs_at(lc@, pat@, j);
                if q < p {
                    assert(!occurs_at(lc@, pat@, p as int));
                } else if q > p {
                    assert(!occurs_at(lc@, pat@, q));
                }
                reveal_strlit(" as ");
                assert(lc@.subrange(p as int, p + 4) == pat@);
                assert(lc@[p as int] == ' ' && lc@[p + 1] == 'a' && lc@[p + 2] == 's' && lc@[p + 3] == ' ') by {
                    assert(lc@.subrange(p as int, p + 4)[0] == lc@[p as int]);
                    assert(lc@.subrange(p as int, p + 4)[1] == lc@[p + 1]);
                    assert(lc@.subrange(p as int, p + 4)[2] == lc@[p + 2]);
                    assert(lc@.subrange(p as int, p + 4)[3] == lc@[p + 3]);
                }
                crate::text::lemma_take_utf8_step(lc@, p as int);
                crate::text::lemma_take_utf8_step(lc@, p + 1);
                crate::text::lemma_take_utf8_step(lc@, p + 2);
                crate::text::lemma_take_utf8_step(lc@, p + 3);
                if p + 4 < lc@.len() {
                    crate::text::lemma_take_utf8_strict(lc@, p + 4, lc@.len() as int);
                }
                assert(lc@.take(lc@.len() as int) =~= lc@);
            }
            let prefix_bytes = crate::text::byte_len_prefix(lc.as_slice(), p);
            char_index_of_byte(t.as_slice(), prefix_bytes + 4).is_some()
        },
        None => true,
    }
}

/// Whether every alias cut of a summary SQL's select list falls on a
/// character boundary (where one does not, reading the columns panics).
pub fn select_cuts_ok_exec(sql: &str) -> (b: bool)
    ensures
        b == select_cuts_ok(sql@),
{
    let s = remove_sql_comments(sql);
    let m = match regex_first("(?is)SELECT\\s+(.*?)\\s+FROM", s.as_str()) {
        Some(m) => m,
        None => return true,
    };
    if m.len() <= 1 {
        return true;
    }
    let list = match &m[1] {
        Some(l) => l,
        None => return true,
    };
    let lc = chars_of(list.as_str());
    let parts = split_chars(lc.as_slice(), ',');
    let mut i: usize = 0;
    while i < parts.len()
        invariant
            i <= parts@.len() == split_char(list@, ',').len(),
            forall|k: int| 0 <= k < parts@.len() ==> #[trigger] parts@[k]@ == split_char(list@, ',')[k],
            forall|k: int| 0 <= k < i ==> alias_cut_ok(#[trigger] split_char(list@, ',')[k]),
            select_list(sql@) == Ok::<Seq<char>, Seq<char>>(list@),
        decreases parts.len() - i,
    {
        if !alias_cut_ok_exec(parts[i].as_slice()) {
            proof {
                let l = select_list(sql@)->Ok_0;
                assert(l == list@);
                assert(!alias_cut_ok(split_char(l, ',')[i as int]));
                assert(!select_cuts_ok(sql@));
            }
            return false;
        }
        i = i + 1;
    }
    true
}

/// Checks one summary table's SQL; `None` when an alias cut of its select
/// list does not fall on a character boundary.
pub fn check_summary_sql_guarded(name: &str, sql: &str) -> (r: Option<Result<(), String>>)
    ensures
        match r {
            None => !select_cuts_ok(sql@),
            Some(Ok(())) => select_cuts_ok(sql@) && summary_sql_error(name@, sql@) is None,
            Some(Err(e)) => select_cuts_ok(sql@) && summary_sql_error(name@, sql@) == Some(e@),
        },
{
    if !select_cuts_ok_exec(sql) {
        return None;
    }
    Some(check_summary_sql(name, sql))
}

} // verus!


