//! Project names for a remote deployment.
use vstd::prelude::*;
use crate::text::{
    alnum, append, chars_of, digit, is_alnum, is_digit, is_lower, is_upper, is_ws, lower_char,
    str_trim, to_lower_char, trim, trim_end, trim_start, whitespace,
};

verus! {

broadcast use vstd::string::group_string_axioms;

/// Characters that a project name may be written with: ASCII letters and
/// digits, `_`, and `-` or whitespace (which become `_`).
pub open spec fn name_char_ok(c: char) -> bool {
    c == '-' || is_ws(c) || is_alnum(c) || c == '_'
}

/// The character that stands for `c` in the sanitized name.
pub open spec fn name_char_map(c: char) -> char {
    if c == '-' || is_ws(c) {
        '_'
    } else {
        lower_char(c)
    }
}

/// Maps the characters left to right; stops at the first one that is not
/// allowed and gives it back.
pub open spec fn map_name_chars(s: Seq<char>) -> Result<Seq<char>, char>
    decreases s.len(),
{
    if s.len() == 0 {
        Ok(Seq::empty())
    } else {
        match map_name_chars(s.drop_last()) {
            Err(c) => Err(c),
            Ok(r) => if name_char_ok(s.last()) {
                Ok(r.push(name_char_map(s.last())))
            } else {
                Err(s.last())
            },
        }
    }
}

pub open spec fn invalid_char_message(c: char, name: Seq<char>) -> Seq<char> {
    "project name has invalid character '"@ + seq![c]
        + "' (must be ASCII letters, digits, or underscores): "@ + name
}

pub open spec fn leading_digit_message(c: char, name: Seq<char>) -> Seq<char> {
    "project name must start with a letter, got '"@ + seq![c] + "': "@ + name
}

/// What `sanitize_project_name` gives for `name`.
pub open spec fn sanitize_spec(name: Seq<char>) -> Result<Seq<char>, Seq<char>> {
    let t = trim(name);
    if t.len() == 0 {
        Err("project name is empty"@)
    } else {
        match map_name_chars(t) {
            Err(c) => Err(invalid_char_message(c, name)),
            Ok(out) => if is_digit(out[0]) {
                Err(leading_digit_message(out[0], name))
            } else {
                Ok(out)
            },
        }
    }
}

/// A name that a remote project can have: lower-case ASCII letters, digits
/// and `_`, not empty and not starting with a digit.
pub open spec fn is_project_name(s: Seq<char>) -> bool {
    &&& s.len() > 0
    &&& !is_digit(s[0])
    &&& forall|i: int| 0 <= i < s.len() ==> is_lower(#[trigger] s[i]) || is_digit(s[i]) || s[i] == '_'
}

proof fn lemma_map_name_chars(s: Seq<char>)
    ensures
        match map_name_chars(s) {
            Ok(r) => r.len() == s.len() && forall|i: int|
                0 <= i < s.len() ==> name_char_ok(#[trigger] s[i]) && r[i] == name_char_map(s[i]),
            Err(c) => !name_char_ok(c),
        },
    decreases s.len(),
{
    if s.len() > 0 {
        lemma_map_name_chars(s.drop_last());
        if let Ok(r) = map_name_chars(s) {
            assert forall|i: int| 0 <= i < s.len() implies name_char_ok(#[trigger] s[i]) && r[i]
                == name_char_map(s[i]) by {
                if i < s.len() - 1 {
                    assert(s[i] == s.drop_last()[i]);
                }
            }
        }
    }
}

proof fn lemma_map_name_chars_of_mapped(s: Seq<char>)
    requires
        forall|i: int| 0 <= i < s.len() ==> is_lower(#[trigger] s[i]) || is_digit(s[i]) || s[i] == '_',
    ensures
        map_name_chars(s) == Ok::<Seq<char>, char>(s),
    decreases s.len(),
{
    if s.len() > 0 {
        lemma_map_name_chars_of_mapped(s.drop_last());
        assert(s.drop_last().push(s.last()) =~= s);
        let c = s.last();
        assert(is_lower(c) || is_digit(c) || c == '_');
        assert(!is_ws(c));
        assert(name_char_map(c) == c);
        assert(name_char_ok(c));
        assert(map_name_chars(s) == Ok::<Seq<char>, char>(s.drop_last().push(c)));
    } else {
        assert(s =~= Seq::<char>::empty());
    }
}

proof fn lemma_trim_start_no_ws(s: Seq<char>)
    requires
        s.len() > 0 ==> !is_ws(s[0]),
    ensures
        trim_start(s) == s,
{
}

proof fn lemma_trim_end_no_ws(s: Seq<char>)
    requires
        s.len() > 0 ==> !is_ws(s.last()),
    ensures
        trim_end(s) == s,
{
}

/// A sanitized name is a valid project name, and sanitizing it again gives it
/// back unchanged.
pub proof fn lemma_sanitize_canonical(name: Seq<char>)
    requires
        sanitize_spec(name) is Ok,
    ensures
        is_project_name(sanitize_spec(name)->Ok_0),
        sanitize_spec(sanitize_spec(name)->Ok_0) == sanitize_spec(name),
{
    let t = trim(name);
    lemma_map_name_chars(t);
    let out = sanitize_spec(name)->Ok_0;
    assert forall|i: int| 0 <= i < out.len() implies is_lower(#[trigger] out[i]) || is_digit(out[i])
        || out[i] == '_' by {
        let c = t[i];
        assert(name_char_ok(c));
        assert(out[i] == name_char_map(c));
    }
    assert(!is_ws(out[0]));
    assert(!is_ws(out.last())) by {
        assert(is_lower(out[out.len() - 1]) || is_digit(out[out.len() - 1]) || out[out.len() - 1] == '_');
    }
    lemma_trim_start_no_ws(out);
    lemma_trim_end_no_ws(out);
    lemma_map_name_chars_of_mapped(out);
}

proof fn lemma_map_name_chars_ok(s: Seq<char>)
    ensures
        map_name_chars(s) is Ok <==> forall|i: int| 0 <= i < s.len() ==> name_char_ok(#[trigger] s[i]),
        map_name_chars(s) is Ok ==> map_name_chars(s)->Ok_0 == s.map_values(|c: char| name_char_map(c)),
    decreases s.len(),
{
    if s.len() > 0 {
        lemma_map_name_chars_ok(s.drop_last());
        let d = s.drop_last();
        assert forall|i: int| 0 <= i < d.len() implies d[i] == s[i] by {}
        if map_name_chars(s) is Ok {
            assert(s.map_values(|c: char| name_char_map(c)) =~= d.map_values(|c: char| name_char_map(c)).push(
                name_char_map(s.last()),
            ));
        }
        if !(map_name_chars(d) is Ok) {
            let i = choose|i: int| 0 <= i < d.len() && !name_char_ok(#[trigger] d[i]);
            assert(!name_char_ok(s[i]));
        }
    } else {
        assert(s.map_values(|c: char| name_char_map(c)) =~= Seq::<char>::empty());
    }
}

/// A bundle name can be a project name exactly when, once trimmed, it is not
/// empty, holds only ASCII letters, digits, `_`, `-` and whitespace, and does
/// not start with a digit; the project name is then the trimmed name with
/// `-` and whitespace turned into `_` and letters lower-cased.
pub proof fn lemma_sanitize_closed_form(name: Seq<char>)
    ensures
        sanitize_spec(name) is Ok <==> ({
            let t = trim(name);
            &&& t.len() > 0
            &&& forall|i: int| 0 <= i < t.len() ==> name_char_ok(#[trigger] t[i])
            &&& !is_digit(t[0])
        }),
        sanitize_spec(name) is Ok ==> sanitize_spec(name)->Ok_0 == trim(name).map_values(|c: char| name_char_map(c)),
{
    let t = trim(name);
    lemma_map_name_chars_ok(t);
    if t.len() > 0 && map_name_chars(t) is Ok {
        let out = map_name_chars(t)->Ok_0;
        let c = t[0];
        assert(out[0] == name_char_map(c));
        assert(is_digit(out[0]) <==> is_digit(c));
    }
}

/// Turns a bundle name into a remote project name: surrounding whitespace
/// removed, `-` and whitespace turned into `_`, letters lower-cased. Fails on
/// an empty name, on any other character, and on a leading digit.
pub fn sanitize_project_name(name: &str) -> (r: Result<String, String>)
    ensures
        match r {
            Ok(s) => sanitize_spec(name@) == Ok::<Seq<char>, Seq<char>>(s@),
            Err(e) => sanitize_spec(name@) == Err::<Seq<char>, Seq<char>>(e@),
        },
{
    let trimmed = str_trim(name);
    let t = chars_of(trimmed.as_str());
    if t.len() == 0 {
        return Err("project name is empty".to_string());
    }
    let mut out = String::new();
    let mut i: usize = 0;
    while i < t.len()
        invariant
            i <= t@.len(),
            t@ == trim(name@),
            map_name_chars(t@.take(i as int)) == Ok::<Seq<char>, char>(out@),
        decreases t.len() - i,
    {
        let c = t[i];
        assert(t@.take(i + 1).drop_last() =~= t@.take(i as int));
        assert(t@.take(i + 1).last() == c);
        let mapped = if c == '-' || whitespace(c) {
            '_'
        } else if alnum(c) || c == '_' {
            to_lower_char(c)
        } else {
            let mut e = "project name has invalid character '".to_string();
            e.push(c);
            append(&mut e, "' (must be ASCII letters, digits, or underscores): ");
            append(&mut e, name);
            assert(e@ =~= invalid_char_message(c, name@));
            assert(map_name_chars(t@.take(i + 1)) == Err::<Seq<char>, char>(c));
            assert(map_name_chars(t@) == Err::<Seq<char>, char>(c)) by {
                lemma_map_name_chars_prefix(t@, i as int + 1);
            }
            return Err(e);
        };
        out.push(mapped);
        i = i + 1;
    }
    assert(t@.take(t@.len() as int) =~= t@);
    let o = chars_of(out.as_str());
    if digit(o[0]) {
        let mut e = "project name must start with a letter, got '".to_string();
        e.push(o[0]);
        append(&mut e, "': ");
        append(&mut e, name);
        assert(e@ =~= leading_digit_message(o@[0], name@));
        return Err(e);
    }
    Ok(out)
}

/// Once a prefix fails, the whole sequence fails with the same character.
proof fn lemma_map_name_chars_prefix(s: Seq<char>, k: int)
    requires
        0 <= k <= s.len(),
        map_name_chars(s.take(k)) is Err,
    ensures
        map_name_chars(s) == map_name_chars(s.take(k)),
    decreases s.len() - k,
{
    if k < s.len() {
        assert(s.take(k + 1).drop_last() =~= s.take(k));
        lemma_map_name_chars_prefix(s, k + 1);
    } else {
        assert(s.take(k) =~= s);
    }
}

} // verus!
