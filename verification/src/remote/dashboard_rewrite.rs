//! Pointing every datasource reference of a dashboard at one datasource.
use vstd::prelude::*;
use crate::json::{Json, JsonV};
use crate::text::str_eq;

verus! {

broadcast use vstd::string::group_string_axioms;

/// `v` with every member named `uid` set to the string `t`, when `v` is an
/// object; any other value is unchanged.
pub open spec fn set_uid(v: JsonV, t: Seq<char>) -> JsonV {
    match v {
        JsonV::Object(m) => JsonV::Object(
            Seq::new(
                m.len(),
                |i: int|
                    if m[i].0 == "uid"@ {
                        (m[i].0, JsonV::Str(t))
                    } else {
                        m[i]
                    },
            ),
        ),
        _ => v,
    }
}

/// Every object member named `datasource`, at any depth, whose value is an
/// object has its `uid` member set to `t`; nothing else changes.
pub open spec fn rewrite_uids(v: JsonV, t: Seq<char>) -> JsonV
    decreases v,
{
    match v {
        JsonV::Array(items) => JsonV::Array(
            Seq::new(
                items.len(),
                |i: int|
                    if 0 <= i < items.len() {
                        rewrite_uids(items[i], t)
                    } else {
                        JsonV::Null
                    },
            ),
        ),
        JsonV::Object(m) => JsonV::Object(
            Seq::new(
                m.len(),
                |i: int|
                    if 0 <= i < m.len() {
                        (
                            m[i].0,
                            if m[i].0 == "datasource"@ {
                                set_uid(rewrite_uids(m[i].1, t), t)
                            } else {
                                rewrite_uids(m[i].1, t)
                            },
                        )
                    } else {
                        (Seq::empty(), JsonV::Null)
                    },
            ),
        ),
        _ => v,
    }
}

proof fn lemma_set_uid_twice(v: JsonV, t: Seq<char>)
    ensures
        set_uid(set_uid(v, t), t) == set_uid(v, t),
{
    if v is Object {
        assert(set_uid(set_uid(v, t), t)->Object_0 =~= set_uid(v, t)->Object_0);
    }
}

proof fn lemma_rewrite_set_uid(v: JsonV, t: Seq<char>)
    ensures
        rewrite_uids(set_uid(v, t), t) == set_uid(rewrite_uids(v, t), t),
{
    if v is Object {
        let m = v->Object_0;
        let a = rewrite_uids(set_uid(v, t), t);
        let b = set_uid(rewrite_uids(v, t), t);
        assert forall|i: int| 0 <= i < m.len() implies a->Object_0[i] == b->Object_0[i] by {
            if m[i].0 == "uid"@ {
                assert(rewrite_uids(JsonV::Str(t), t) == JsonV::Str(t));
            }
        }
        assert(a->Object_0 =~= b->Object_0);
    }
}

/// Rewriting a dashboard a second time with the same uid changes nothing.
pub proof fn lemma_rewrite_idempotent(v: JsonV, t: Seq<char>)
    ensures
        rewrite_uids(rewrite_uids(v, t), t) == rewrite_uids(v, t),
    decreases v,
{
    match v {
        JsonV::Array(items) => {
            let a = rewrite_uids(rewrite_uids(v, t), t);
            let b = rewrite_uids(v, t);
            assert forall|i: int| 0 <= i < items.len() implies a->Array_0[i] == b->Array_0[i] by {
                lemma_rewrite_idempotent(items[i], t);
            }
            assert(a->Array_0 =~= b->Array_0);
        },
        JsonV::Object(m) => {
            let a = rewrite_uids(rewrite_uids(v, t), t);
            let b = rewrite_uids(v, t);
            assert forall|i: int| 0 <= i < m.len() implies a->Object_0[i] == b->Object_0[i] by {
                let x = m[i].1;
                lemma_rewrite_idempotent(x, t);
                if m[i].0 == "datasource"@ {
                    lemma_rewrite_set_uid(rewrite_uids(x, t), t);
                    lemma_set_uid_twice(rewrite_uids(x, t), t);
                }
            }
            assert(a->Object_0 =~= b->Object_0);
        },
        _ => {},
    }
}

/// Sets the `uid` members of an object to `t`.
fn with_uid(v: Json, t: &str) -> (r: Json)
    ensures
        r@ == set_uid(v@, t@),
{
    match v {
        Json::Object(m) => {
            let ghost orig = m@;
            let mut rest = m;
            let mut out: Vec<(String, Json)> = Vec::new();
            let ghost n = orig.len();
            while rest.len() > 0
                invariant
                    out@.len() + rest@.len() == n,
                    orig.len() == n,
                    rest@ == orig.skip(out@.len() as int),
                    forall|j: int|
                        0 <= j < out@.len() ==> (#[trigger] out@[j]).0@ == orig[j].0@ && (
                        if orig[j].0@ == "uid"@ {
                            json_view(out@[j].1) == JsonV::Str(t@)
                        } else {
                            json_view(out@[j].1) == json_view(orig[j].1)
                        }),
                decreases rest.len(),
            {
                let ghost k = out@.len() as int;
                assert(rest@[0] == orig[k]);
                let (key, val) = rest.remove(0);
                assert(rest@ =~= orig.skip(k + 1));
                if str_eq(key.as_str(), "uid") {
                    out.push((key, Json::Str(t.to_string())));
                } else {
                    out.push((key, val));
                }
            }
            let r = Json::Object(out);
            assert(r@ == set_uid(Json::Object(m)@, t@)) by {
                let a = json_view(r);
                let b = set_uid(json_view(Json::Object(m)), t@);
                assert(a->Object_0 =~= b->Object_0);
            }
            r
        },
        _ => v,
    }
}

use crate::json::json_view;

/// The rewritten value, built from `v`.
fn rewritten(v: Json, t: &str) -> (r: Json)
    ensures
        r@ == rewrite_uids(v@, t@),
    decreases v,
{
    match v {
        Json::Array(items) => {
            let ghost orig = items@;
            let mut rest = items;
            let mut out: Vec<Json> = Vec::new();
            let ghost n = orig.len();
            assert forall|j: int| 0 <= j < n implies decreases_to!(v => #[trigger] orig[j]) by {
                assert(decreases_to!(v => items));
                assert(decreases_to!(items => items@));
                assert(decreases_to!(items@ => items@[j]));
            }
            while rest.len() > 0
                invariant
                    out@.len() + rest@.len() == n,
                    orig.len() == n,
                    forall|j: int| 0 <= j < n ==> decreases_to!(v => #[trigger] orig[j]),
                    rest@ == orig.skip(out@.len() as int),
                    forall|j: int|
                        0 <= j < out@.len() ==> json_view(#[trigger] out@[j])
                            == rewrite_uids(json_view(orig[j]), t@),
                decreases rest.len(),
            {
                let ghost k = out@.len() as int;
                assert(rest@[0] == orig[k]);
                let x = rest.remove(0);
                assert(rest@ =~= orig.skip(k + 1));
                assert(decreases_to!(v => orig[k]));
                let y = rewritten(x, t);
                out.push(y);
            }
            let r = Json::Array(out);
            assert(r@ == rewrite_uids(Json::Array(items)@, t@)) by {
                let a = json_view(r);
                let b = rewrite_uids(json_view(Json::Array(items)), t@);
                assert(a->Array_0 =~= b->Array_0);
            }
            r
        },
        Json::Object(m) => {
            let ghost orig = m@;
            let mut rest = m;
            let mut out: Vec<(String, Json)> = Vec::new();
            let ghost n = orig.len();
            assert forall|j: int| 0 <= j < n implies decreases_to!(v => #[trigger] orig[j].1) by {
                assert(decreases_to!(v => m));
                assert(decreases_to!(m => m@));
                assert(decreases_to!(m@ => m@[j]));
                assert(decreases_to!(m@[j] => m@[j].1));
            }
            while rest.len() > 0
                invariant
                    out@.len() + rest@.len() == n,
                    orig.len() == n,
                    forall|j: int| 0 <= j < n ==> decreases_to!(v => #[trigger] orig[j].1),
                    rest@ == orig.skip(out@.len() as int),
                    forall|j: int|
                        0 <= j < out@.len() ==> (#[trigger] out@[j]).0@ == orig[j].0@ && json_view(
                            out@[j].1,
                        ) == (if orig[j].0@ == "datasource"@ {
                            set_uid(rewrite_uids(json_view(orig[j].1), t@), t@)
                        } else {
                            rewrite_uids(json_view(orig[j].1), t@)
                        }),
                decreases rest.len(),
            {
                let ghost k = out@.len() as int;
                assert(rest@[0] == orig[k]);
                let (key, val) = rest.remove(0);
                assert(rest@ =~= orig.skip(k + 1));
                assert(decreases_to!(v => orig[k].1));
                let w = rewritten(val, t);
                if str_eq(key.as_str(), "datasource") {
                    let w2 = with_uid(w, t);
                    out.push((key, w2));
                } else {
                    out.push((key, w));
                }
            }
            let r = Json::Object(out);
            assert(r@ == rewrite_uids(Json::Object(m)@, t@)) by {
                let a = json_view(r);
                let b = rewrite_uids(json_view(Json::Object(m)), t@);
                assert(a->Object_0 =~= b->Object_0);
            }
            r
        },
        _ => v,
    }
}

/// Points every `datasource.uid` in the dashboard, at any depth (panels,
/// rows, template variables, library elements), at `target_uid`.
pub fn rewrite_datasource_uid(dashboard: &mut Json, target_uid: &str)
    ensures
        final(dashboard)@ == rewrite_uids(old(dashboard)@, target_uid@),
{
    let mut v = Json::Null;
    std::mem::swap(&mut v, dashboard);
    *dashboard = rewritten(v, target_uid);
}

} // verus!
