//! A JSON document model that the validators read: what `serde_json::Value`
//! holds, as plain values.
use vstd::prelude::*;
use crate::text::{chars_of, seq_eq, split_char, split_chars, replace, replace_chars, parse_u64, parse_u64_exec};

verus! {

/// A JSON number as `serde_json` keeps it.
#[derive(Clone, PartialEq, Debug)]
pub enum JsonNumber {
    /// A non-negative integer.
    PosInt(u64),
    /// A negative integer.
    NegInt(i64),
    /// A floating-point number: its JSON text, and the value that
    /// `as u64` gives of it (saturating, fraction dropped).
    Float { text: String, saturated_u64: u64 },
}

/// A JSON value. Object members keep the order of the source map, and no key
/// occurs twice.
#[derive(PartialEq, Debug)]
pub enum Json {
    Null,
    Bool(bool),
    Number(JsonNumber),
    Str(String),
    Array(Vec<Json>),
    Object(Vec<(String, Json)>),
}

/// A JSON number as plain values.
pub enum NumberV {
    PosInt(u64),
    NegInt(i64),
    Float(Seq<char>, u64),
}

/// A JSON value as plain values: what a `Json` holds, with its strings as
/// character sequences.
pub enum JsonV {
    Null,
    Bool(bool),
    Number(NumberV),
    Str(Seq<char>),
    Array(Seq<JsonV>),
    Object(Seq<(Seq<char>, JsonV)>),
}

pub open spec fn number_view(n: JsonNumber) -> NumberV {
    match n {
        JsonNumber::PosInt(u) => NumberV::PosInt(u),
        JsonNumber::NegInt(i) => NumberV::NegInt(i),
        JsonNumber::Float { text, saturated_u64 } => NumberV::Float(text@, saturated_u64),
    }
}

/// The plain value of a `Json`.
pub open spec fn json_view(j: Json) -> JsonV
    decreases j,
{
    match j {
        Json::Null => JsonV::Null,
        Json::Bool(b) => JsonV::Bool(b),
        Json::Number(n) => JsonV::Number(number_view(n)),
        Json::Str(s) => JsonV::Str(s@),
        Json::Array(v) => JsonV::Array(
            Seq::new(
                v@.len(),
                |i: int|
                    if 0 <= i < v@.len() {
                        json_view(v@[i])
                    } else {
                        JsonV::Null
                    },
            ),
        ),
        Json::Object(m) => JsonV::Object(
            Seq::new(
                m@.len(),
                |i: int|
                    if 0 <= i < m@.len() {
                        (m@[i].0@, json_view(m@[i].1))
                    } else {
                        (Seq::empty(), JsonV::Null)
                    },
            ),
        ),
    }
}

impl View for Json {
    type V = JsonV;

    open spec fn view(&self) -> JsonV {
        json_view(*self)
    }
}

/// The value stored under `key` among `members` (the first such member).
pub open spec fn assoc(members: Seq<(String, Json)>, key: Seq<char>) -> Option<Json>
    decreases members.len(),
{
    if members.len() == 0 {
        None
    } else if members[0].0@ == key {
        Some(members[0].1)
    } else {
        assoc(members.skip(1), key)
    }
}

impl Json {
    /// `Value::get` with a string key.
    pub open spec fn get_spec(self, key: Seq<char>) -> Option<Json> {
        match self {
            Json::Object(m) => assoc(m@, key),
            _ => None,
        }
    }

    /// `value[key]`: the member, or `Null` when there is none.
    pub open spec fn at(self, key: Seq<char>) -> Json {
        match self.get_spec(key) {
            Some(v) => v,
            None => Json::Null,
        }
    }

    pub open spec fn str_spec(self) -> Option<Seq<char>> {
        match self {
            Json::Str(s) => Some(s@),
            _ => None,
        }
    }

    pub open spec fn bool_spec(self) -> Option<bool> {
        match self {
            Json::Bool(b) => Some(b),
            _ => None,
        }
    }

    pub open spec fn u64_spec(self) -> Option<u64> {
        match self {
            Json::Number(JsonNumber::PosInt(n)) => Some(n),
            _ => None,
        }
    }

    pub open spec fn array_spec(self) -> Option<Seq<Json>> {
        match self {
            Json::Array(v) => Some(v@),
            _ => None,
        }
    }

    pub open spec fn is_object(self) -> bool {
        self is Object
    }

    pub open spec fn object_len(self) -> nat {
        match self {
            Json::Object(m) => m@.len(),
            _ => 0,
        }
    }

    /// `Value::get`.
    pub fn get(&self, key: &str) -> (r: Option<&Json>)
        ensures
            match r {
                Some(v) => self.get_spec(key@) == Some(*v),
                None => self.get_spec(key@) is None,
            },
    {
        match self {
            Json::Object(m) => {
                let k = chars_of(key);
                let mut i: usize = 0;
                assert(m@.skip(0) =~= m@);
                while i < m.len()
                    invariant
                        i <= m@.len(),
                        k@ == key@,
                        self.get_spec(key@) == assoc(m@.skip(i as int), key@),
                    decreases m.len() - i,
                {
                    assert(m@.skip(i as int)[0] == m@[i as int]);
                    assert(m@.skip(i as int).skip(1) =~= m@.skip(i + 1));
                    let name = chars_of(m[i].0.as_str());
                    if seq_eq(name.as_slice(), k.as_slice()) {
                        return Some(&m[i].1);
                    }
                    i = i + 1;
                }
                None
            },
            _ => None,
        }
    }

    /// `Value::as_str`.
    pub fn as_str(&self) -> (r: Option<&String>)
        ensures
            match r {
                Some(s) => self.str_spec() == Some(s@),
                None => self.str_spec() is None,
            },
    {
        match self {
            Json::Str(s) => Some(s),
            _ => None,
        }
    }

    /// `Value::as_bool`.
    pub fn as_bool(&self) -> (r: Option<bool>)
        ensures
            r == self.bool_spec(),
    {
        match self {
            Json::Bool(b) => Some(*b),
            _ => None,
        }
    }

    /// `Value::as_u64`.
    pub fn as_u64(&self) -> (r: Option<u64>)
        ensures
            r == self.u64_spec(),
    {
        match self {
            Json::Number(JsonNumber::PosInt(n)) => Some(*n),
            _ => None,
        }
    }

    /// `Value::as_array`.
    pub fn as_array(&self) -> (r: Option<&Vec<Json>>)
        ensures
            match r {
                Some(v) => self.array_spec() == Some(v@),
                None => self.array_spec() is None,
            },
    {
        match self {
            Json::Array(v) => Some(v),
            _ => None,
        }
    }

    pub fn is_null(&self) -> (r: bool)
        ensures
            r == (*self is Null),
    {
        match self {
            Json::Null => true,
            _ => false,
        }
    }

    pub fn is_array(&self) -> (r: bool)
        ensures
            r == (*self is Array),
    {
        match self {
            Json::Array(_) => true,
            _ => false,
        }
    }

    pub fn is_object_exec(&self) -> (r: bool)
        ensures
            r == self.is_object(),
    {
        match self {
            Json::Object(_) => true,
            _ => false,
        }
    }

    /// Number of members of an object (0 for anything else).
    pub fn object_len_exec(&self) -> (r: usize)
        ensures
            r == self.object_len(),
    {
        match self {
            Json::Object(m) => m.len(),
            _ => 0,
        }
    }
}


/// A JSON-pointer reference token with `~1` and `~0` unescaped.
pub open spec fn unescape_token(t: Seq<char>) -> Seq<char> {
    replace(replace(t, seq!['~', '1'], seq!['/']), seq!['~', '0'], seq!['~'])
}

/// An array index in a JSON pointer: no sign, no leading zero, decimal.
pub open spec fn parse_index(t: Seq<char>) -> Option<usize> {
    if (t.len() > 0 && t[0] == '+') || (t.len() > 1 && t[0] == '0') {
        None
    } else {
        match parse_u64(t) {
            Some(n) => if n <= usize::MAX {
                Some(n as usize)
            } else {
                None
            },
            None => None,
        }
    }
}

/// One step of a JSON pointer.
pub open spec fn pointer_step(v: Json, token: Seq<char>) -> Option<Json> {
    match v {
        Json::Object(m) => assoc(m@, token),
        Json::Array(l) => match parse_index(token) {
            Some(i) => if i < l@.len() {
                Some(l@[i as int])
            } else {
                None
            },
            None => None,
        },
        _ => None,
    }
}

pub open spec fn pointer_walk(v: Json, tokens: Seq<Seq<char>>) -> Option<Json>
    decreases tokens.len(),
{
    if tokens.len() == 0 {
        Some(v)
    } else {
        match pointer_step(v, unescape_token(tokens[0])) {
            Some(n) => pointer_walk(n, tokens.skip(1)),
            None => None,
        }
    }
}

/// `Value::pointer`: the value that the JSON pointer `p` designates.
pub open spec fn pointer_spec(v: Json, p: Seq<char>) -> Option<Json> {
    if p.len() == 0 {
        Some(v)
    } else if p[0] != '/' {
        None
    } else {
        pointer_walk(v, split_char(p, '/').skip(1))
    }
}

fn parse_index_exec(t: &[char]) -> (r: Option<usize>)
    ensures
        r == parse_index(t@),
{
    if (t.len() > 0 && t[0] == '+') || (t.len() > 1 && t[0] == '0') {
        return None;
    }
    match parse_u64_exec(t) {
        Some(n) => if n <= usize::MAX as u64 {
            Some(n as usize)
        } else {
            None
        },
        None => None,
    }
}

fn pointer_step_exec<'a>(v: &'a Json, token: &[char]) -> (r: Option<&'a Json>)
    ensures
        match r {
            Some(n) => pointer_step(*v, token@) == Some(*n),
            None => pointer_step(*v, token@) is None,
        },
{
    match v {
        Json::Object(m) => {
            let key = crate::text::string_of(token);
            v.get(key.as_str())
        },
        Json::Array(l) => match parse_index_exec(token) {
            Some(i) => if i < l.len() {
                Some(&l[i])
            } else {
                None
            },
            None => None,
        },
        _ => None,
    }
}

impl Json {
    /// `Value::pointer`.
    pub fn pointer(&self, p: &str) -> (r: Option<&Json>)
        ensures
            match r {
                Some(n) => pointer_spec(*self, p@) == Some(*n),
                None => pointer_spec(*self, p@) is None,
            },
    {
        let pc = chars_of(p);
        if pc.len() == 0 {
            return Some(self);
        }
        if pc[0] != '/' {
            return None;
        }
        let parts = split_chars(pc.as_slice(), '/');
        let ghost tokens = split_char(p@, '/').skip(1);
        proof {
            crate::text::lemma_split_char_nonempty(p@, '/');
        }
        let mut cur: &Json = self;
        let mut i: usize = 1;
        assert(split_char(p@, '/').skip(1).skip(0) =~= tokens);
        while i < parts.len()
            invariant
                1 <= i <= parts@.len(),
                parts@.len() == split_char(p@, '/').len(),
                forall|j: int| 0 <= j < parts@.len() ==> #[trigger] parts@[j]@ == split_char(p@, '/')[j],
                tokens == split_char(p@, '/').skip(1),
                pointer_spec(*self, p@) == pointer_walk(*cur, tokens.skip(i - 1)),
                p@.len() > 0 && p@[0] == '/',
            decreases parts.len() - i,
        {
            let tilde1: Vec<char> = vec!['~', '1'];
            let slash: Vec<char> = vec!['/'];
            let tilde0: Vec<char> = vec!['~', '0'];
            let tilde: Vec<char> = vec!['~'];
            let a = replace_chars(parts[i].as_slice(), tilde1.as_slice(), slash.as_slice());
            let t = replace_chars(a.as_slice(), tilde0.as_slice(), tilde.as_slice());
            assert(tilde1@ =~= seq!['~', '1']);
            assert(slash@ =~= seq!['/']);
            assert(tilde0@ =~= seq!['~', '0']);
            assert(tilde@ =~= seq!['~']);
            assert(tokens.skip(i - 1)[0] == parts@[i as int]@);
            assert(tokens.skip(i - 1).skip(1) =~= tokens.skip(i as int));
            match pointer_step_exec(cur, t.as_slice()) {
                Some(n) => {
                    cur = n;
                },
                None => {
                    return None;
                },
            }
            i = i + 1;
        }
        assert(tokens.skip(i - 1).len() == 0);
        Some(cur)
    }
}

/// A copy of a JSON number.
pub fn copy_number(n: &JsonNumber) -> (r: JsonNumber)
    ensures
        number_view(r) == number_view(*n),
{
    match n {
        JsonNumber::PosInt(u) => JsonNumber::PosInt(*u),
        JsonNumber::NegInt(i) => JsonNumber::NegInt(*i),
        JsonNumber::Float { text, saturated_u64 } => JsonNumber::Float { text: text.clone(), saturated_u64: *saturated_u64 },
    }
}

/// A copy of a JSON value.
pub fn copy_json(v: &Json) -> (r: Json)
    ensures
        r@ == v@,
    decreases v,
{
    match v {
        Json::Null => Json::Null,
        Json::Bool(b) => Json::Bool(*b),
        Json::Number(n) => Json::Number(copy_number(n)),
        Json::Str(s) => Json::Str(s.clone()),
        Json::Array(items) => {
            let mut out: Vec<Json> = Vec::new();
            let mut i: usize = 0;
            assert forall|j: int| 0 <= j < items@.len() implies decreases_to!(*v => #[trigger] items@[j]) by {
                assert(decreases_to!(*v => *items));
                assert(decreases_to!(*items => items@));
                assert(decreases_to!(items@ => items@[j]));
            }
            while i < items.len()
                invariant
                    i <= items@.len(),
                    out@.len() == i,
                    forall|j: int| 0 <= j < items@.len() ==> decreases_to!(*v => #[trigger] items@[j]),
                    forall|j: int| 0 <= j < i ==> json_view(#[trigger] out@[j]) == json_view(items@[j]),
                decreases items.len() - i,
            {
                let c = copy_json(&items[i]);
                out.push(c);
                i = i + 1;
            }
            let r = Json::Array(out);
            assert(json_view(r)->Array_0 =~= json_view(*v)->Array_0);
            r
        },
        Json::Object(m) => {
            let mut out: Vec<(String, Json)> = Vec::new();
            let mut i: usize = 0;
            assert forall|j: int| 0 <= j < m@.len() implies decreases_to!(*v => #[trigger] m@[j].1) by {
                assert(decreases_to!(*v => *m));
                assert(decreases_to!(*m => m@));
                assert(decreases_to!(m@ => m@[j]));
                assert(decreases_to!(m@[j] => m@[j].1));
            }
            while i < m.len()
                invariant
                    i <= m@.len(),
                    out@.len() == i,
                    forall|j: int| 0 <= j < m@.len() ==> decreases_to!(*v => #[trigger] m@[j].1),
                    forall|j: int| 0 <= j < i ==> (#[trigger] out@[j]).0@ == m@[j].0@ && json_view(out@[j].1) == json_view(m@[j].1),
                decreases m.len() - i,
            {
                let c = copy_json(&m[i].1);
                out.push((m[i].0.clone(), c));
                i = i + 1;
            }
            let r = Json::Object(out);
            assert(json_view(r)->Object_0 =~= json_view(*v)->Object_0);
            r
        },
    }
}

/// The plain value of an object with these members.
pub open spec fn members_view(m: Seq<(String, Json)>) -> Seq<(Seq<char>, JsonV)> {
    Seq::new(m.len(), |i: int| (m[i].0@, m[i].1@))
}

/// An object with these members, in this order.
pub fn object_of(members: Vec<(String, Json)>) -> (r: Json)
    ensures
        r@ == JsonV::Object(members_view(members@)),
{
    let ghost m = members@;
    let r = Json::Object(members);
    assert(json_view(r)->Object_0 =~= members_view(m));
    r
}

/// A member: `key` and its value.
pub fn member(key: &str, value: Json) -> (r: (String, Json))
    ensures
        r.0@ == key@,
        r.1 == value,
{
    (key.to_string(), value)
}

/// A JSON string.
pub fn json_str(s: &str) -> (r: Json)
    ensures
        r@ == JsonV::Str(s@),
{
    Json::Str(s.to_string())
}

/// A non-negative JSON integer.
pub fn json_uint(n: u64) -> (r: Json)
    ensures
        r@ == JsonV::Number(NumberV::PosInt(n)),
{
    Json::Number(JsonNumber::PosInt(n))
}

/// A JSON boolean.
pub fn json_bool(b: bool) -> (r: Json)
    ensures
        r@ == JsonV::Bool(b),
{
    Json::Bool(b)
}

} // verus!

