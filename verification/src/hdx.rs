//! Hydrolix cluster settings, project and table names, and the rules of the
//! ingest retries.
use vstd::prelude::*;

pub mod dependencies;
pub mod resources;
pub mod table;
pub mod dictionaries;
pub mod shared;
pub mod auth;
pub mod project;

use crate::ext::{is_alphanumeric, is_hyphenated_uuid, new_uuid_v4, parse_u64_error_spec, parse_u64_std};
use crate::text::{append, chars_of, concat, is_alnum, parse_u64, str_contains, contains, str_trim, trim, string_of};

verus! {

broadcast use vstd::string::group_string_axioms;

/// The cluster settings read from the environment, and whether the run is a
/// remote deployment. An unset variable is the empty string.
pub struct HdxEnv {
    pub is_remote: bool,
    /// `BUNDLE_TESTING_CLUSTER`
    pub testing_cluster: String,
    /// `BUNDLE_TESTING_USERNAME`
    pub testing_username: String,
    /// `BUNDLE_TESTING_PASSWORD`
    pub testing_password: String,
    /// `REMOTE_HYDROLIX_CLUSTER`
    pub remote_cluster: String,
    /// `REMOTE_ORG_UUID`
    pub remote_org_uuid: String,
    /// `REMOTE_HYDROLIX_USERNAME`
    pub remote_username: String,
    /// `REMOTE_HYDROLIX_PASSWORD`
    pub remote_password: String,
}

pub open spec fn remote_cluster_default() -> Seq<char> {
    "demo.trafficpeak.live"@
}

pub open spec fn remote_org_uuid_default() -> Seq<char> {
    "c1834e11-9716-4971-9a5f-d8c07f4f6b3a"@
}

pub open spec fn testing_org_uuid() -> Seq<char> {
    "25a47323-9d41-40f7-b2a2-de3fe500135a"@
}

pub open spec fn testing_project_uuid() -> Seq<char> {
    "3338ec5e-39f5-496d-a36d-d0ae97216ecb"@
}

pub open spec fn testing_project_name() -> Seq<char> {
    "bundle_verification"@
}

/// The active Hydrolix cluster hostname: in remote mode the remote cluster
/// when set, else the demo cluster; otherwise the testing cluster.
pub fn cluster(env: &HdxEnv) -> (r: String)
    ensures
        r@ == if env.is_remote {
            if env.remote_cluster@.len() > 0 {
                env.remote_cluster@
            } else {
                remote_cluster_default()
            }
        } else {
            env.testing_cluster@
        },
{
    if env.is_remote {
        if !env.remote_cluster.as_str().is_empty() {
            env.remote_cluster.clone()
        } else {
            "demo.trafficpeak.live".to_string()
        }
    } else {
        env.testing_cluster.clone()
    }
}

/// The active cluster username: the remote one in remote mode when set,
/// else the testing one.
pub fn username(env: &HdxEnv) -> (r: String)
    ensures
        r@ == if env.is_remote && env.remote_username@.len() > 0 {
            env.remote_username@
        } else {
            env.testing_username@
        },
{
    if env.is_remote && !env.remote_username.as_str().is_empty() {
        env.remote_username.clone()
    } else {
        env.testing_username.clone()
    }
}

/// The active cluster password: the remote one in remote mode when set,
/// else the testing one.
pub fn password(env: &HdxEnv) -> (r: String)
    ensures
        r@ == if env.is_remote && env.remote_password@.len() > 0 {
            env.remote_password@
        } else {
            env.testing_password@
        },
{
    if env.is_remote && !env.remote_password.as_str().is_empty() {
        env.remote_password.clone()
    } else {
        env.testing_password.clone()
    }
}

/// The active org uuid: `REMOTE_ORG_UUID` when it is set, in every mode;
/// otherwise the demo cluster's in remote mode and the testing org in the
/// others.
pub fn org_uuid(env: &HdxEnv) -> (r: String)
    ensures
        r@ == if env.remote_org_uuid@.len() > 0 {
            env.remote_org_uuid@
        } else if env.is_remote {
            remote_org_uuid_default()
        } else {
            testing_org_uuid()
        },
{
    if !env.remote_org_uuid.as_str().is_empty() {
        env.remote_org_uuid.clone()
    } else if env.is_remote {
        "c1834e11-9716-4971-9a5f-d8c07f4f6b3a".to_string()
    } else {
        "25a47323-9d41-40f7-b2a2-de3fe500135a".to_string()
    }
}

/// The project name: the one set for a `--guid` run, else the testing
/// project.
pub fn get_project_name(guid_project_name: &Option<String>) -> (r: String)
    ensures
        r@ == match guid_project_name {
            Some(n) => n@,
            None => testing_project_name(),
        },
{
    match guid_project_name {
        Some(n) => n.clone(),
        None => "bundle_verification".to_string(),
    }
}

/// The project uuid: the one set for a `--guid` run, else the testing
/// project's.
pub fn get_project_uuid(guid_project_uuid: &Option<String>) -> (r: String)
    ensures
        r@ == match guid_project_uuid {
            Some(u) => u@,
            None => testing_project_uuid(),
        },
{
    match guid_project_uuid {
        Some(u) => u.clone(),
        None => "3338ec5e-39f5-496d-a36d-d0ae97216ecb".to_string(),
    }
}

/// The project of a `--guid` run: its name and uuid, set at most once.
pub struct GuidProject {
    set: Option<(String, String)>,
}

impl GuidProject {
    /// The name and uuid that were set, if any.
    pub closed spec fn value(&self) -> Option<(Seq<char>, Seq<char>)> {
        match self.set {
            Some((n, u)) => Some((n@, u@)),
            None => None,
        }
    }

    /// Nothing set yet.
    pub fn new() -> (r: Self)
        ensures
            r.value() is None,
    {
        GuidProject { set: None }
    }

    /// Sets the name and uuid; a second setting is refused and changes
    /// nothing.
    pub fn set(&mut self, name: String, uuid: String) -> (r: Result<(), String>)
        ensures
            old(self).value() is None ==> r is Ok && final(self).value() == Some((name@, uuid@)),
            old(self).value() is Some ==> (r matches Err(e) && e@ == "GUID project name already set"@)
                && final(self).value() == old(self).value(),
    {
        if self.set.is_some() {
            return Err("GUID project name already set".to_string());
        }
        self.set = Some((name, uuid));
        Ok(())
    }

    /// The project name: the one set, else the testing project.
    pub fn project_name(&self) -> (r: String)
        ensures
            r@ == match self.value() {
                Some((n, _)) => n,
                None => testing_project_name(),
            },
    {
        match &self.set {
            Some((n, _)) => n.clone(),
            None => "bundle_verification".to_string(),
        }
    }

    /// The project uuid: the one set, else the testing project's.
    pub fn project_uuid(&self) -> (r: String)
        ensures
            r@ == match self.value() {
                Some((_, u)) => u,
                None => testing_project_uuid(),
            },
    {
        match &self.set {
            Some((_, u)) => u.clone(),
            None => "3338ec5e-39f5-496d-a36d-d0ae97216ecb".to_string(),
        }
    }
}

/// The name of the testing project.
pub fn create_project_name() -> (r: String)
    ensures
        r@ == testing_project_name(),
{
    "bundle_verification".to_string()
}

/// The shared project's name: `SHARED_PROJECT_NAME` when set, else
/// "commons".
pub fn get_shared_project_name(shared_project_env: &Option<String>) -> (r: String)
    ensures
        r@ == match shared_project_env {
            Some(n) => n@,
            None => "commons"@,
        },
{
    match shared_project_env {
        Some(n) => n.clone(),
        None => "commons".to_string(),
    }
}

// ---------------------------------------------------------------------------
// Generated names
// ---------------------------------------------------------------------------

/// The first `n` characters of `s` that are ASCII letters or digits, in
/// order.
pub open spec fn first_alnum(s: Seq<char>, n: nat) -> Seq<char>
    decreases s.len(),
{
    if s.len() == 0 || n == 0 {
        Seq::empty()
    } else if is_alnum(s[0]) {
        seq![s[0]] + first_alnum(s.skip(1), (n - 1) as nat)
    } else {
        first_alnum(s.skip(1), n)
    }
}

/// The first ten alphanumeric characters of an ASCII string.
fn ten_alnum(s: &str) -> (r: String)
    requires
        forall|j: int| 0 <= j < s@.len() ==> (#[trigger] s@[j] as u32) < 128,
    ensures
        r@ == first_alnum(s@, 10),
{
    let cs = chars_of(s);
    let mut out: Vec<char> = Vec::new();
    let mut i: usize = 0;
    assert(cs@.skip(0) =~= cs@);
    while i < cs.len() && out.len() < 10
        invariant
            i <= cs@.len(),
            out@.len() <= 10,
            cs@ == s@,
            forall|j: int| 0 <= j < s@.len() ==> (#[trigger] s@[j] as u32) < 128,
            first_alnum(s@, 10) == out@ + first_alnum(cs@.skip(i as int), (10 - out@.len()) as nat),
        decreases cs.len() - i,
    {
        assert(cs@.skip(i as int).skip(1) =~= cs@.skip(i + 1));
        assert(cs@.skip(i as int)[0] == cs@[i as int]);
        if is_alphanumeric(cs[i]) {
            let ghost before = out@;
            out.push(cs[i]);
            assert(before + (seq![cs@[i as int]] + first_alnum(cs@.skip(i + 1), (10 - before.len() - 1) as nat))
                =~= out@ + first_alnum(cs@.skip(i + 1), (10 - out@.len()) as nat));
        }
        i = i + 1;
    }
    assert(first_alnum(cs@.skip(i as int), (10 - out@.len()) as nat) =~= Seq::<char>::empty());
    string_of(out.as_slice())
}

/// In a hyphenated uuid, the first ten alphanumeric characters are the first
/// ten of its hex digits: ten lower-case ASCII letters or digits.
proof fn lemma_uuid_first_alnum(u: Seq<char>)
    requires
        is_hyphenated_uuid(u),
    ensures
        first_alnum(u, 10).len() == 10,
        forall|i: int| 0 <= i < 10 ==> crate::ext::is_lower_hex(#[trigger] first_alnum(u, 10)[i]),
{
    let a = u.skip(0);
    assert(a =~= u);
    lemma_first_alnum_hex(u, 0, 10);
}

/// From position `k` of a hyphenated uuid there are enough hex digits left.
proof fn lemma_first_alnum_hex(u: Seq<char>, k: int, n: nat)
    requires
        is_hyphenated_uuid(u),
        0 <= k <= 36,
        n <= hex_left(k),
    ensures
        first_alnum(u.skip(k), n).len() == n,
        forall|i: int| 0 <= i < n ==> crate::ext::is_lower_hex(#[trigger] first_alnum(u.skip(k), n)[i]),
    decreases 36 - k,
{
    if k < 36 && n > 0 {
        let c = u[k];
        assert(u.skip(k)[0] == c);
        assert(u.skip(k).skip(1) =~= u.skip(k + 1));
        lemma_first_alnum_hex(u, k + 1, if k == 8 || k == 13 || k == 18 || k == 23 { n } else { (n - 1) as nat });
        if !(k == 8 || k == 13 || k == 18 || k == 23) {
            assert(crate::ext::is_lower_hex(c));
            assert(is_alnum(c));
            let r = first_alnum(u.skip(k), n);
            let t = first_alnum(u.skip(k + 1), (n - 1) as nat);
            assert(r == seq![c] + t);
            assert forall|i: int| 0 <= i < n implies crate::ext::is_lower_hex(#[trigger] r[i]) by {
                if i > 0 {
                    assert(r[i] == t[i - 1]);
                }
            }
        } else {
            assert(c == '-');
            assert(!is_alnum(c));
        }
    }
}

/// The hex digits of a hyphenated uuid from position `k` on.
spec fn hex_left(k: int) -> nat {
    if k <= 8 {
        (32 - k) as nat
    } else if k <= 13 {
        (33 - k) as nat
    } else if k <= 18 {
        (34 - k) as nat
    } else if k <= 23 {
        (35 - k) as nat
    } else if k <= 36 {
        (36 - k) as nat
    } else {
        0
    }
}

/// A name made of `prefix` and ten lower-case ASCII letters or digits.
pub open spec fn is_prefixed_name(s: Seq<char>, prefix: Seq<char>) -> bool {
    &&& s.len() == prefix.len() + 10
    &&& s.take(prefix.len() as int) == prefix
    &&& forall|i: int| prefix.len() <= i < s.len() ==> crate::ext::is_lower_hex(#[trigger] s[i])
}

/// Ten alphanumeric characters of a fresh random uuid.
fn random_suffix() -> (r: String)
    ensures
        r@.len() == 10,
        forall|i: int| 0 <= i < 10 ==> crate::ext::is_lower_hex(#[trigger] r@[i]),
{
    let u = new_uuid_v4();
    proof {
        lemma_uuid_first_alnum(u@);
        assert forall|j: int| 0 <= j < u@.len() implies (#[trigger] u@[j] as u32) < 128 by {
            assert(j == 8 || j == 13 || j == 18 || j == 23 ==> u@[j] == '-');
        }
    }
    ten_alnum(u.as_str())
}

/// A name for a throwaway project of a `--guid` run:
/// `bundle_verification_` and ten characters of a fresh random uuid.
pub fn generate_guid_project_name() -> (r: String)
    ensures
        is_prefixed_name(r@, "bundle_verification_"@),
{
    let suffix = random_suffix();
    let r = concat("bundle_verification_", suffix.as_str());
    proof {
        reveal_strlit("bundle_verification_");
        assert(r@.take(20) =~= "bundle_verification_"@);
        assert forall|i: int| 20 <= i < r@.len() implies crate::ext::is_lower_hex(#[trigger] r@[i]) by {
            assert(r@[i] == suffix@[i - 20]);
        }
    }
    r
}

/// A name for a throwaway table: `testing_` and ten characters of a fresh
/// random uuid.
pub fn create_table_name() -> (r: String)
    ensures
        is_prefixed_name(r@, "testing_"@),
{
    let suffix = random_suffix();
    let r = concat("testing_", suffix.as_str());
    proof {
        reveal_strlit("testing_");
        assert(r@.take(8) =~= "testing_"@);
        assert forall|i: int| 8 <= i < r@.len() implies crate::ext::is_lower_hex(#[trigger] r@[i]) by {
            assert(r@[i] == suffix@[i - 8]);
        }
    }
    r
}

// ---------------------------------------------------------------------------
// Ingest retries
// ---------------------------------------------------------------------------

/// Whether a failed insert is worth retrying: an "unknown transform" 400
/// (the transform is not visible to ingest yet), a timeout, a rate limit, a
/// server error or any other status; not any other client error.
pub open spec fn insert_retryable_spec(status: u16, error_body: Seq<char>) -> bool {
    if status == 400 && contains(error_body, "unknown transform"@) {
        true
    } else if 400 <= status <= 499 && status != 408 && status != 429 {
        false
    } else {
        true
    }
}

/// Whether a failed insert is worth retrying.
pub fn is_insert_retryable(status: u16, error_body: &str) -> (b: bool)
    ensures
        b == insert_retryable_spec(status, error_body@),
{
    if status == 400 && str_contains(error_body, "unknown transform") {
        return true;
    }
    if 400 <= status && status <= 499 && status != 408 && status != 429 {
        false
    } else {
        true
    }
}

/// `base` doubled `n` times.
pub open spec fn doubled(base: nat, n: nat) -> nat
    decreases n,
{
    if n == 0 {
        base
    } else {
        2 * doubled(base, (n - 1) as nat)
    }
}

proof fn lemma_doubled_grows(base: nat, i: nat, j: nat)
    requires
        i <= j,
    ensures
        doubled(base, i) <= doubled(base, j),
    decreases j - i,
{
    if i < j {
        lemma_doubled_grows(base, i, (j - 1) as nat);
    }
}

/// The delay in milliseconds before retry number `attempt` (from 1): the
/// base delay doubled for each earlier attempt, at most `max_ms`.
pub fn calculate_backoff(attempt: u32, base_ms: u64, max_ms: u64) -> (r: u64)
    requires
        attempt >= 1,
        doubled(base_ms as nat, (attempt - 1) as nat) <= u64::MAX,
    ensures
        r == if doubled(base_ms as nat, (attempt - 1) as nat) <= max_ms {
            doubled(base_ms as nat, (attempt - 1) as nat)
        } else {
            max_ms as nat
        },
{
    let mut d: u64 = base_ms;
    let mut k: u32 = 1;
    while k < attempt
        invariant
            1 <= k <= attempt,
            d == doubled(base_ms as nat, (k - 1) as nat),
            doubled(base_ms as nat, (attempt - 1) as nat) <= u64::MAX,
        decreases attempt - k,
    {
        proof {
            lemma_doubled_grows(base_ms as nat, k as nat, (attempt - 1) as nat);
        }
        d = d * 2;
        k = k + 1;
    }
    if d <= max_ms {
        d
    } else {
        max_ms
    }
}

/// What the count query's response body gives: its trimmed text as a
/// `u64`, or an error that quotes it.
pub open spec fn count_result(body: Seq<char>) -> Result<u64, Seq<char>> {
    match parse_u64(trim(body)) {
        Some(n) => Ok(n),
        None => Err(
            "query_count could not parse '"@ + trim(body) + "' as u64: "@ + parse_u64_error_spec(
                trim(body),
            ),
        ),
    }
}

/// Reads the row count from the response body of a count query.
pub fn parse_count(body: &str) -> (r: Result<u64, String>)
    ensures
        match r {
            Ok(n) => count_result(body@) == Ok::<u64, Seq<char>>(n),
            Err(e) => count_result(body@) == Err::<u64, Seq<char>>(e@),
        },
{
    let t = str_trim(body);
    match parse_u64_std(t.as_str()) {
        Ok(n) => Ok(n),
        Err(err) => {
            let mut e = "query_count could not parse '".to_string();
            append(&mut e, t.as_str());
            append(&mut e, "' as u64: ");
            append(&mut e, err.as_str());
            assert(e@ =~= "query_count could not parse '"@ + trim(body@) + "' as u64: "@
                + parse_u64_error_spec(trim(body@)));
            Err(e)
        },
    }
}

} // verus!
