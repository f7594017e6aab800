//! Checks across every bundle of a run: names, source titles and base urls.
use vstd::prelude::*;
use crate::grafana::plugins::occurrences;
use crate::models::bundle::Bundle;
use crate::text::{append, decimal, str_eq, u64_to_string};
use super::first_error_from;

verus! {

broadcast use vstd::string::group_string_axioms;

/// The index of the first bundle before `i` with the name of bundle `i`.
pub open spec fn is_first_same_name(bs: Seq<Bundle>, j: int, i: int) -> bool {
    &&& 0 <= j < i
    &&& bs[j].name@ == bs[i].name@
    &&& forall|k: int| 0 <= k < j ==> bs[k].name@ != bs[i].name@
}

/// Bundle `i` repeats the name of an earlier bundle that has the same base
/// url (the same name under another url is another version and allowed).
pub open spec fn name_clash(bs: Seq<Bundle>, i: int) -> Option<Seq<char>> {
    if exists|j: int| is_first_same_name(bs, j, i) && bs[j].base_url@ == bs[i].base_url@ {
        Some("ERROR: Duplicated-Bundle-Name url="@ + bs[i].base_url@ + " error="@ + bs[i].name@)
    } else {
        None
    }
}

/// The index of the first bundle before `i` with the source title of bundle
/// `i`.
pub open spec fn is_first_same_title(bs: Seq<Bundle>, j: int, i: int) -> bool {
    &&& 0 <= j < i
    &&& bs[j].ui.source.full_title@ == bs[i].ui.source.full_title@
    &&& forall|k: int| 0 <= k < j ==> bs[k].ui.source.full_title@ != bs[i].ui.source.full_title@
}

/// Bundle `i` repeats the source title of an earlier bundle with another
/// name.
pub open spec fn title_clash(bs: Seq<Bundle>, i: int) -> Option<Seq<char>> {
    if exists|j: int| is_first_same_title(bs, j, i) && bs[j].name@ != bs[i].name@ {
        Some("ERROR: Duplicated-UI-Source-Name url="@ + bs[i].base_url@ + " error="@
            + bs[i].ui.source.full_title@)
    } else {
        None
    }
}

pub open spec fn base_urls(bs: Seq<Bundle>) -> Seq<Seq<char>> {
    bs.map_values(|b: Bundle| b.base_url@)
}

/// Bundle `i` has a base url that another bundle has too.
pub open spec fn url_clash(bs: Seq<Bundle>, i: int) -> Option<Seq<char>> {
    let n = occurrences(base_urls(bs), bs[i].base_url@);
    if n > 1 {
        Some("ERROR: Duplicated-Base-URL count="@ + decimal(n) + " url="@ + bs[i].base_url@)
    } else {
        None
    }
}

/// The first error of the run: a repeated name (same url), then a repeated
/// source title (other name), then a base url that occurs more than once.
pub open spec fn global_duplicates_error(bs: Seq<Bundle>) -> Option<Seq<char>> {
    match first_error_from(|i: int| name_clash(bs, i), 0, bs.len() as int) {
        Some(e) => Some(e),
        None => match first_error_from(|i: int| title_clash(bs, i), 0, bs.len() as int) {
            Some(e) => Some(e),
            None => first_error_from(|i: int| url_clash(bs, i), 0, bs.len() as int),
        },
    }
}

fn first_same_name(bundles: &Vec<Bundle>, i: usize) -> (r: usize)
    requires
        i < bundles@.len(),
    ensures
        r <= i,
        r < i ==> is_first_same_name(bundles@, r as int, i as int),
        r == i ==> forall|k: int| 0 <= k < i ==> bundles@[k].name@ != bundles@[i as int].name@,
{
    let mut j: usize = 0;
    while j < i
        invariant
            j <= i < bundles@.len(),
            forall|k: int| 0 <= k < j ==> bundles@[k].name@ != bundles@[i as int].name@,
        decreases i - j,
    {
        if str_eq(bundles[j].name.as_str(), bundles[i].name.as_str()) {
            return j;
        }
        j = j + 1;
    }
    i
}

fn first_same_title(bundles: &Vec<Bundle>, i: usize) -> (r: usize)
    requires
        i < bundles@.len(),
    ensures
        r <= i,
        r < i ==> is_first_same_title(bundles@, r as int, i as int),
        r == i ==> forall|k: int| 0 <= k < i ==> bundles@[k].ui.source.full_title@ != bundles@[i as int].ui.source.full_title@,
{
    let mut j: usize = 0;
    while j < i
        invariant
            j <= i < bundles@.len(),
            forall|k: int| 0 <= k < j ==> bundles@[k].ui.source.full_title@ != bundles@[i as int].ui.source.full_title@,
        decreases i - j,
    {
        if str_eq(bundles[j].ui.source.full_title.as_str(), bundles[i].ui.source.full_title.as_str()) {
            return j;
        }
        j = j + 1;
    }
    i
}

fn count_url(bundles: &Vec<Bundle>, url: &str) -> (n: usize)
    ensures
        n == occurrences(base_urls(bundles@), url@),
{
    let ghost all = base_urls(bundles@);
    let mut n: usize = 0;
    let mut j: usize = 0;
    assert(all.take(0) =~= Seq::<Seq<char>>::empty());
    while j < bundles.len()
        invariant
            j <= bundles@.len(),
            all == base_urls(bundles@),
            n == occurrences(all.take(j as int), url@),
            n <= j,
        decreases bundles.len() - j,
    {
        assert(all.take(j + 1).drop_last() =~= all.take(j as int));
        assert(all.take(j + 1).last() == bundles@[j as int].base_url@);
        if str_eq(bundles[j].base_url.as_str(), url) {
            n = n + 1;
        }
        j = j + 1;
    }
    assert(all.take(j as int) =~= all);
    n
}

/// Checks every bundle of the run against the others: no name twice with
/// the same base url, no source title under two names, no base url twice.
pub fn run(bundles: &Vec<Bundle>) -> (r: Result<(), String>)
    ensures
        match r {
            Ok(()) => global_duplicates_error(bundles@) is None,
            Err(e) => global_duplicates_error(bundles@) == Some(e@),
        },
{
    let ghost bs = bundles@;
    let ghost fname = |i: int| name_clash(bs, i);
    let ghost ftitle = |i: int| title_clash(bs, i);
    let ghost furl = |i: int| url_clash(bs, i);
    let n = bundles.len();
    let mut i: usize = 0;
    while i < n
        invariant
            i <= n == bs.len(),
            bs == bundles@,
            fname == (|i: int| name_clash(bs, i)),
            first_error_from(fname, 0, n as int) == first_error_from(fname, i as int, n as int),
        decreases n - i,
    {
        let j = first_same_name(bundles, i);
        if j < i && str_eq(bundles[j].base_url.as_str(), bundles[i].base_url.as_str()) {
            let mut e = "ERROR: Duplicated-Bundle-Name url=".to_string();
            append(&mut e, bundles[i].base_url.as_str());
            append(&mut e, " error=");
            append(&mut e, bundles[i].name.as_str());
            assert(name_clash(bs, i as int) == Some(e@));
            return Err(e);
        }
        assert(name_clash(bs, i as int) is None) by {
            if exists|j2: int| is_first_same_name(bs, j2, i as int) && bs[j2].base_url@ == bs[i as int].base_url@ {
                let j2 = choose|j2: int| is_first_same_name(bs, j2, i as int) && bs[j2].base_url@ == bs[i as int].base_url@;
                if j2 < j {
                    assert(bs[j2].name@ != bs[i as int].name@);
                } else if j2 > j {
                    assert(bs[j as int].name@ != bs[i as int].name@);
                }
            }
        }
        i = i + 1;
    }
    let mut i: usize = 0;
    while i < n
        invariant
            i <= n == bs.len(),
            bs == bundles@,
            ftitle == (|i: int| title_clash(bs, i)),
            fname == (|i: int| name_clash(bs, i)),
            first_error_from(fname, 0, n as int) is None,
            first_error_from(ftitle, 0, n as int) == first_error_from(ftitle, i as int, n as int),
        decreases n - i,
    {
        let j = first_same_title(bundles, i);
        if j < i && !str_eq(bundles[j].name.as_str(), bundles[i].name.as_str()) {
            let mut e = "ERROR: Duplicated-UI-Source-Name url=".to_string();
            append(&mut e, bundles[i].base_url.as_str());
            append(&mut e, " error=");
            append(&mut e, bundles[i].ui.source.full_title.as_str());
            assert(title_clash(bs, i as int) == Some(e@));
            return Err(e);
        }
        assert(title_clash(bs, i as int) is None) by {
            if exists|j2: int| is_first_same_title(bs, j2, i as int) && bs[j2].name@ != bs[i as int].name@ {
                let j2 = choose|j2: int| is_first_same_title(bs, j2, i as int) && bs[j2].name@ != bs[i as int].name@;
                if j2 < j {
                    assert(bs[j2].ui.source.full_title@ != bs[i as int].ui.source.full_title@);
                } else if j2 > j {
                    assert(bs[j as int].ui.source.full_title@ != bs[i as int].ui.source.full_title@);
                }
            }
        }
        i = i + 1;
    }
    let mut i: usize = 0;
    while i < n
        invariant
            i <= n == bs.len(),
            bs == bundles@,
            furl == (|i: int| url_clash(bs, i)),
            fname == (|i: int| name_clash(bs, i)),
            ftitle == (|i: int| title_clash(bs, i)),
            first_error_from(fname, 0, n as int) is None,
            first_error_from(ftitle, 0, n as int) is None,
            first_error_from(furl, 0, n as int) == first_error_from(furl, i as int, n as int),
        decreases n - i,
    {
        let c = count_url(bundles, bundles[i].base_url.as_str());
        if c > 1 {
            let mut e = "ERROR: Duplicated-Base-URL count=".to_string();
            let cs = u64_to_string(c as u64);
            append(&mut e, cs.as_str());
            append(&mut e, " url=");
            append(&mut e, bundles[i].base_url.as_str());
            assert(url_clash(bs, i as int) == Some(e@));
            return Err(e);
        }
        i = i + 1;
    }
    Ok(())
}

proof fn lemma_no_error_each(f: spec_fn(int) -> Option<Seq<char>>, a: int, n: int, i: int)
    requires
        first_error_from(f, a, n) is None,
        a <= i < n,
    ensures
        f(i) is None,
    decreases i - a,
{
    if a < i {
        lemma_no_error_each(f, a + 1, n, i);
    }
}

proof fn lemma_two_occurrences(s: Seq<Seq<char>>, i: int, j: int)
    requires
        0 <= i < j < s.len(),
        s[i] == s[j],
    ensures
        occurrences(s, s[j]) >= 2,
    decreases s.len(),
{
    let t = s[j];
    if j < s.len() - 1 {
        lemma_two_occurrences(s.drop_last(), i, j);
    } else {
        lemma_one_occurrence(s.drop_last(), i, t);
    }
}

proof fn lemma_one_occurrence(s: Seq<Seq<char>>, i: int, t: Seq<char>)
    requires
        0 <= i < s.len(),
        s[i] == t,
    ensures
        occurrences(s, t) >= 1,
    decreases s.len(),
{
    if i < s.len() - 1 {
        lemma_one_occurrence(s.drop_last(), i, t);
    }
}

/// A set of bundles that passes the global check has no two bundles with
/// the same base url.
pub proof fn lemma_unique_base_urls(bs: Seq<Bundle>)
    requires
        global_duplicates_error(bs) is None,
    ensures
        forall|i: int, j: int| 0 <= i < j < bs.len() ==> bs[i].base_url@ != bs[j].base_url@,
{
    assert forall|i: int, j: int| 0 <= i < j < bs.len() implies bs[i].base_url@ != bs[j].base_url@ by {
        if bs[i].base_url@ == bs[j].base_url@ {
            let f = |k: int| url_clash(bs, k);
            lemma_no_error_each(f, 0, bs.len() as int, j);
            let urls = base_urls(bs);
            assert(urls[i] == urls[j]);
            lemma_two_occurrences(urls, i, j);
            assert(url_clash(bs, j) is Some);
        }
    }
}

/// A set of bundles that passes the global check never repeats a bundle
/// name under the same base url, and never gives one source title to two
/// bundle names.
pub proof fn lemma_no_clashing_names(bs: Seq<Bundle>)
    requires
        global_duplicates_error(bs) is None,
    ensures
        forall|i: int| 0 <= i < bs.len() ==> name_clash(bs, i) is None && title_clash(bs, i) is None,
{
    assert forall|i: int| 0 <= i < bs.len() implies name_clash(bs, i) is None && title_clash(bs, i) is None by {
        lemma_no_error_each(|k: int| name_clash(bs, k), 0, bs.len() as int, i);
        lemma_no_error_each(|k: int| title_clash(bs, k), 0, bs.len() as int, i);
    }
}

} // verus!
