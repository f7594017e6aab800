//! Names, titles, version and metadata of a bundle must agree with each
//! other.
use vstd::prelude::*;
use crate::ext::{lowercase, lowercase_spec};
use crate::models::bundle::Bundle;
use crate::text::{append, chars_of, contains, count_char, count_char_exec, has_char, has_char_exec, is_blank, str_contains, str_eq, trim};

verus! {

broadcast use vstd::string::group_string_axioms;

/// The titles that a delivery method's full title must mention one of.
pub open spec fn expected_titles(method: Seq<char>) -> Seq<Seq<char>> {
    if method == "firehose"@ {
        seq!["Amazon Data Firehose"@, "AWS Firehose"@, "Kinesis Data Firehose"@]
    } else if method == "s3"@ {
        seq!["Amazon S3"@, "AWS S3"@]
    } else if method == "kinesis"@ {
        seq!["Amazon Kinesis"@, "AWS Kinesis"@]
    } else {
        Seq::empty()
    }
}

/// The first naming problem of a bundle.
pub open spec fn naming_error(b: Bundle) -> Option<Seq<char>> {
    let method = b.method@;
    let method_title = b.ui.method.full_title@;
    let titles = expected_titles(method);
    let source = b.source@;
    let name = b.name@;
    if titles.len() > 0 && !(exists|i: int| 0 <= i < titles.len() && contains(method_title, #[trigger] titles[i])) {
        Some("ERROR: docs.method.full_title '"@ + method_title + "' does not match method '"@ + method + "'"@)
    } else if source == "waf"@ && !contains(lowercase_spec(b.ui.source.full_title@), "waf"@) {
        Some("ERROR: Source title should contain 'WAF' when source is 'waf'"@)
    } else if !contains(lowercase_spec(name), lowercase_spec(source)) || !contains(lowercase_spec(name), lowercase_spec(method)) {
        Some("ERROR: Name '"@ + name + "' must include '"@ + source + "' and '"@ + method + "'"@)
    } else if count_char(b.metadata.version@, '.') != 2 {
        Some("ERROR: Version "@ + b.metadata.version@ + " should follow semantic versioning format (e.g., 1.0.0)"@)
    } else if !has_char(b.metadata.maintainer@, '@') || !has_char(b.metadata.maintainer@, '.') {
        Some("ERROR: Maintainer should be a valid email address"@)
    } else if trim(b.metadata.description@).len() == 0 {
        Some("ERROR: Description cannot be empty"@)
    } else {
        None
    }
}

/// The method title must name the method: for `firehose` one of "Amazon
/// Data Firehose", "AWS Firehose" and "Kinesis Data Firehose", for `s3` one
/// of "Amazon S3" and "AWS S3", for `kinesis` one of "Amazon Kinesis" and
/// "AWS Kinesis"; any other method takes any title. A bundle fails with the
/// title error exactly when its title names none of its method's titles.
pub proof fn lemma_method_titles(b: Bundle)
    ensures
        ({
            let m = b.method@;
            let t = b.ui.method.full_title@;
            ||| (m == "firehose"@ && !contains(t, "Amazon Data Firehose"@) && !contains(t, "AWS Firehose"@)
                && !contains(t, "Kinesis Data Firehose"@))
            ||| (m == "s3"@ && !contains(t, "Amazon S3"@) && !contains(t, "AWS S3"@))
            ||| (m == "kinesis"@ && !contains(t, "Amazon Kinesis"@) && !contains(t, "AWS Kinesis"@))
        }) <==> naming_error(b) == Some(
            "ERROR: docs.method.full_title '"@ + b.ui.method.full_title@ + "' does not match method '"@ + b.method@
                + "'"@,
        ),
{
    let m = b.method@;
    let t = b.ui.method.full_title@;
    let titles = expected_titles(m);
    let msg = "ERROR: docs.method.full_title '"@ + t + "' does not match method '"@ + m + "'"@;
    reveal_strlit("ERROR: docs.method.full_title '");
    reveal_strlit("ERROR: Source title should contain 'WAF' when source is 'waf'");
    reveal_strlit("ERROR: Name '");
    reveal_strlit("ERROR: Version ");
    reveal_strlit("ERROR: Maintainer should be a valid email address");
    reveal_strlit("ERROR: Description cannot be empty");
    reveal_strlit("firehose");
    reveal_strlit("s3");
    reveal_strlit("kinesis");
    assert(msg[7] == 'd');
    if m == "firehose"@ {
        assert(titles =~= seq!["Amazon Data Firehose"@, "AWS Firehose"@, "Kinesis Data Firehose"@]);
    } else if m == "s3"@ {
        assert(titles =~= seq!["Amazon S3"@, "AWS S3"@]);
    } else if m == "kinesis"@ {
        assert(titles =~= seq!["Amazon Kinesis"@, "AWS Kinesis"@]);
    } else {
        assert(titles.len() == 0);
    }
    let mismatch = titles.len() > 0 && !(exists|i: int| 0 <= i < titles.len() && contains(t, #[trigger] titles[i]));
    if !mismatch {
        match naming_error(b) {
            Some(e) => {
                assert(e[7] != 'd');
            },
            None => {},
        }
    }
}

fn method_title_ok(method: &str, method_title: &str) -> (b: bool)
    ensures
        b == (expected_titles(method@).len() == 0 || exists|i: int| 0 <= i < expected_titles(method@).len() && contains(method_title@, #[trigger] expected_titles(method@)[i])),
{
    let titles: Vec<&str> = if str_eq(method, "firehose") {
        vec!["Amazon Data Firehose", "AWS Firehose", "Kinesis Data Firehose"]
    } else if str_eq(method, "s3") {
        vec!["Amazon S3", "AWS S3"]
    } else if str_eq(method, "kinesis") {
        vec!["Amazon Kinesis", "AWS Kinesis"]
    } else {
        vec![]
    };
    assert(crate::text::str_views(titles@) =~= expected_titles(method@));
    if titles.len() == 0 {
        return true;
    }
    let mut i: usize = 0;
    while i < titles.len()
        invariant
            i <= titles@.len(),
            crate::text::str_views(titles@) == expected_titles(method@),
            forall|k: int| 0 <= k < i ==> !contains(method_title@, #[trigger] expected_titles(method@)[k]),
        decreases titles.len() - i,
    {
        assert(expected_titles(method@)[i as int] == titles@[i as int]@);
        if str_contains(method_title, titles[i]) {
            return true;
        }
        i = i + 1;
    }
    false
}

/// Checks that the bundle's names, titles, version and metadata agree.
pub fn run(bundle: &Bundle) -> (r: Result<(), String>)
    ensures
        match r {
            Ok(()) => naming_error(*bundle) is None,
            Err(e) => naming_error(*bundle) == Some(e@),
        },
{
    let method = bundle.method.as_str();
    let method_title = bundle.ui.method.full_title.as_str();
    if !method_title_ok(method, method_title) {
        let mut e = "ERROR: docs.method.full_title '".to_string();
        append(&mut e, method_title);
        append(&mut e, "' does not match method '");
        append(&mut e, method);
        append(&mut e, "'");
        assert(e@ =~= naming_error(*bundle)->Some_0);
        return Err(e);
    }
    let source = bundle.source.as_str();
    if str_eq(source, "waf") {
        let lt = lowercase(bundle.ui.source.full_title.as_str());
        if !str_contains(lt.as_str(), "waf") {
            return Err("ERROR: Source title should contain 'WAF' when source is 'waf'".to_string());
        }
    }
    let name = bundle.name.as_str();
    let ln = lowercase(name);
    let ls = lowercase(source);
    let lm = lowercase(method);
    if !str_contains(ln.as_str(), ls.as_str()) || !str_contains(ln.as_str(), lm.as_str()) {
        let mut e = "ERROR: Name '".to_string();
        append(&mut e, name);
        append(&mut e, "' must include '");
        append(&mut e, source);
        append(&mut e, "' and '");
        append(&mut e, method);
        append(&mut e, "'");
        assert(e@ =~= naming_error(*bundle)->Some_0);
        return Err(e);
    }
    let version = chars_of(bundle.metadata.version.as_str());
    if count_char_exec(version.as_slice(), '.') != 2 {
        let mut e = "ERROR: Version ".to_string();
        append(&mut e, bundle.metadata.version.as_str());
        append(&mut e, " should follow semantic versioning format (e.g., 1.0.0)");
        assert(e@ =~= naming_error(*bundle)->Some_0);
        return Err(e);
    }
    let maintainer = chars_of(bundle.metadata.maintainer.as_str());
    if !has_char_exec(maintainer.as_slice(), '@') || !has_char_exec(maintainer.as_slice(), '.') {
        return Err("ERROR: Maintainer should be a valid email address".to_string());
    }
    if is_blank(bundle.metadata.description.as_str()) {
        return Err("ERROR: Description cannot be empty".to_string());
    }
    Ok(())
}

} // verus!
