//! The bundle's base url must point at its directory in the templates
//! repository.
use vstd::prelude::*;
use crate::models::bundle::Bundle;
use crate::text::{append, concat, str_eq};

verus! {

broadcast use vstd::string::group_string_axioms;

/// The base url that a bundle in directory `base` must have.
pub open spec fn expected_base_url(base: Seq<char>) -> Seq<char> {
    "https://github.com/hydrolix/integration-deployment-templates/blob/main/"@ + base
}

pub open spec fn base_url_message(name: Seq<char>, expected: Seq<char>) -> Seq<char> {
    "ERROR: Invalid "@ + name + " base_url should be this: '"@ + expected + "'"@
}

/// Checks the bundle's base url against its directory.
pub fn run(base: &str, bundle: &Bundle) -> (r: Result<(), String>)
    ensures
        match r {
            Ok(()) => bundle.base_url@ == expected_base_url(base@),
            Err(e) => bundle.base_url@ != expected_base_url(base@) && e@ == base_url_message(bundle.name@, expected_base_url(base@)),
        },
{
    let check = concat("https://github.com/hydrolix/integration-deployment-templates/blob/main/", base);
    if !str_eq(bundle.base_url.as_str(), check.as_str()) {
        let mut e = "ERROR: Invalid ".to_string();
        append(&mut e, bundle.name.as_str());
        append(&mut e, " base_url should be this: '");
        append(&mut e, check.as_str());
        append(&mut e, "'");
        assert(e@ =~= base_url_message(bundle.name@, expected_base_url(base@)));
        return Err(e);
    }
    Ok(())
}

} // verus!
