//! The structure of a bundle's alert rules file. The caller reads and
//! parses the file; this module checks what it holds.
use vstd::prelude::*;
use crate::json::Json;
use crate::text::{concat, append, owned, decimal, u64_to_string};

verus! {

broadcast use vstd::string::group_string_axioms;

/// A Grafana alert rule.
pub struct AlertRule {
    pub uid: String,
    pub title: String,
    pub condition: String,
    pub data: Vec<Json>,
}

/// A group of alert rules.
pub struct AlertGroup {
    pub org_id: Option<i32>,
    pub name: String,
    pub folder: String,
    pub interval: String,
    pub rules: Vec<AlertRule>,
}

/// An alert rules file.
pub struct AlertRulesFile {
    pub api_version: Option<i32>,
    pub groups: Vec<AlertGroup>,
}

/// The first problem with rule `j` onwards of a group, if any.
pub open spec fn rules_error(group_name: Seq<char>, rules: Seq<AlertRule>, j: int) -> Option<Seq<char>>
    decreases rules.len() - j,
{
    if j < 0 || j >= rules.len() {
        None
    } else if rules[j].uid@.len() == 0 {
        Some("Group "@ + group_name + ", Rule "@ + decimal(j as nat) + ": uid is required"@)
    } else if rules[j].title@.len() == 0 {
        Some("Group "@ + group_name + ", Rule "@ + decimal(j as nat) + ": title is required"@)
    } else if rules[j].condition@.len() == 0 {
        Some("Group "@ + group_name + ", Rule "@ + decimal(j as nat) + ": condition is required"@)
    } else {
        rules_error(group_name, rules, j + 1)
    }
}

/// The first problem with group `i`, if any.
pub open spec fn group_error(i: int, g: AlertGroup) -> Option<Seq<char>> {
    if g.name@.len() == 0 {
        Some("Group "@ + decimal(i as nat) + ": name is required"@)
    } else if g.folder@.len() == 0 {
        Some("Group "@ + decimal(i as nat) + " ("@ + g.name@ + "): folder is required"@)
    } else if g.interval@.len() == 0 {
        Some("Group "@ + decimal(i as nat) + " ("@ + g.name@ + "): interval is required"@)
    } else if g.rules@.len() == 0 {
        Some("Group "@ + decimal(i as nat) + " ("@ + g.name@ + "): rules must contain at least one rule"@)
    } else {
        rules_error(g.name@, g.rules@, 0)
    }
}

/// The first problem with group `i` onwards, if any.
pub open spec fn groups_error(groups: Seq<AlertGroup>, i: int) -> Option<Seq<char>>
    decreases groups.len() - i,
{
    if i < 0 || i >= groups.len() {
        None
    } else {
        match group_error(i, groups[i]) {
            Some(e) => Some(e),
            None => groups_error(groups, i + 1),
        }
    }
}

/// The first problem with an alert rules file: a missing `apiVersion`, no
/// groups, then each group in order (a name, folder and interval, and at
/// least one rule, each with a uid, title and condition).
pub open spec fn alert_rules_error(f: AlertRulesFile) -> Option<Seq<char>> {
    if f.api_version is None {
        Some("alert_rules.apiVersion is required"@)
    } else if f.groups@.len() == 0 {
        Some("alert_rules.groups must contain at least one group"@)
    } else {
        groups_error(f.groups@, 0)
    }
}

fn check_rules(group_name: &str, rules: &Vec<AlertRule>) -> (r: Result<(), String>)
    ensures
        match r {
            Ok(()) => rules_error(group_name@, rules@, 0) is None,
            Err(e) => rules_error(group_name@, rules@, 0) == Some(e@),
        },
{
    let mut j: usize = 0;
    while j < rules.len()
        invariant
            j <= rules@.len(),
            rules_error(group_name@, rules@, 0) == rules_error(group_name@, rules@, j as int),
        decreases rules.len() - j,
    {
        let rule = &rules[j];
        let what: Option<&str> = if rule.uid.as_str().is_empty() {
            Some(": uid is required")
        } else if rule.title.as_str().is_empty() {
            Some(": title is required")
        } else if rule.condition.as_str().is_empty() {
            Some(": condition is required")
        } else {
            None
        };
        match what {
            Some(w) => {
                let mut e = concat("Group ", group_name);
                append(&mut e, ", Rule ");
                append(&mut e, u64_to_string(j as u64).as_str());
                append(&mut e, w);
                assert(e@ =~= rules_error(group_name@, rules@, j as int)->Some_0);
                return Err(e);
            },
            None => {},
        }
        j = j + 1;
    }
    Ok(())
}

fn check_group(i: usize, g: &AlertGroup) -> (r: Result<(), String>)
    ensures
        match r {
            Ok(()) => group_error(i as int, *g) is None,
            Err(e) => group_error(i as int, *g) == Some(e@),
        },
{
    let n = u64_to_string(i as u64);
    if g.name.as_str().is_empty() {
        let mut e = concat("Group ", n.as_str());
        append(&mut e, ": name is required");
        assert(e@ =~= group_error(i as int, *g)->Some_0);
        return Err(e);
    }
    let what: Option<&str> = if g.folder.as_str().is_empty() {
        Some("): folder is required")
    } else if g.interval.as_str().is_empty() {
        Some("): interval is required")
    } else if g.rules.len() == 0 {
        Some("): rules must contain at least one rule")
    } else {
        None
    };
    match what {
        Some(w) => {
            let mut e = concat("Group ", n.as_str());
            append(&mut e, " (");
            append(&mut e, g.name.as_str());
            append(&mut e, w);
            assert(e@ =~= group_error(i as int, *g)->Some_0);
            Err(e)
        },
        None => check_rules(g.name.as_str(), &g.rules),
    }
}

/// Checks the structure of an alert rules file.
pub fn check_alert_rules(file: &AlertRulesFile) -> (r: Result<(), String>)
    ensures
        match r {
            Ok(()) => alert_rules_error(*file) is None,
            Err(e) => alert_rules_error(*file) == Some(e@),
        },
{
    if file.api_version.is_none() {
        return Err(owned("alert_rules.apiVersion is required"));
    }
    if file.groups.len() == 0 {
        return Err(owned("alert_rules.groups must contain at least one group"));
    }
    let mut i: usize = 0;
    while i < file.groups.len()
        invariant
            i <= file.groups@.len(),
            file.api_version is Some,
            file.groups@.len() > 0,
            groups_error(file.groups@, 0) == groups_error(file.groups@, i as int),
        decreases file.groups.len() - i,
    {
        match check_group(i, &file.groups[i]) {
            Ok(()) => {},
            Err(e) => {
                return Err(e);
            },
        }
        i = i + 1;
    }
    Ok(())
}

/// The number of rules of groups `[0, n)`.
pub open spec fn rules_before(groups: Seq<AlertGroup>, n: int) -> nat
    decreases n,
{
    if n <= 0 || groups.len() == 0 {
        0
    } else {
        rules_before(groups, n - 1) + groups[n - 1].rules@.len()
    }
}

/// The number of rules over all groups.
pub fn get_total_rules(file: &AlertRulesFile) -> (r: usize)
    requires
        rules_before(file.groups@, file.groups@.len() as int) <= usize::MAX,
    ensures
        r == rules_before(file.groups@, file.groups@.len() as int),
{
    let mut total: usize = 0;
    let mut i: usize = 0;
    while i < file.groups.len()
        invariant
            i <= file.groups@.len(),
            total == rules_before(file.groups@, i as int),
            rules_before(file.groups@, file.groups@.len() as int) <= usize::MAX,
        decreases file.groups.len() - i,
    {
        proof {
            lemma_rules_before_mono(file.groups@, i as int + 1, file.groups@.len() as int);
        }
        total = total + file.groups[i].rules.len();
        i = i + 1;
    }
    total
}

proof fn lemma_rules_before_mono(groups: Seq<AlertGroup>, a: int, b: int)
    requires
        0 <= a <= b <= groups.len(),
    ensures
        rules_before(groups, a) <= rules_before(groups, b),
    decreases b - a,
{
    if a < b {
        lemma_rules_before_mono(groups, a, b - 1);
    }
}

} // verus!
