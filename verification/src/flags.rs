//! Command-line flags of the bundle validator.
use vstd::prelude::*;
use crate::text::{starts_with, str_eq, str_starts_with, views};

verus! {

broadcast use vstd::string::group_string_axioms;

/// Parsed CLI flags for the bundle validator.
pub struct Flags {
    pub scan_wip: bool,
    pub is_local: bool,
    pub is_local_dashboard_only: bool,
    pub is_remote: bool,
    pub for_marketplace: bool,
    pub dump_output: bool,
    pub strict_plugins: bool,
    pub production_mode: bool,
    pub delay_mode: bool,
    pub use_guid: bool,
    pub cleanup_project: Option<String>,
    pub match_only: String,
}

/// The flags as plain values.
pub struct FlagsModel {
    pub scan_wip: bool,
    pub is_local: bool,
    pub is_local_dashboard_only: bool,
    pub is_remote: bool,
    pub for_marketplace: bool,
    pub dump_output: bool,
    pub strict_plugins: bool,
    pub production_mode: bool,
    pub delay_mode: bool,
    pub use_guid: bool,
    pub cleanup_project: Option<Seq<char>>,
    pub match_only: Seq<char>,
}

impl View for Flags {
    type V = FlagsModel;

    open spec fn view(&self) -> FlagsModel {
        FlagsModel {
            scan_wip: self.scan_wip,
            is_local: self.is_local,
            is_local_dashboard_only: self.is_local_dashboard_only,
            is_remote: self.is_remote,
            for_marketplace: self.for_marketplace,
            dump_output: self.dump_output,
            strict_plugins: self.strict_plugins,
            production_mode: self.production_mode,
            delay_mode: self.delay_mode,
            use_guid: self.use_guid,
            cleanup_project: match self.cleanup_project {
                Some(s) => Some(s@),
                None => None,
            },
            match_only: self.match_only@,
        }
    }
}

/// All flags off, no cleanup project, no filter.
pub open spec fn default_model() -> FlagsModel {
    FlagsModel {
        scan_wip: false,
        is_local: false,
        is_local_dashboard_only: false,
        is_remote: false,
        for_marketplace: false,
        dump_output: false,
        strict_plugins: false,
        production_mode: false,
        delay_mode: false,
        use_guid: false,
        cleanup_project: None,
        match_only: Seq::empty(),
    }
}

/// What one argument other than `--cleanup` does to the flags: a known
/// flag switches its field on, the first argument that is not a flag becomes
/// the bundle filter, and anything else is ignored.
pub open spec fn apply_arg(m: FlagsModel, a: Seq<char>) -> FlagsModel {
    if a == "--wip"@ {
        FlagsModel { scan_wip: true, ..m }
    } else if a == "--local"@ {
        FlagsModel { is_local: true, ..m }
    } else if a == "--local-dashboard-only"@ {
        FlagsModel { is_local_dashboard_only: true, ..m }
    } else if a == "--remote"@ {
        FlagsModel { is_remote: true, ..m }
    } else if a == "--marketplace"@ {
        FlagsModel { for_marketplace: true, ..m }
    } else if a == "--output"@ {
        FlagsModel { dump_output: true, ..m }
    } else if a == "--strict-plugins"@ {
        FlagsModel { strict_plugins: true, ..m }
    } else if a == "--production"@ {
        FlagsModel { production_mode: true, ..m }
    } else if a == "--delay"@ {
        FlagsModel { delay_mode: true, ..m }
    } else if a == "--guid"@ {
        FlagsModel { use_guid: true, ..m }
    } else if !starts_with(a, "--"@) && m.match_only.len() == 0 {
        FlagsModel { match_only: a, ..m }
    } else {
        m
    }
}

/// Reads the arguments left to right with `apply_arg`; `--cleanup` takes
/// the next argument as the project name, which must be there and must not
/// be a flag.
pub open spec fn scan(m: FlagsModel, rest: Seq<Seq<char>>) -> Result<FlagsModel, Seq<char>>
    decreases rest.len(),
{
    if rest.len() == 0 {
        Ok(m)
    } else if rest[0] == "--cleanup"@ {
        if rest.len() < 2 {
            Err("--cleanup requires a project name argument"@)
        } else if starts_with(rest[1], "--"@) {
            Err("--cleanup requires a project name argument, got a flag"@)
        } else {
            scan(FlagsModel { cleanup_project: Some(rest[1]), ..m }, rest.skip(2))
        }
    } else {
        scan(apply_arg(m, rest[0]), rest.skip(1))
    }
}

/// The combinations of modes that the validator refuses.
pub open spec fn mode_error(m: FlagsModel) -> Option<Seq<char>> {
    if m.use_guid && !m.is_local {
        Some("--guid can only be used with --local"@)
    } else if m.delay_mode && !m.is_local && !m.is_remote {
        Some("--delay can only be used with --local or --remote"@)
    } else if m.is_remote && m.is_local {
        Some("--remote cannot be combined with --local"@)
    } else if m.is_remote && m.is_local_dashboard_only {
        Some("--remote cannot be combined with --local-dashboard-only"@)
    } else if m.is_remote && m.use_guid {
        Some("--remote cannot be combined with --guid"@)
    } else if m.is_remote && m.cleanup_project is Some {
        Some("--remote cannot be combined with --cleanup"@)
    } else if m.is_remote && m.match_only.len() == 0 {
        Some("--remote requires a bundle filter argument"@)
    } else {
        None
    }
}

/// What `Flags::parse` gives for the full argument list (program name
/// first) and the value of the `STRICT_PLUGIN_VALIDATION` environment
/// variable (empty when unset).
pub open spec fn parse_spec(args: Seq<Seq<char>>, strict_env: Seq<char>) -> Result<
    FlagsModel,
    Seq<char>,
> {
    let rest = if args.len() == 0 {
        args
    } else {
        args.skip(1)
    };
    match scan(default_model(), rest) {
        Err(e) => Err(e),
        Ok(m) => {
            let m2 = if strict_env == "true"@ {
                FlagsModel { strict_plugins: true, ..m }
            } else {
                m
            };
            match mode_error(m2) {
                Some(e) => Err(e),
                None => Ok(m2),
            }
        },
    }
}

impl Flags {
    /// Applies one argument other than `--cleanup`.
    fn apply(&mut self, a: &str)
        ensures
            final(self)@ == apply_arg(old(self)@, a@),
    {
        if str_eq(a, "--wip") {
            self.scan_wip = true;
        } else if str_eq(a, "--local") {
            self.is_local = true;
        } else if str_eq(a, "--local-dashboard-only") {
            self.is_local_dashboard_only = true;
        } else if str_eq(a, "--remote") {
            self.is_remote = true;
        } else if str_eq(a, "--marketplace") {
            self.for_marketplace = true;
        } else if str_eq(a, "--output") {
            self.dump_output = true;
        } else if str_eq(a, "--strict-plugins") {
            self.strict_plugins = true;
        } else if str_eq(a, "--production") {
            self.production_mode = true;
        } else if str_eq(a, "--delay") {
            self.delay_mode = true;
        } else if str_eq(a, "--guid") {
            self.use_guid = true;
        } else if !str_starts_with(a, "--") && self.match_only.as_str().is_empty() {
            self.match_only = a.to_string();
        }
    }

    /// Parses the command line. `strict_plugin_validation` is the value of
    /// the `STRICT_PLUGIN_VALIDATION` environment variable ("" when unset).
    pub fn parse(args: &[String], strict_plugin_validation: &str) -> (r: Result<Self, String>)
        ensures
            match r {
                Ok(f) => parse_spec(views(args@), strict_plugin_validation@) == Ok::<FlagsModel, Seq<char>>(f@),
                Err(e) => parse_spec(views(args@), strict_plugin_validation@) == Err::<FlagsModel, Seq<char>>(e@),
            },
    {
        let ghost all = views(args@);
        let ghost rest = if all.len() == 0 {
            all
        } else {
            all.skip(1)
        };
        let start: usize = if args.len() == 0 {
            0
        } else {
            1
        };
        let mut flags = Flags {
            scan_wip: false,
            is_local: false,
            is_local_dashboard_only: false,
            is_remote: false,
            for_marketplace: false,
            dump_output: false,
            strict_plugins: false,
            production_mode: false,
            delay_mode: false,
            use_guid: false,
            cleanup_project: None,
            match_only: String::new(),
        };
        let mut i: usize = start;
        assert(rest =~= all.skip(start as int));
        while i < args.len()
            invariant
                start <= i <= args.len(),
                all == views(args@),
                rest == all.skip(start as int),
                rest == (if all.len() == 0 { all } else { all.skip(1) }),
                scan(default_model(), rest) == scan(flags@, all.skip(i as int)),
            decreases args.len() - i,
        {
            let a = args[i].as_str();
            let ghost tail = all.skip(i as int);
            assert(tail[0] == a@);
            assert(tail.skip(1) =~= all.skip(i + 1));
            let mut step: usize = 1;
            if str_eq(a, "--cleanup") {
                if i + 1 >= args.len() {
                    assert(tail.len() < 2);
                    return Err("--cleanup requires a project name argument".to_string());
                }
                let name = &args[i + 1];
                assert(tail[1] == name@);
                if str_starts_with(name.as_str(), "--") {
                    return Err("--cleanup requires a project name argument, got a flag".to_string());
                }
                flags.cleanup_project = Some(name.clone());
                assert(tail.skip(2) =~= all.skip(i + 2));
                step = 2;
            } else {
                flags.apply(a);
            }
            i = i + step;
        }
        assert(all.skip(i as int) =~= Seq::<Seq<char>>::empty());
        let ghost m = flags@;
        if str_eq(strict_plugin_validation, "true") {
            flags.strict_plugins = true;
        }
        if flags.use_guid && !flags.is_local {
            return Err("--guid can only be used with --local".to_string());
        }
        if flags.delay_mode && !flags.is_local && !flags.is_remote {
            return Err("--delay can only be used with --local or --remote".to_string());
        }
        if flags.is_remote {
            if flags.is_local {
                return Err("--remote cannot be combined with --local".to_string());
            }
            if flags.is_local_dashboard_only {
                return Err("--remote cannot be combined with --local-dashboard-only".to_string());
            }
            if flags.use_guid {
                return Err("--remote cannot be combined with --guid".to_string());
            }
            if flags.cleanup_project.is_some() {
                return Err("--remote cannot be combined with --cleanup".to_string());
            }
            if flags.match_only.as_str().is_empty() {
                return Err("--remote requires a bundle filter argument".to_string());
            }
        }
        Ok(flags)
    }
}

/// Flags that parse are consistent: `--guid` comes with `--local`,
/// `--delay` with a deployment (`--local` or `--remote`), and `--remote`
/// with none of `--local`, `--local-dashboard-only`, `--guid` or
/// `--cleanup`, but with a bundle filter.
pub proof fn lemma_parsed_modes_consistent(args: Seq<Seq<char>>, strict_env: Seq<char>)
    ensures
        parse_spec(args, strict_env) matches Ok(m) ==> {
            &&& m.use_guid ==> m.is_local
            &&& m.delay_mode ==> (m.is_local || m.is_remote)
            &&& m.is_remote ==> !m.is_local && !m.is_local_dashboard_only && !m.use_guid
                && m.cleanup_project is None && m.match_only.len() > 0
        },
{
}

} // verus!
