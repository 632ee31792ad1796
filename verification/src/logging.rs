//! Choice of the log filter from the command-line verbosity options.

use vstd::prelude::*;
use vstd::string::*;

verus! {

/// A maximum log level.
#[derive(Clone, Copy, Debug, PartialEq, Eq, Structural)]
pub enum LogLevel {
    Warn,
    Info,
    Debug,
    Trace,
}

/// The lower-case name of a level, as written in a filter directive.
pub open spec fn level_name(l: LogLevel) -> Seq<char> {
    match l {
        LogLevel::Warn => "warn"@,
        LogLevel::Info => "info"@,
        LogLevel::Debug => "debug"@,
        LogLevel::Trace => "trace"@,
    }
}

/// A directive that sets the level of this program's own log target.
#[derive(Clone, Debug)]
pub struct CrateDirective {
    /// The level the directive sets.
    pub level: LogLevel,
    /// The directive as text: `<crate_name>=<level>`.
    pub text: String,
}

/// How the log filter is to be built.
#[derive(Clone, Debug)]
pub enum LogFilterPlan {
    /// A filter built from the empty directive string: nothing is logged.
    Silent,
    /// The filter given by the `RUST_LOG` environment variable.
    FromEnv,
    /// A filter built from the configured directive string.
    Configured(String),
    /// The filter's built-in default.
    Default,
    /// The default filter with a global maximum level, and possibly one
    /// more directive that sets this program's own level.
    Level { level: LogLevel, crate_directive: Option<CrateDirective> },
}

/// The directive `<crate_name>=<level>`.
pub open spec fn crate_directive(crate_name: Seq<char>, level: LogLevel) -> Seq<char> {
    crate_name + "="@ + level_name(level)
}

/// Whether `d` is the directive that sets the program's own target to `level`.
pub open spec fn is_crate_directive(d: CrateDirective, crate_name: Seq<char>, level: LogLevel) -> bool {
    d.level == level && d.text@ == crate_directive(crate_name, level)
}

/// The filter plan, as a function of the options: `quiet` wins over
/// `verbose`; with no `-v`, `RUST_LOG` wins over the configured filter,
/// which wins over the default; each `-v` up to five selects a fixed level.
pub open spec fn spec_log_filter_plan(
    conf_env_filter: Option<Seq<char>>,
    quiet: bool,
    verbose: u8,
    rust_log_set: bool,
    crate_name: Seq<char>,
    plan: LogFilterPlan,
) -> bool {
    if quiet {
        plan is Silent
    } else if verbose == 0 {
        if rust_log_set {
            plan is FromEnv
        } else {
            match conf_env_filter {
                Some(s) => (plan matches LogFilterPlan::Configured(t) && t@ == s),
                None => plan is Default,
            }
        }
    } else if verbose == 1 {
        plan matches LogFilterPlan::Level { level: LogLevel::Warn, crate_directive: None }
    } else if verbose == 2 {
        plan matches LogFilterPlan::Level { level: LogLevel::Info, crate_directive: None }
    } else if verbose == 3 {
        plan matches LogFilterPlan::Level { level: LogLevel::Info, crate_directive: Some(d) }
            && is_crate_directive(d, crate_name, LogLevel::Debug)
    } else if verbose == 4 {
        plan matches LogFilterPlan::Level { level: LogLevel::Debug, crate_directive: None }
    } else if verbose == 5 {
        plan matches LogFilterPlan::Level { level: LogLevel::Debug, crate_directive: Some(d) }
            && is_crate_directive(d, crate_name, LogLevel::Trace)
    } else {
        plan matches LogFilterPlan::Level { level: LogLevel::Trace, crate_directive: None }
    }
}

fn directive_for(crate_name: &str, level: LogLevel) -> (d: CrateDirective)
    ensures
        is_crate_directive(d, crate_name@, level),
{
    let mut text = crate_name.to_owned();
    text.append("=");
    match level {
        LogLevel::Warn => text.append("warn"),
        LogLevel::Info => text.append("info"),
        LogLevel::Debug => text.append("debug"),
        LogLevel::Trace => text.append("trace"),
    }
    CrateDirective { level, text }
}

/// Chooses the log filter. `rust_log_set` tells whether the `RUST_LOG`
/// environment variable is set; `crate_name` is the name used for this
/// program's own log targets.
pub fn log_filter_plan(
    conf_env_filter: Option<&str>,
    quiet: bool,
    verbose: u8,
    rust_log_set: bool,
    crate_name: &str,
) -> (plan: LogFilterPlan)
    ensures
        spec_log_filter_plan(
            match conf_env_filter {
                Some(s) => Some(s@),
                None => None,
            },
            quiet,
            verbose,
            rust_log_set,
            crate_name@,
            plan,
        ),
{
    if quiet {
        LogFilterPlan::Silent
    } else if verbose == 0 {
        if rust_log_set {
            LogFilterPlan::FromEnv
        } else {
            match conf_env_filter {
                Some(s) => LogFilterPlan::Configured(s.to_owned()),
                None => LogFilterPlan::Default,
            }
        }
    } else if verbose == 1 {
        LogFilterPlan::Level { level: LogLevel::Warn, crate_directive: None }
    } else if verbose == 2 {
        LogFilterPlan::Level { level: LogLevel::Info, crate_directive: None }
    } else if verbose == 3 {
        LogFilterPlan::Level {
            level: LogLevel::Info,
            crate_directive: Some(directive_for(crate_name, LogLevel::Debug)),
        }
    } else if verbose == 4 {
        LogFilterPlan::Level { level: LogLevel::Debug, crate_directive: None }
    } else if verbose == 5 {
        LogFilterPlan::Level {
            level: LogLevel::Debug,
            crate_directive: Some(directive_for(crate_name, LogLevel::Trace)),
        }
    } else {
        LogFilterPlan::Level { level: LogLevel::Trace, crate_directive: None }
    }
}

/// The numeric rank of a level: larger shows more.
pub open spec fn level_rank(l: LogLevel) -> int {
    match l {
        LogLevel::Warn => 1,
        LogLevel::Info => 2,
        LogLevel::Debug => 3,
        LogLevel::Trace => 4,
    }
}

/// The most verbose level a `Level` plan lets through for a log target:
/// for the program's own target, the level its directive sets where there is
/// one (the more specific directive decides), else the global level; for
/// any other target, the global level. Other plans give 0.
pub open spec fn plan_target_rank(plan: LogFilterPlan, own_target: bool) -> int {
    match plan {
        LogFilterPlan::Level { level, crate_directive } => match crate_directive {
            Some(d) if own_target => level_rank(d.level),
            _ => level_rank(level),
        },
        _ => 0,
    }
}

/// More `-v` flags never hide a log event: for this program's own target
/// and for every other target, the most verbose level let through does not
/// drop as `-v` flags are added.
pub proof fn lemma_verbosity_monotone(
    conf: Option<Seq<char>>,
    v1: u8,
    v2: u8,
    rust_log_set: bool,
    crate_name: Seq<char>,
    p1: LogFilterPlan,
    p2: LogFilterPlan,
    own_target: bool,
)
    requires
        1 <= v1 <= v2,
        spec_log_filter_plan(conf, false, v1, rust_log_set, crate_name, p1),
        spec_log_filter_plan(conf, false, v2, rust_log_set, crate_name, p2),
    ensures
        plan_target_rank(p1, own_target) <= plan_target_rank(p2, own_target),
{
}

/// Any verbosity above five, when not quiet, lets everything through: the
/// global level is `Trace` and no separate directive is added, whatever the
/// configured filter, `RUST_LOG` or the crate name.
pub proof fn lemma_max_verbosity(
    conf: Option<Seq<char>>,
    v: u8,
    rust_log_set: bool,
    crate_name: Seq<char>,
    plan: LogFilterPlan,
)
    requires
        v > 5,
        spec_log_filter_plan(conf, false, v, rust_log_set, crate_name, plan),
    ensures
        plan matches LogFilterPlan::Level { level: LogLevel::Trace, crate_directive: None },
{
}

/// With `-v` given one to six times, the global level rises one step for
/// every second flag: its rank is `(v + 2) / 2` (warn, info, info, debug,
/// debug, trace). A directive for the program's own target is added only
/// at odd counts of three or more, and it sets that target exactly one
/// step above the global level.
pub proof fn lemma_verbosity_steps(
    conf: Option<Seq<char>>,
    v: u8,
    rust_log_set: bool,
    crate_name: Seq<char>,
    plan: LogFilterPlan,
)
    requires
        1 <= v,
        spec_log_filter_plan(conf, false, v, rust_log_set, crate_name, plan),
    ensures
        plan is Level,
        plan_target_rank(plan, false) == if v <= 6 { (v + 2) / 2 } else { 4 },
        match plan {
            LogFilterPlan::Level { level, crate_directive: Some(d) } => (v == 3 || v == 5)
                && level_rank(d.level) == level_rank(level) + 1
                && d.text@ == crate_directive(crate_name, d.level),
            LogFilterPlan::Level { crate_directive: None, .. } => !(v == 3 || v == 5),
            _ => false,
        },
{
}

/// `-q` silences everything, whatever else is given.
pub proof fn lemma_quiet_silences(
    conf: Option<Seq<char>>,
    v: u8,
    rust_log_set: bool,
    crate_name: Seq<char>,
    plan: LogFilterPlan,
)
    requires
        spec_log_filter_plan(conf, true, v, rust_log_set, crate_name, plan),
    ensures
        plan is Silent,
{
}

} // verus!
