//! Choosing how a command runs: through the resident engine, through uv's
//! CLI entry point with arguments built directly, or through uv's full
//! command-line parser.

use crate::command::{install_command, try_parse_ffi_install, FfiInstallOpts, InstallOptsModel};
use crate::text::{contains_str, occurs_in, split_words, str_views, words};
use vstd::prelude::*;

verus! {

/// How a command is carried out.
pub enum RunPlan {
    /// A `pip install` for a named interpreter, run by the resident engine.
    Engine(FfiInstallOpts),
    /// A `pip install` run through uv's CLI entry point, its arguments built
    /// without the command-line parser.
    FastCli(FfiInstallOpts),
    /// Any other command: these words go to uv's command-line parser.
    FullCli(Vec<String>),
}

/// A plan, as plain values.
pub enum RunPlanModel {
    Engine(InstallOptsModel),
    FastCli(InstallOptsModel),
    FullCli(Seq<Seq<char>>),
}

impl View for RunPlan {
    type V = RunPlanModel;

    open spec fn view(&self) -> RunPlanModel {
        match self {
            RunPlan::Engine(o) => RunPlanModel::Engine(o@),
            RunPlan::FastCli(o) => RunPlanModel::FastCli(o@),
            RunPlan::FullCli(args) => RunPlanModel::FullCli(args.deep_view()),
        }
    }
}

/// The command that the CLI paths run: `-q` is appended unless profiling is
/// on or the command already holds ` -q`.
pub open spec fn cli_command(cmd: Seq<char>, profile_enabled: bool) -> Seq<char> {
    if !profile_enabled && !occurs_in(cmd, " -q"@) {
        cmd + " -q"@
    } else {
        cmd
    }
}

/// How `cmd` runs: an install command that names an interpreter goes to the
/// engine; otherwise the CLI form of the command goes to the CLI entry point
/// directly where it is an install command the fast path reads, and to the
/// full parser, preceded by `uv`, where it is not.
pub open spec fn run_plan(cmd: Seq<char>, profile_enabled: bool) -> RunPlanModel {
    match install_command(cmd) {
        Some(o) if o.python is Some => RunPlanModel::Engine(o),
        _ => {
            let effective = cli_command(cmd, profile_enabled);
            match install_command(effective) {
                Some(o) => RunPlanModel::FastCli(o),
                None => RunPlanModel::FullCli(seq!["uv"@] + words(effective)),
            }
        },
    }
}

/// The CLI form of a command.
pub fn effective_command(cmd: &str, profile_enabled: bool) -> (r: String)
    ensures
        r@ == cli_command(cmd@, profile_enabled),
{
    if !profile_enabled && !contains_str(cmd, " -q") {
        cmd.to_owned().concat(" -q")
    } else {
        cmd.to_owned()
    }
}

/// The arguments handed to the command-line parser: `uv` and the words of
/// the command.
pub fn cli_arguments(cmd: &str) -> (r: Vec<String>)
    ensures
        r.deep_view() == seq!["uv"@] + words(cmd@),
{
    let tokens = split_words(cmd);
    let mut args: Vec<String> = Vec::new();
    args.push("uv".to_owned());
    let n = tokens.len();
    let mut i: usize = 0;
    while i < n
        invariant
            n == tokens@.len(),
            i <= n,
            args.deep_view() == seq!["uv"@] + str_views(tokens@).take(i as int),
        decreases n - i,
    {
        let ghost before = args.deep_view();
        args.push(tokens[i].to_owned());
        assert(args.deep_view() =~= before.push(tokens@[i as int]@));
        assert(str_views(tokens@).take(i + 1) =~= str_views(tokens@).take(i as int).push(
            tokens@[i as int]@,
        ));
        i = i + 1;
    }
    assert(str_views(tokens@).take(n as int) =~= str_views(tokens@));
    args
}

/// Decides how `cmd` runs.
pub fn plan_run(cmd: &str, profile_enabled: bool) -> (r: RunPlan)
    ensures
        r@ == run_plan(cmd@, profile_enabled),
{
    if let Some(opts) = try_parse_ffi_install(cmd) {
        if opts.python.is_some() {
            return RunPlan::Engine(opts);
        }
    }
    let effective = effective_command(cmd, profile_enabled);
    match try_parse_ffi_install(effective.as_str()) {
        Some(opts) => RunPlan::FastCli(opts),
        None => RunPlan::FullCli(cli_arguments(effective.as_str())),
    }
}

} // verus!

verus! {

/// A `pip install` command that the fast path reads never reaches uv's
/// command-line parser: it runs on the engine where it names an
/// interpreter, and otherwise through the CLI entry point with the same
/// packages.
pub proof fn lemma_install_commands_bypass_parser(cmd: Seq<char>, profile_enabled: bool)
    requires
        install_command(cmd) is Some,
    ensures
        install_command(cmd).unwrap().python is Some ==> run_plan(cmd, profile_enabled)
            == RunPlanModel::Engine(install_command(cmd).unwrap()),
        install_command(cmd).unwrap().python is None ==> (run_plan(cmd, profile_enabled) matches RunPlanModel::FastCli(o)
            && o.packages == install_command(cmd).unwrap().packages),
{
    if install_command(cmd).unwrap().python is None && cli_command(cmd, profile_enabled) != cmd {
        crate::command::lemma_install_command_with_quiet(cmd);
    }
}

} // verus!

verus! {

/// The exit code of a run: 0 when uv returned and reported success, 1 when
/// it returned an error or reported any other status.
pub open spec fn exit_code(returned: bool, succeeded: bool) -> i32 {
    if returned && succeeded {
        0
    } else {
        1
    }
}

/// The exit code of a run, from whether uv returned without error and
/// whether the status it returned is success.
pub fn run_outcome(returned: bool, succeeded: bool) -> (rc: i32)
    ensures
        rc == exit_code(returned, succeeded),
{
    if returned && succeeded {
        0
    } else {
        1
    }
}

/// What the engine does after a failed install.
#[derive(Clone, Copy, Debug, PartialEq, Eq, Structural)]
pub enum HealAction {
    /// Report the failure.
    GiveUp,
    /// Drop the in-memory site-packages state, rescan the disk and retry.
    RescanAndRetry,
    /// Drop the in-memory registry state and retry.
    RefreshRegistryAndRetry,
}

/// The action after a failed install with error text `error`: a failure
/// after the one retry is reported; a missing file (`os error 2`, a
/// `dist-info` removed behind the engine's back) forces a rescan; any other
/// failure refreshes the registry state.
pub open spec fn heal_action_for(retried: bool, error: Seq<char>) -> HealAction {
    if retried {
        HealAction::GiveUp
    } else if occurs_in(error, "os error 2"@) {
        HealAction::RescanAndRetry
    } else {
        HealAction::RefreshRegistryAndRetry
    }
}

/// Decides how the engine answers a failed install.
pub fn heal_action(retried: bool, error: &str) -> (r: HealAction)
    ensures
        r == heal_action_for(retried, error@),
{
    if retried {
        HealAction::GiveUp
    } else if contains_str(error, "os error 2") {
        HealAction::RescanAndRetry
    } else {
        HealAction::RefreshRegistryAndRetry
    }
}

} // verus!

verus! {

/// An install that names no interpreter reaches the CLI entry point with the
/// options it was given: the same packages and reinstall request always,
/// every option but quiet output where no flag of the command is left
/// waiting for its value, and exactly the same options where nothing is
/// appended to the command.
pub proof fn lemma_fast_cli_keeps_options(cmd: Seq<char>, profile_enabled: bool)
    requires
        install_command(cmd) is Some,
        install_command(cmd).unwrap().python is None,
    ensures
        run_plan(cmd, profile_enabled) matches RunPlanModel::FastCli(fast) && {
            let given = install_command(cmd).unwrap();
            &&& fast.packages == given.packages
            &&& fast.reinstall == given.reinstall
            &&& !crate::command::awaits_value(words(cmd.skip("pip install "@.len() as int)), 0)
                ==> crate::command::same_except_quiet(fast, given)
            &&& cli_command(cmd, profile_enabled) == cmd ==> fast == given
        },
{
    if cli_command(cmd, profile_enabled) != cmd {
        crate::command::lemma_install_command_with_quiet(cmd);
    }
}

} // verus!
