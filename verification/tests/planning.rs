use uv_ffi::command::LinkMode;
use uv_ffi::dispatch::{cli_arguments, effective_command, heal_action, plan_run, run_outcome, HealAction, RunPlan};
use uv_ffi::install::{cache_dir, plan_direct_install, resolve_link_mode, select_indexes, IndexSelection};

#[test]
fn interpreter_commands_run_on_engine() {
    match plan_run("pip install --python /py rich", false) {
        RunPlan::Engine(o) => {
            assert_eq!(o.python, Some("/py".to_string()));
            assert_eq!(o.packages, vec!["rich".to_string()]);
            assert!(!o.quiet);
        }
        _ => panic!("expected the engine"),
    }
}

#[test]
fn install_without_interpreter_goes_to_fast_cli_quietly() {
    match plan_run("pip install rich", false) {
        RunPlan::FastCli(o) => {
            assert!(o.quiet);
            assert_eq!(o.packages, vec!["rich".to_string()]);
        }
        _ => panic!("expected the fast CLI"),
    }
}

#[test]
fn profiling_keeps_output() {
    match plan_run("pip install rich", true) {
        RunPlan::FastCli(o) => assert!(!o.quiet),
        _ => panic!("expected the fast CLI"),
    }
}

#[test]
fn other_commands_go_to_full_parser() {
    match plan_run("pip freeze", false) {
        RunPlan::FullCli(args) => assert_eq!(args, vec!["uv", "pip", "freeze", "-q"]),
        _ => panic!("expected the full parser"),
    }
    match plan_run("pip uninstall -q rich", false) {
        RunPlan::FullCli(args) => assert_eq!(args, vec!["uv", "pip", "uninstall", "-q", "rich"]),
        _ => panic!("expected the full parser"),
    }
    match plan_run("pip list", true) {
        RunPlan::FullCli(args) => assert_eq!(args, vec!["uv", "pip", "list"]),
        _ => panic!("expected the full parser"),
    }
}

#[test]
fn effective_command_appends_quiet_once() {
    assert_eq!(effective_command("pip freeze", false), "pip freeze -q");
    assert_eq!(effective_command("pip freeze -q", false), "pip freeze -q");
    assert_eq!(effective_command("pip freeze", true), "pip freeze");
    assert_eq!(cli_arguments("  a  b "), vec!["uv", "a", "b"]);
}

#[test]
fn link_mode_defaults_to_symlink() {
    assert_eq!(resolve_link_mode(None), LinkMode::Symlink);
    assert_eq!(resolve_link_mode(Some("hardlink")), LinkMode::Hardlink);
    assert_eq!(resolve_link_mode(Some("clone")), LinkMode::Clone);
    assert_eq!(resolve_link_mode(Some("bogus")), LinkMode::Symlink);
}

#[test]
fn index_selection() {
    assert!(matches!(select_indexes(None, true, None, true), IndexSelection::Default));
    match select_indexes(Some("u1".to_string()), true, Some("u2".to_string()), true) {
        IndexSelection::Listed(v) => {
            assert_eq!(v.len(), 2);
            assert_eq!(v[0].url, "u1");
            assert!(!v[0].extra);
            assert_eq!(v[1].url, "u2");
            assert!(v[1].extra);
        }
        IndexSelection::Default => panic!("expected a list"),
    }
    match select_indexes(Some("bad".to_string()), false, None, true) {
        IndexSelection::Listed(v) => assert!(v.is_empty()),
        IndexSelection::Default => panic!("expected an empty list"),
    }
    match select_indexes(None, false, Some("u2".to_string()), true) {
        IndexSelection::Listed(v) => {
            assert_eq!(v.len(), 1);
            assert!(v[0].extra);
        }
        IndexSelection::Default => panic!("expected a list"),
    }
}

#[test]
fn direct_install_plan() {
    let plan = plan_direct_install(
        vec!["rich==14.3.3".to_string()],
        true,
        Some("copy"),
        None,
        false,
        None,
        false,
        Some("/tmp/bubble".to_string()),
    );
    assert_eq!(plan.target, Some("/tmp/bubble".to_string()));
    assert_eq!(plan.packages, vec!["rich==14.3.3".to_string()]);
    assert!(plan.reinstall_all);
    assert_eq!(plan.link_mode, LinkMode::Copy);
    assert!(matches!(plan.indexes, IndexSelection::Default));
}

fn s(v: &str) -> Option<String> {
    Some(v.to_string())
}

#[test]
fn cache_directory_choice() {
    let tmp = "/var/tmp".to_string();
    assert_eq!(cache_dir(s("/c"), s("/h"), s("C:\\Users\\me"), s("L"), tmp.clone()), vec!["/c"]);
    assert_eq!(
        cache_dir(None, s("/home/me"), s("C:\\Users\\me"), s("L"), tmp.clone()),
        vec!["/home/me", ".cache", "uv"]
    );
    assert_eq!(
        cache_dir(None, None, s("C:\\Users\\me"), s("L"), tmp.clone()),
        vec!["C:\\Users\\me", ".cache", "uv"]
    );
    assert_eq!(
        cache_dir(None, None, None, s("C:\\Users\\me\\AppData\\Local"), tmp.clone()),
        vec!["C:\\Users\\me\\AppData\\Local", "uv", "cache"]
    );
    assert_eq!(cache_dir(None, None, None, None, tmp), vec!["/var/tmp", "uv"]);
}

#[test]
fn exit_codes_follow_status() {
    assert_eq!(run_outcome(true, true), 0);
    assert_eq!(run_outcome(true, false), 1);
    assert_eq!(run_outcome(false, false), 1);
    assert_eq!(run_outcome(false, true), 1);
}

#[test]
fn healing_retries_once() {
    assert_eq!(
        heal_action(false, "failed to read dist-info/METADATA: No such file or directory (os error 2)"),
        HealAction::RescanAndRetry
    );
    assert_eq!(heal_action(false, "No matching distribution found for torch==2.11.0"), HealAction::RefreshRegistryAndRetry);
    assert_eq!(heal_action(true, "No such file or directory (os error 2)"), HealAction::GiveUp);
    assert_eq!(heal_action(true, "anything"), HealAction::GiveUp);
}
