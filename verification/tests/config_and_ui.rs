use dotender::args::InstallArgs;
use dotender::config::{check_version, parse_hook, Config, ConfigItem, CONFIG_VERSION};
use dotender::errors::{Error, HookExecutionError};
use dotender::ui::{InstallStep, InstallUIState};
use dotender::utils::find_invalid_keys;

fn sample_item() -> ConfigItem {
    ConfigItem { mappings: vec![String::from("a:b")], before: None, after: None }
}

fn sample_config() -> Config {
    Config {
        version: CONFIG_VERSION,
        dotfiles: vec![
            (String::from("zsh"), sample_item()),
            (String::from("vim"), sample_item()),
        ],
    }
}

#[test]
fn supported_version_passes() {
    assert!(check_version(CONFIG_VERSION).is_ok());
}

#[test]
fn version_mismatch_is_fatal() {
    match check_version(2) {
        Err(Error::InvalidConfigVersion(v)) => assert_eq!(v, 2),
        _ => panic!("expected a version error"),
    }
}

#[test]
fn find_item_looks_up_by_name() {
    let cfg = sample_config();
    assert!(cfg.find_item(&String::from("zsh")).is_some());
    assert!(cfg.find_item(&String::from("emacs")).is_none());
}

#[test]
fn find_invalid_keys_reports_the_first_unknown_name() {
    let cfg = sample_config();
    let all_known = vec![String::from("zsh"), String::from("vim")];
    assert!(find_invalid_keys(&all_known, &cfg).is_none());
    let with_unknown = vec![String::from("zsh"), String::from("nope"), String::from("bad")];
    assert_eq!(find_invalid_keys(&with_unknown, &cfg).unwrap(), "nope");
}

#[test]
fn parse_hook_wraps_the_shell() {
    let cmd = parse_hook("echo hi | wc -l", Some("/bin/bash"));
    assert_eq!(cmd.program, "/bin/bash");
    assert_eq!(cmd.args, vec![String::from("-c"), String::from("echo hi | wc -l")]);
}

#[test]
fn parse_hook_defaults_the_shell() {
    let cmd = parse_hook("true", None);
    assert_eq!(cmd.program, "/bin/sh");
    assert_eq!(cmd.args.len(), 2);
}

#[test]
fn hook_execution_error_holds_its_parts() {
    let e = HookExecutionError::new(Some(3), String::from("make install"), String::from("oops"));
    assert_eq!(e.status, Some(3));
    assert_eq!(e.command, "make install");
    assert_eq!(e.stderr, "oops");
    let m = e.message();
    assert_eq!(m, "Hook 'make install' exited with a non-zero code, stderr: 'oops'");
}

#[test]
fn signal_termination_is_named_in_the_message() {
    let e = HookExecutionError::new(None, String::from("cmd"), String::new());
    assert_eq!(e.message(), "Hook 'cmd' terminated by signal, stderr: ''");
}

#[test]
fn error_messages_name_the_offender() {
    assert_eq!(
        Error::FileMappingError(String::from("xy")).message(),
        "invalid mapping 'xy'"
    );
    assert_eq!(Error::InvalidPath(String::from("/..")).message(), "Invalid path: /..");
    assert_eq!(Error::InvalidItem(String::from("k")).message(), "Item: 'k' is invalid");
    assert_eq!(Error::IoError(String::from("denied")).message(), "denied");
}

#[test]
fn install_step_messages_describe_the_step() {
    assert_eq!(
        InstallStep::PreInstallHook(String::from("h")).message(),
        "Running Pre-Install hook: h"
    );
    assert_eq!(
        InstallStep::PostInstallHook(String::from("h")).message(),
        "Running Post-Install hook: h"
    );
    assert_eq!(
        InstallStep::Link(String::from("a"), String::from("b")).message(),
        "linking: a -> b"
    );
}

#[test]
fn ui_state_remembers_the_step() {
    let s = InstallUIState::from(InstallStep::Link(String::from("a"), String::from("b")));
    assert!(matches!(s.0, Some(InstallStep::Link(_, _))));
}

#[test]
fn default_args_select_nothing_and_set_no_flag() {
    let a = InstallArgs::default();
    assert!(!a.force && !a.parent && !a.dry_run && !a.skip_hooks);
    assert!(a.items.is_empty());
}
