use dotender::args::InstallArgs;
use dotender::config::ConfigItem;
use dotender::errors::Error;
use dotender::install::{create_link, Action, HookOutcome, ItemInstaller, LinkOutcome};

fn args(force: bool, parent: bool, dry_run: bool, skip_hooks: bool) -> InstallArgs {
    InstallArgs { force, parent, dry_run, items: Vec::new(), skip_hooks }
}

fn item(
    mappings: Vec<&str>,
    before: Option<Vec<&str>>,
    after: Option<Vec<&str>>,
) -> ConfigItem {
    ConfigItem {
        mappings: mappings.into_iter().map(String::from).collect(),
        before: before.map(|v| v.into_iter().map(String::from).collect()),
        after: after.map(|v| v.into_iter().map(String::from).collect()),
    }
}

fn machine(item: ConfigItem, a: InstallArgs) -> ItemInstaller {
    ItemInstaller::new(item, a, Some(String::from("/home/u")), String::from("/work"))
}

/// Drives a machine, answering every executed hook from `hook_codes` in
/// order and every link plan with success; records what was asked for.
struct Trace {
    hooks_run: Vec<(String, bool)>,
    hooks_reported: Vec<(String, bool)>,
    links_made: Vec<(String, String)>,
    result: Result<(), Error>,
}

fn drive(mut m: ItemInstaller, hook_codes: &[Option<i32>]) -> Trace {
    let mut next_code = 0usize;
    let mut hooks_run = Vec::new();
    let mut hooks_reported = Vec::new();
    let mut links_made = Vec::new();
    loop {
        match m.next_action() {
            Action::Hook { hook, pre, execute } => {
                hooks_reported.push((hook.clone(), pre));
                if execute {
                    hooks_run.push((hook, pre));
                    let code = hook_codes[next_code];
                    next_code += 1;
                    m.feed_hook(HookOutcome::Finished { code, stderr: String::new() });
                } else {
                    m.feed_hook(HookOutcome::Skipped);
                }
            }
            Action::Link { origin, dest, plan } => {
                links_made.push((origin, dest));
                if plan.is_some() {
                    m.feed_link(LinkOutcome::Created);
                }
            }
            Action::Done | Action::Failed => break,
        }
    }
    Trace { hooks_run, hooks_reported, links_made, result: m.into_result() }
}

#[test]
fn plain_item_links_in_order_and_succeeds() {
    let m = machine(item(vec!["./a.txt:./b.txt"], None, None), args(false, false, false, false));
    let t = drive(m, &[]);
    assert!(t.result.is_ok());
    assert_eq!(t.links_made, vec![(String::from("./a.txt"), String::from("./b.txt"))]);
    assert!(t.hooks_run.is_empty());
}

#[test]
fn link_plans_carry_resolved_paths_and_options() {
    let mut m = machine(item(vec!["./a.txt:./b.txt"], None, None), args(true, true, false, false));
    match m.next_action() {
        Action::Link { origin, dest, plan } => {
            assert_eq!(origin, "./a.txt");
            assert_eq!(dest, "./b.txt");
            let plan = plan.expect("a plan outside dry-run");
            assert_eq!(plan.origin_abs, "/work/a.txt");
            assert_eq!(plan.dest_abs, "/work/b.txt");
            assert!(plan.make_parent);
            assert!(plan.force);
        }
        _ => panic!("expected a link action"),
    }
}

#[test]
fn failing_before_hook_aborts_before_any_link() {
    let m = machine(
        item(vec!["./a:./b"], Some(vec!["exit 1"]), None),
        args(false, false, false, false),
    );
    let t = drive(m, &[Some(1)]);
    assert!(t.result.is_err());
    assert!(t.links_made.is_empty());
    assert!(matches!(t.result, Err(Error::HookExecutionError(_))));
}

#[test]
fn failing_hook_stops_the_remaining_hooks() {
    let m = machine(
        item(vec![], Some(vec!["first", "second"]), None),
        args(false, false, false, false),
    );
    let t = drive(m, &[Some(1)]);
    assert!(t.result.is_err());
    assert_eq!(t.hooks_run, vec![(String::from("first"), true)]);
    match t.result {
        Err(Error::HookExecutionError(e)) => {
            assert_eq!(e.command, "first");
            assert_eq!(e.status, Some(1));
        }
        _ => panic!("expected a hook execution error"),
    }
}

#[test]
fn signal_termination_fails_the_hook() {
    let m = machine(item(vec![], Some(vec!["dies"]), None), args(false, false, false, false));
    let t = drive(m, &[None]);
    match t.result {
        Err(Error::HookExecutionError(e)) => assert_eq!(e.status, None),
        _ => panic!("expected a hook execution error"),
    }
}

#[test]
fn failing_after_hook_leaves_links_created_but_fails_the_item() {
    let m = machine(
        item(vec!["./a:./b"], None, Some(vec!["boom"])),
        args(false, false, false, false),
    );
    let t = drive(m, &[Some(2)]);
    assert!(t.result.is_err());
    assert_eq!(t.links_made.len(), 1);
}

#[test]
fn items_fail_independently() {
    let bad = machine(
        item(vec!["./a:./b"], Some(vec!["exit 1"]), None),
        args(false, false, false, false),
    );
    let good = machine(item(vec!["./a:./b"], None, None), args(false, false, false, false));
    let tb = drive(bad, &[Some(1)]);
    let tg = drive(good, &[]);
    assert!(tb.result.is_err());
    assert!(tg.result.is_ok());
    assert_eq!(tg.links_made.len(), 1);
}

#[test]
fn skip_hooks_reports_hooks_but_executes_none() {
    let m = machine(
        item(vec!["./a:./b"], Some(vec!["touch pre.txt"]), Some(vec!["touch post.txt"])),
        args(false, false, false, true),
    );
    let t = drive(m, &[]);
    assert!(t.result.is_ok());
    assert!(t.hooks_run.is_empty());
    assert_eq!(
        t.hooks_reported,
        vec![(String::from("touch pre.txt"), true), (String::from("touch post.txt"), false)]
    );
    assert_eq!(t.links_made.len(), 1);
}

#[test]
fn dry_run_executes_nothing_but_reports_every_step() {
    let m = machine(
        item(vec!["./a:./b"], Some(vec!["h1"]), Some(vec!["h2"])),
        args(false, false, true, false),
    );
    let t = drive(m, &[]);
    assert!(t.result.is_ok());
    assert!(t.hooks_run.is_empty());
    assert_eq!(t.hooks_reported.len(), 2);
    assert_eq!(t.links_made.len(), 1);
}

#[test]
fn dry_run_link_actions_carry_no_plan() {
    let mut m = machine(item(vec!["missing:also-missing"], None, None), args(false, false, true, false));
    match m.next_action() {
        Action::Link { plan, .. } => assert!(plan.is_none()),
        _ => panic!("expected a link action"),
    }
    assert!(matches!(m.next_action(), Action::Done));
    assert!(m.into_result().is_ok());
}

#[test]
fn malformed_mapping_aborts_the_item() {
    let m = machine(
        item(vec!["no-separator", "a:b"], None, None),
        args(false, false, false, false),
    );
    let t = drive(m, &[]);
    assert!(t.links_made.is_empty());
    match t.result {
        Err(Error::FileMappingError(s)) => assert_eq!(s, "no-separator"),
        _ => panic!("expected a mapping error"),
    }
}

#[test]
fn filesystem_refusal_aborts_the_item() {
    let mut m = machine(item(vec!["a:b", "c:d"], None, None), args(false, false, false, false));
    match m.next_action() {
        Action::Link { plan, .. } => {
            assert!(plan.is_some());
            m.feed_link(LinkOutcome::Failed { message: String::from("permission denied") });
        }
        _ => panic!("expected a link action"),
    }
    assert!(matches!(m.next_action(), Action::Failed));
    match m.into_result() {
        Err(Error::IoError(msg)) => assert_eq!(msg, "permission denied"),
        _ => panic!("expected an io error"),
    }
}

#[test]
fn resolution_failure_fails_the_link_step() {
    let m = machine(item(vec!["./a:/.."], None, None), args(false, false, false, false));
    let t = drive(m, &[]);
    assert!(matches!(t.result, Err(Error::InvalidPath(_))));
    assert!(t.links_made.is_empty());
}

#[test]
fn test_create_link_success() {
    let a = InstallArgs::default();
    let result = create_link("./Cargo.toml", ".foo_link_success.txt", &a, Some("/home/u"), "/work");
    assert!(result.is_ok())
}

#[test]
fn test_create_link_should_override_with_force() {
    let a = InstallArgs {
        force: true,
        parent: false,
        dry_run: false,
        items: vec![String::from("zsh")],
        skip_hooks: false,
    };
    let res = create_link("./Cargo.toml", "./foo_link_override_force.txt", &a, Some("/home/u"), "/work");
    assert!(res.is_ok());
    let res = create_link("./Cargo.toml", "./foo_link_override_force.txt", &a, Some("/home/u"), "/work");
    assert!(res.is_ok());
}

#[test]
fn forced_plans_request_replacement() {
    let a = args(true, false, false, false);
    let plan = create_link("./x", "./y", &a, None, "/w").unwrap().unwrap();
    assert!(plan.force);
    let a = args(false, false, false, false);
    let plan = create_link("./x", "./y", &a, None, "/w").unwrap().unwrap();
    assert!(!plan.force);
}

#[test]
fn dry_run_create_link_always_succeeds_with_nothing_to_do() {
    let a = args(false, false, true, false);
    // even a path that could not resolve is fine: nothing is resolved
    let r = create_link("~/never", "/..", &a, None, "/w");
    match r {
        Ok(None) => {}
        _ => panic!("expected success with no plan"),
    }
}

#[test]
fn test_run_multiple_hooks() {
    let m = machine(
        item(vec![], Some(vec!["touch ./multiple_hooks.txt", "rm ./multiple_hooks.txt"]), None),
        args(false, false, false, false),
    );
    let res = drive(m, &[Some(0), Some(0)]);
    assert!(res.result.is_ok());
}

#[test]
fn test_hooks_failed() {
    let m = machine(
        item(vec![], Some(vec!["invalid-cmd foo bar"]), None),
        args(false, false, false, false),
    );
    let res = drive(m, &[Some(127)]);
    assert!(res.result.is_err());
}
