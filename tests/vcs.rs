use artio::scaffold::Step;
use artio::vcs::{ProbeOutcome, ToolCommand};
use artio::{Git, VCSManager, VCSOptions};

fn check(c: &ToolCommand, args: &[&str], dir: Option<&str>) {
    assert_eq!(c.program, "git");
    assert_eq!(c.args, args.iter().map(|a| a.to_string()).collect::<Vec<String>>());
    assert_eq!(c.working_dir.as_deref(), dir);
}

#[test]
fn git_commands() {
    check(&Git::version_query(), &["--version"], None);
    check(&Git::status_query("/tmp/pkg"), &["status"], Some("/tmp/pkg"));
    check(&Git::init_action("/tmp/pkg"), &["init"], Some("/tmp/pkg"));
}

#[test]
fn git_installed_only_when_version_query_succeeds() {
    assert!(!Git::check_vcs_installed(ProbeOutcome::NotRun));
    assert!(!Git::check_vcs_installed(ProbeOutcome::Exited { success: false }));
    assert!(Git::check_vcs_installed(ProbeOutcome::Exited { success: true }));
}

#[test]
fn repo_assumed_present_unless_status_fails() {
    assert!(Git::check_vcs_repo_exists(ProbeOutcome::NotRun));
    assert!(Git::check_vcs_repo_exists(ProbeOutcome::Exited { success: true }));
    assert!(!Git::check_vcs_repo_exists(ProbeOutcome::Exited { success: false }));
}

#[test]
fn init_runs_only_without_repo_and_with_tool() {
    assert!(Git::initialize_new_vcs_repo(false, true));
    assert!(!Git::initialize_new_vcs_repo(true, true));
    assert!(!Git::initialize_new_vcs_repo(false, false));
    assert!(!Git::initialize_new_vcs_repo(true, false));
}

#[test]
fn vcs_option_steps() {
    let mut steps: Vec<Step> = vec![Step::CreateDestination];
    VCSOptions::NoVcs.initialize_repo(&mut steps);
    assert_eq!(steps, vec![Step::CreateDestination]);
    VCSOptions::Git.initialize_repo(&mut steps);
    assert_eq!(steps, vec![Step::CreateDestination, Step::BootstrapVcs]);
}
