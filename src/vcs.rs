//! Version-control bootstrap: which external commands a backend runs, and
//! what their outcomes decide. The commands themselves are run by the caller.

use vstd::prelude::*;
use vstd::string::*;

verus! {

/// How a probe command ended.
#[derive(Clone, Copy, Debug, PartialEq, Eq, Structural)]
pub enum ProbeOutcome {
    /// The command could not be started at all.
    NotRun,
    /// The command ran; `success` tells whether it reported success.
    Exited { success: bool },
}

/// An external command: program, arguments, and the directory to run it in
/// (`None`: no requirement).
#[derive(Clone, Debug)]
pub struct ToolCommand {
    pub program: String,
    pub args: Vec<String>,
    pub working_dir: Option<String>,
}

/// Mathematical model of a [`ToolCommand`].
pub struct CommandModel {
    pub program: Seq<char>,
    pub args: Seq<Seq<char>>,
    pub working_dir: Option<Seq<char>>,
}

impl View for ToolCommand {
    type V = CommandModel;

    open spec fn view(&self) -> CommandModel {
        CommandModel {
            program: self.program@,
            args: self.args@.map_values(|a: String| a@),
            working_dir: match self.working_dir {
                Some(d) => Some(d@),
                None => None,
            },
        }
    }
}

/// A version-control backend.
pub trait VCSManager {
    spec fn version_query_spec() -> CommandModel;

    spec fn status_query_spec(path: Seq<char>) -> CommandModel;

    spec fn init_action_spec(path: Seq<char>) -> CommandModel;

    /// The command that asks the tool for its version.
    fn version_query() -> (r: ToolCommand)
        ensures
            r@ == Self::version_query_spec(),
    ;

    /// The command that asks whether `path` is inside a repository.
    fn status_query(path: &str) -> (r: ToolCommand)
        ensures
            r@ == Self::status_query_spec(path@),
    ;

    /// The command that creates a repository at `path`.
    fn init_action(path: &str) -> (r: ToolCommand)
        ensures
            r@ == Self::init_action_spec(path@),
    ;

    /// The tool is installed when its version query ran and succeeded.
    fn check_vcs_installed(version_probe: ProbeOutcome) -> (r: bool)
        ensures
            r == (version_probe == ProbeOutcome::Exited { success: true }),
    ;

    /// A repository is assumed present unless the status query ran and failed.
    fn check_vcs_repo_exists(status_probe: ProbeOutcome) -> (r: bool)
        ensures
            r == (status_probe != ProbeOutcome::Exited { success: false }),
    ;

    /// Whether the init action is to run.
    fn initialize_new_vcs_repo(repo_exists: bool, installed: bool) -> (r: bool)
        ensures
            r == (!repo_exists && installed),
    ;
}

/// The Git backend.
pub struct Git;

pub open spec fn git_command(args: Seq<Seq<char>>, dir: Option<Seq<char>>) -> CommandModel {
    CommandModel { program: "git"@, args, working_dir: dir }
}

fn git_with(arg: &str, dir: Option<String>) -> (r: ToolCommand)
    ensures
        r@ == git_command(
            seq![arg@],
            match dir {
                Some(d) => Some(d@),
                None => None,
            },
        ),
{
    let mut args: Vec<String> = Vec::new();
    args.push(String::from_str(arg));
    let r = ToolCommand { program: String::from_str("git"), args, working_dir: dir };
    assert(r@.args =~= seq![arg@]);
    r
}

impl VCSManager for Git {
    open spec fn version_query_spec() -> CommandModel {
        git_command(seq!["--version"@], None)
    }

    open spec fn status_query_spec(path: Seq<char>) -> CommandModel {
        git_command(seq!["status"@], Some(path))
    }

    open spec fn init_action_spec(path: Seq<char>) -> CommandModel {
        git_command(seq!["init"@], Some(path))
    }

    fn version_query() -> (r: ToolCommand) {
        git_with("--version", None)
    }

    fn status_query(path: &str) -> (r: ToolCommand) {
        git_with("status", Some(String::from_str(path)))
    }

    fn init_action(path: &str) -> (r: ToolCommand) {
        git_with("init", Some(String::from_str(path)))
    }

    fn check_vcs_installed(version_probe: ProbeOutcome) -> (r: bool) {
        match version_probe {
            ProbeOutcome::NotRun => false,
            ProbeOutcome::Exited { success } => success,
        }
    }

    fn check_vcs_repo_exists(status_probe: ProbeOutcome) -> (r: bool) {
        match status_probe {
            ProbeOutcome::NotRun => true,
            ProbeOutcome::Exited { success } => success,
        }
    }

    fn initialize_new_vcs_repo(repo_exists: bool, installed: bool) -> (r: bool) {
        !repo_exists && installed
    }
}

} // verus!
