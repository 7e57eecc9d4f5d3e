//! The source tree laid down for each package kind, as a list of steps.
//!
//! Paths in steps are relative to the package directory. What already exists
//! there is described by a [`Survey`], taken before the steps are planned; a
//! source or header file that is already present suppresses the generated one.

use vstd::prelude::*;
use vstd::string::*;
use crate::PackageKind;

verus! {

/// One filesystem action of a plan.
#[derive(Clone, Debug, PartialEq, Eq)]
pub enum Step {
    /// Create the package directory, with any missing parents.
    CreateDestination,
    /// Create one directory (its parent exists by then).
    CreateDir { rel: String },
    /// Create a file and write all of `contents` to it.
    WriteFile { rel: String, contents: String },
    /// Run the selected version-control backend in the package directory.
    BootstrapVcs,
}

/// Mathematical model of a [`Step`].
pub enum StepModel {
    CreateDestination,
    CreateDir(Seq<char>),
    WriteFile(Seq<char>, Seq<char>),
    BootstrapVcs,
}

impl View for Step {
    type V = StepModel;

    open spec fn view(&self) -> StepModel {
        match self {
            Step::CreateDestination => StepModel::CreateDestination,
            Step::CreateDir { rel } => StepModel::CreateDir(rel@),
            Step::WriteFile { rel, contents } => StepModel::WriteFile(rel@, contents@),
            Step::BootstrapVcs => StepModel::BootstrapVcs,
        }
    }
}

pub open spec fn steps_view(v: Seq<Step>) -> Seq<StepModel> {
    v.map_values(|s: Step| s@)
}

/// What was found in the package directory before planning.
#[derive(Clone, Copy, Debug, PartialEq, Eq, Structural)]
pub struct Survey {
    pub destination_exists: bool,
    pub manifest_exists: bool,
    pub src_exists: bool,
    /// `src` holds a file with the source extension.
    pub src_has_source: bool,
    pub include_exists: bool,
    /// `include/<name>` exists.
    pub include_package_exists: bool,
    /// `include/<name>` holds a file with the header extension.
    pub include_package_has_header: bool,
}

pub open spec fn application_stub() -> Seq<char> {
    "int main() {\n  return 0;\n}"@
}

pub open spec fn library_stub() -> Seq<char> {
    "int add(int a, int b) {\n return a + b;\n}"@
}

pub open spec fn header_stub() -> Seq<char> {
    "int add(int, int);"@
}

pub open spec fn source_file(name: Seq<char>) -> Seq<char> {
    "src/"@ + name + ".cpp"@
}

pub open spec fn include_dir(name: Seq<char>) -> Seq<char> {
    "include/"@ + name
}

pub open spec fn header_file(name: Seq<char>) -> Seq<char> {
    "include/"@ + name + "/"@ + name + ".h"@
}

/// `src`, and its one source file unless one is there already.
pub open spec fn basic_steps(name: Seq<char>, stub: Seq<char>, s: Survey) -> Seq<StepModel> {
    (if s.src_exists {
        Seq::empty()
    } else {
        seq![StepModel::CreateDir("src"@)]
    }) + (if s.src_has_source {
        Seq::empty()
    } else {
        seq![StepModel::WriteFile(source_file(name), stub)]
    })
}

/// The library source, then `include/<name>` and its header.
pub open spec fn library_steps(name: Seq<char>, s: Survey) -> Seq<StepModel> {
    basic_steps(name, library_stub(), s) + (if s.include_exists {
        Seq::empty()
    } else {
        seq![StepModel::CreateDir("include"@)]
    }) + (if s.include_package_exists {
        Seq::empty()
    } else {
        seq![StepModel::CreateDir(include_dir(name))]
    }) + (if s.include_package_has_header {
        Seq::empty()
    } else {
        seq![StepModel::WriteFile(header_file(name), header_stub())]
    })
}

pub open spec fn scaffold_steps(name: Seq<char>, kind: PackageKind, s: Survey) -> Seq<StepModel> {
    match kind {
        PackageKind::Application => basic_steps(name, application_stub(), s),
        _ => library_steps(name, s),
    }
}

pub fn get_application_cpp_file_contents() -> (r: String)
    ensures
        r@ == application_stub(),
{
    String::from_str("int main() {\n  return 0;\n}")
}

pub fn get_library_cpp_file_contents() -> (r: String)
    ensures
        r@ == library_stub(),
{
    String::from_str("int add(int a, int b) {\n return a + b;\n}")
}

pub fn get_library_h_file_contents() -> (r: String)
    ensures
        r@ == header_stub(),
{
    String::from_str("int add(int, int);")
}

fn push_step(steps: &mut Vec<Step>, step: Step)
    ensures
        steps_view(final(steps)@) == steps_view(old(steps)@).push(step@),
{
    steps.push(step);
    assert(steps_view(steps@) =~= steps_view(old(steps)@).push(step@));
}

fn concat(a: &str, b: &str) -> (r: String)
    ensures
        r@ == a@ + b@,
{
    let mut r = String::from_str(a);
    r.append(b);
    r
}

fn generate_basic_structure(
    steps: &mut Vec<Step>,
    package_name: &str,
    cpp_file_contents: String,
    survey: &Survey,
)
    ensures
        steps_view(final(steps)@) == steps_view(old(steps)@) + basic_steps(
            package_name@,
            cpp_file_contents@,
            *survey,
        ),
{
    let ghost start = steps_view(steps@);
    proof {
        reveal_strlit("src");
    }
    if !survey.src_exists {
        push_step(steps, Step::CreateDir { rel: String::from_str("src") });
    }
    if !survey.src_has_source {
        let rel = concat(concat("src/", package_name).as_str(), ".cpp");
        push_step(steps, Step::WriteFile { rel, contents: cpp_file_contents });
    }
    assert(steps_view(steps@) =~= start + basic_steps(package_name@, cpp_file_contents@, *survey));
}

fn generate_application_structure(steps: &mut Vec<Step>, package_name: &str, survey: &Survey)
    ensures
        steps_view(final(steps)@) == steps_view(old(steps)@) + scaffold_steps(
            package_name@,
            PackageKind::Application,
            *survey,
        ),
{
    generate_basic_structure(steps, package_name, get_application_cpp_file_contents(), survey);
}

fn generate_library_structure(steps: &mut Vec<Step>, package_name: &str, survey: &Survey)
    ensures
        steps_view(final(steps)@) == steps_view(old(steps)@) + library_steps(
            package_name@,
            *survey,
        ),
{
    let ghost start = steps_view(steps@);
    generate_basic_structure(steps, package_name, get_library_cpp_file_contents(), survey);
    proof {
        reveal_strlit("include");
    }
    if !survey.include_exists {
        push_step(steps, Step::CreateDir { rel: String::from_str("include") });
    }
    if !survey.include_package_exists {
        push_step(steps, Step::CreateDir { rel: concat("include/", package_name) });
    }
    if !survey.include_package_has_header {
        let dir = concat(concat("include/", package_name).as_str(), "/");
        let rel = concat(concat(dir.as_str(), package_name).as_str(), ".h");
        push_step(steps, Step::WriteFile { rel, contents: get_library_h_file_contents() });
    }
    assert(steps_view(steps@) =~= start + library_steps(package_name@, *survey));
}

/// Adds the steps that lay down the source tree of a `kind` package named
/// `package_name`, given what is already there.
pub(crate) fn push_scaffold(steps: &mut Vec<Step>, package_name: &str, kind: PackageKind, survey: &Survey)
    ensures
        steps_view(final(steps)@) == steps_view(old(steps)@) + scaffold_steps(
            package_name@,
            kind,
            *survey,
        ),
{
    match kind {
        PackageKind::Application => generate_application_structure(steps, package_name, survey),
        PackageKind::DynamicLib | PackageKind::StaticLib => generate_library_structure(
            steps,
            package_name,
            survey,
        ),
    }
}

/// The steps that lay down the source tree of a `kind` package named
/// `package_name`, given what is already there.
pub fn scaffold(package_name: &str, kind: PackageKind, survey: &Survey) -> (r: Vec<Step>)
    ensures
        steps_view(r@) == scaffold_steps(package_name@, kind, *survey),
{
    let mut steps: Vec<Step> = Vec::new();
    assert(steps_view(steps@) =~= Seq::<StepModel>::empty());
    push_scaffold(&mut steps, package_name, kind, survey);
    assert(steps_view(steps@) =~= scaffold_steps(package_name@, kind, *survey));
    steps
}

} // verus!
