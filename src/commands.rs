//! The two entry operations: `init` plans a package inside an existing
//! directory, `new` plans the directory too. Each returns the full plan (the
//! manifest, the steps in order, the confirmation message) or the typed error
//! that stops it before anything is written.

use vstd::prelude::*;
use vstd::string::*;
use crate::manifest::{
    decode_manifest, lemma_manifest_round_trip, manifest_file, manifest_file_name, manifest_text,
    starts_with, ManifestFormatError,
};
use crate::scaffold::{
    application_stub, basic_steps, header_file, header_stub, library_steps, library_stub,
    push_scaffold, scaffold_steps, source_file, steps_view, Step, StepModel, Survey,
};
use crate::{alias_of, initial_version, vcs_steps, PackageKind, PackageProperties, PropertiesModel, VCSOptions};

verus! {

/// Why an operation refused to start.
#[derive(Clone, Copy, PartialEq, Eq, Debug, Structural)]
pub enum InitError {
    /// `init` on a directory that does not exist.
    DestinationMissing,
    /// `new` on a path that already exists.
    DestinationExists,
    /// The directory already holds a manifest.
    AlreadyInitialized,
}

/// Everything an operation will do, in order.
#[derive(Clone, Debug)]
pub struct Plan {
    pub properties: PackageProperties,
    /// The manifest text, also written by the first file step.
    pub manifest: String,
    pub steps: Vec<Step>,
    /// Confirmation for the user.
    pub message: String,
}

/// Mathematical model of a [`Plan`].
pub struct PlanModel {
    pub properties: PropertiesModel,
    pub manifest: Seq<char>,
    pub steps: Seq<StepModel>,
    pub message: Seq<char>,
}

impl View for Plan {
    type V = PlanModel;

    open spec fn view(&self) -> PlanModel {
        PlanModel {
            properties: self.properties@,
            manifest: self.manifest@,
            steps: steps_view(self.steps@),
            message: self.message@,
        }
    }
}

pub open spec fn plan_result_view(r: Result<Plan, InitError>) -> Result<PlanModel, InitError> {
    match r {
        Ok(p) => Ok(p@),
        Err(e) => Err(e),
    }
}

pub open spec fn option_view(o: Option<String>) -> Option<Seq<char>> {
    match o {
        Some(s) => Some(s@),
        None => None,
    }
}

/// The final component of a path as `std::path::Path::file_name` gives it.
pub uninterp spec fn final_path_segment(path: Seq<char>) -> Option<Seq<char>>;

/// Relies on `std::path::Path::file_name`: the last normal component of the
/// path, or nothing (for a root, or a path ending in `..`). The text of a
/// `&str` path converts back without loss.
#[verifier::external_body]
fn file_name_of(path: &str) -> (r: Option<String>)
    ensures
        option_view(r) == final_path_segment(path@),
{
    match std::path::Path::new(path).file_name() {
        Some(n) => Some(n.to_string_lossy().into_owned()),
        None => None,
    }
}

pub open spec fn fallback_name() -> Seq<char> {
    "package"@
}

/// The package name: the one given, else the path's final segment, else a
/// fixed fallback.
pub open spec fn package_name_of(path: Seq<char>, name: Option<Seq<char>>) -> Seq<char> {
    match name {
        Some(n) => n,
        None => match final_path_segment(path) {
            Some(s) => s,
            None => fallback_name(),
        },
    }
}

pub fn resolve_package_name(path: &str, name: Option<String>) -> (r: String)
    ensures
        r@ == package_name_of(path@, option_view(name)),
{
    match name {
        Some(n) => n,
        None => match file_name_of(path) {
            Some(s) => s,
            None => String::from_str("package"),
        },
    }
}

pub open spec fn created_message(kind: PackageKind, name: Seq<char>) -> Seq<char> {
    "Created "@ + alias_of(kind) + " '"@ + name + "' package"@
}

/// What `init` plans on a directory described by `s`.
pub open spec fn init_result(
    path: Seq<char>,
    name: Option<Seq<char>>,
    kind: PackageKind,
    vcs: VCSOptions,
    s: Survey,
) -> Result<PlanModel, InitError> {
    if !s.destination_exists {
        Err(InitError::DestinationMissing)
    } else if s.manifest_exists {
        Err(InitError::AlreadyInitialized)
    } else {
        let n = package_name_of(path, name);
        let p = PropertiesModel { name: n, kind, version: initial_version() };
        Ok(
            PlanModel {
                properties: p,
                manifest: manifest_text(p),
                steps: seq![StepModel::WriteFile(manifest_file_name(), manifest_text(p))]
                    + scaffold_steps(n, kind, s) + vcs_steps(vcs),
                message: created_message(kind, n),
            },
        )
    }
}

/// A directory that has just been created: it exists and holds nothing.
pub open spec fn empty_directory() -> Survey {
    Survey {
        destination_exists: true,
        manifest_exists: false,
        src_exists: false,
        src_has_source: false,
        include_exists: false,
        include_package_exists: false,
        include_package_has_header: false,
    }
}

/// What `new` plans: create the directory, then what `init` plans on it.
pub open spec fn new_result(
    path: Seq<char>,
    name: Option<Seq<char>>,
    kind: PackageKind,
    vcs: VCSOptions,
    destination_exists: bool,
) -> Result<PlanModel, InitError> {
    if destination_exists {
        Err(InitError::DestinationExists)
    } else {
        match init_result(path, name, kind, vcs, empty_directory()) {
            Ok(p) => Ok(PlanModel { steps: seq![StepModel::CreateDestination] + p.steps, ..p }),
            Err(e) => Err(e),
        }
    }
}

fn created_message_of(kind: PackageKind, name: &str) -> (r: String)
    ensures
        r@ == created_message(kind, name@),
{
    let mut m = String::from_str("Created ");
    let alias = kind.get_alias();
    m.append(alias.as_str());
    m.append(" '");
    m.append(name);
    m.append("' package");
    m
}

/// Plans a package inside the existing directory `path`, described by
/// `survey` (taken with the resolved package name).
pub fn init_package(
    path: &str,
    name: Option<String>,
    category: PackageKind,
    vcs: VCSOptions,
    survey: &Survey,
) -> (r: Result<Plan, InitError>)
    ensures
        plan_result_view(r) == init_result(path@, option_view(name), category, vcs, *survey),
{
    if !survey.destination_exists {
        return Err(InitError::DestinationMissing);
    }
    if survey.manifest_exists {
        return Err(InitError::AlreadyInitialized);
    }
    let package_name = resolve_package_name(path, name);
    let message = created_message_of(category, package_name.as_str());
    let properties = PackageProperties::fresh(package_name, category);
    let manifest = properties.to_manifest();
    let mut steps: Vec<Step> = Vec::new();
    steps.push(Step::WriteFile { rel: manifest_file(), contents: manifest.clone() });
    push_scaffold(&mut steps, properties.name.as_str(), category, survey);
    vcs.initialize_repo(&mut steps);
    let plan = Plan { properties, manifest, steps, message };
    assert(plan@.steps =~= init_result(path@, option_view(name), category, vcs, *survey)->Ok_0.steps);
    Ok(plan)
}

/// Plans a package in a new directory `path`; `destination_exists` tells
/// whether something is already there.
pub fn new_package(
    path: &str,
    name: Option<String>,
    category: PackageKind,
    vcs: VCSOptions,
    destination_exists: bool,
) -> (r: Result<Plan, InitError>)
    ensures
        plan_result_view(r) == new_result(path@, option_view(name), category, vcs, destination_exists),
{
    if destination_exists {
        return Err(InitError::DestinationExists);
    }
    let survey = Survey {
        destination_exists: true,
        manifest_exists: false,
        src_exists: false,
        src_has_source: false,
        include_exists: false,
        include_package_exists: false,
        include_package_has_header: false,
    };
    match init_package(path, name, category, vcs, &survey) {
        Ok(plan) => {
            let mut steps: Vec<Step> = Vec::new();
            steps.push(Step::CreateDestination);
            let mut rest = plan.steps;
            steps.append(&mut rest);
            let r = Plan { properties: plan.properties, manifest: plan.manifest, steps, message: plan.message };
            assert(r@.steps =~= new_result(path@, option_view(name), category, vcs, destination_exists)->Ok_0.steps);
            Ok(r)
        },
        Err(e) => Err(e),
    }
}

/// The files that `steps` write at paths starting with `dir`, in order, with
/// their contents.
pub open spec fn writes_under(steps: Seq<StepModel>, dir: Seq<char>) -> Seq<(Seq<char>, Seq<char>)>
    decreases steps.len(),
{
    if steps.len() == 0 {
        Seq::empty()
    } else {
        let head = match steps[0] {
            StepModel::WriteFile(p, c) => if starts_with(p, dir) {
                seq![(p, c)]
            } else {
                Seq::empty()
            },
            _ => Seq::empty(),
        };
        head + writes_under(steps.drop_first(), dir)
    }
}

proof fn lemma_writes_under_concat(a: Seq<StepModel>, b: Seq<StepModel>, dir: Seq<char>)
    ensures
        writes_under(a + b, dir) == writes_under(a, dir) + writes_under(b, dir),
    decreases a.len(),
{
    if a.len() == 0 {
        assert(a + b =~= b);
        assert(writes_under(a, dir) + writes_under(b, dir) =~= writes_under(b, dir));
    } else {
        assert((a + b).drop_first() =~= a.drop_first() + b);
        assert((a + b)[0] == a[0]);
        lemma_writes_under_concat(a.drop_first(), b, dir);
        let head = match a[0] {
            StepModel::WriteFile(p, c) => if starts_with(p, dir) {
                seq![(p, c)]
            } else {
                Seq::empty()
            },
            _ => Seq::empty(),
        };
        assert(writes_under(a + b, dir) =~= head + (writes_under(a.drop_first(), dir) + writes_under(b, dir)));
    }
}

proof fn lemma_writes_under_one(x: StepModel, dir: Seq<char>)
    ensures
        writes_under(seq![x], dir) == match x {
            StepModel::WriteFile(p, c) => if starts_with(p, dir) {
                seq![(p, c)]
            } else {
                Seq::<(Seq<char>, Seq<char>)>::empty()
            },
            _ => Seq::empty(),
        },
{
    assert(seq![x].drop_first() =~= Seq::<StepModel>::empty());
    assert(writes_under(Seq::<StepModel>::empty(), dir) == Seq::<(Seq<char>, Seq<char>)>::empty());
    match x {
        StepModel::WriteFile(p, c) => {
            if starts_with(p, dir) {
                assert(seq![(p, c)] + Seq::<(Seq<char>, Seq<char>)>::empty() =~= seq![(p, c)]);
            } else {
                assert(Seq::<(Seq<char>, Seq<char>)>::empty() + Seq::<(Seq<char>, Seq<char>)>::empty() =~= Seq::<(Seq<char>, Seq<char>)>::empty());
            }
        },
        _ => {
            assert(Seq::<(Seq<char>, Seq<char>)>::empty() + Seq::<(Seq<char>, Seq<char>)>::empty() =~= Seq::<(Seq<char>, Seq<char>)>::empty());
        },
    }
}

proof fn lemma_no_writes(steps: Seq<StepModel>, dir: Seq<char>)
    requires
        forall|i: int| 0 <= i < steps.len() ==> !(#[trigger] steps[i] is WriteFile),
    ensures
        writes_under(steps, dir) == Seq::<(Seq<char>, Seq<char>)>::empty(),
    decreases steps.len(),
{
    if steps.len() > 0 {
        assert(!(steps[0] is WriteFile));
        let rest = steps.drop_first();
        assert forall|i: int| 0 <= i < rest.len() implies !(#[trigger] rest[i] is WriteFile) by {
            assert(rest[i] == steps[i + 1]);
        }
        lemma_no_writes(rest, dir);
        assert(Seq::<(Seq<char>, Seq<char>)>::empty() + Seq::<(Seq<char>, Seq<char>)>::empty() =~= Seq::<(Seq<char>, Seq<char>)>::empty());
    }
}

proof fn lemma_path_prefixes(name: Seq<char>)
    ensures
        starts_with(source_file(name), "src/"@),
        !starts_with(source_file(name), "include/"@),
        starts_with(header_file(name), "include/"@),
        !starts_with(header_file(name), "src/"@),
        !starts_with(manifest_file_name(), "src/"@),
        !starts_with(manifest_file_name(), "include/"@),
{
    reveal_strlit("src/");
    reveal_strlit("include/");
    reveal_strlit("artio_package.toml");
    reveal_strlit(".cpp");
    reveal_strlit(".h");
    reveal_strlit("/");
    assert(source_file(name).subrange(0, 4) =~= "src/"@);
    assert(header_file(name).subrange(0, 8) =~= "include/"@);
    assert(source_file(name)[0] == 's');
    assert(header_file(name)[0] == 'i');
    assert(manifest_file_name()[0] == 'a');
    if starts_with(source_file(name), "include/"@) {
        assert(source_file(name).subrange(0, 8)[0] == 'i');
    }
    if starts_with(header_file(name), "src/"@) {
        assert(header_file(name).subrange(0, 4)[0] == 's');
    }
    if starts_with(manifest_file_name(), "src/"@) {
        assert(manifest_file_name().subrange(0, 4)[0] == 's');
    }
    if starts_with(manifest_file_name(), "include/"@) {
        assert(manifest_file_name().subrange(0, 8)[0] == 'i');
    }
}

proof fn lemma_vcs_no_writes(vcs: VCSOptions, dir: Seq<char>)
    ensures
        writes_under(vcs_steps(vcs), dir) == Seq::<(Seq<char>, Seq<char>)>::empty(),
{
    lemma_no_writes(vcs_steps(vcs), dir);
}

proof fn lemma_optional_dir(present: bool, d: Seq<char>, dir: Seq<char>)
    ensures
        writes_under(
            if present {
                Seq::empty()
            } else {
                seq![StepModel::CreateDir(d)]
            },
            dir,
        ) == Seq::<(Seq<char>, Seq<char>)>::empty(),
{
    let t = if present {
        Seq::empty()
    } else {
        seq![StepModel::CreateDir(d)]
    };
    lemma_no_writes(t, dir);
}

/// The files an `init` plan writes under `dir`: those of its manifest step,
/// then those of the source tree.
proof fn lemma_init_writes(
    path: Seq<char>,
    name: Option<Seq<char>>,
    kind: PackageKind,
    vcs: VCSOptions,
    s: Survey,
    dir: Seq<char>,
)
    requires
        s.destination_exists,
        !s.manifest_exists,
        !starts_with(manifest_file_name(), dir),
    ensures
        writes_under(init_result(path, name, kind, vcs, s)->Ok_0.steps, dir) == writes_under(
            scaffold_steps(package_name_of(path, name), kind, s),
            dir,
        ),
{
    let n = package_name_of(path, name);
    let p = PropertiesModel { name: n, kind, version: initial_version() };
    let m = seq![StepModel::WriteFile(manifest_file_name(), manifest_text(p))];
    let t = scaffold_steps(n, kind, s);
    lemma_writes_under_concat(m + t, vcs_steps(vcs), dir);
    lemma_writes_under_concat(m, t, dir);
    lemma_writes_under_one(m[0], dir);
    lemma_vcs_no_writes(vcs, dir);
    assert(writes_under(m, dir) + writes_under(t, dir) + Seq::<(Seq<char>, Seq<char>)>::empty() =~= writes_under(t, dir));
}

proof fn lemma_basic_writes(name: Seq<char>, stub: Seq<char>, s: Survey, dir: Seq<char>)
    ensures
        writes_under(basic_steps(name, stub, s), dir) == (if !s.src_has_source && starts_with(
            source_file(name),
            dir,
        ) {
            seq![(source_file(name), stub)]
        } else {
            Seq::<(Seq<char>, Seq<char>)>::empty()
        }),
{
    reveal_strlit("src");
    let a = if s.src_exists {
        Seq::empty()
    } else {
        seq![StepModel::CreateDir("src"@)]
    };
    let b = if s.src_has_source {
        Seq::empty()
    } else {
        seq![StepModel::WriteFile(source_file(name), stub)]
    };
    lemma_writes_under_concat(a, b, dir);
    lemma_optional_dir(s.src_exists, "src"@, dir);
    if s.src_has_source {
        lemma_no_writes(b, dir);
    } else {
        lemma_writes_under_one(b[0], dir);
        assert(b =~= seq![b[0]]);
    }
    assert(writes_under(basic_steps(name, stub, s), dir) =~= writes_under(b, dir));
}

/// `init` of an application, in a directory that has no manifest and no
/// source file, writes exactly one file under `src/`: `src/<name>.cpp` with
/// the application stub. Its manifest reads back with kind `application`.
pub proof fn lemma_init_application(
    path: Seq<char>,
    name: Option<Seq<char>>,
    vcs: VCSOptions,
    s: Survey,
)
    requires
        s.destination_exists,
        !s.manifest_exists,
        !s.src_has_source,
    ensures
        init_result(path, name, PackageKind::Application, vcs, s) is Ok,
        ({
            let plan = init_result(path, name, PackageKind::Application, vcs, s)->Ok_0;
            &&& writes_under(plan.steps, "src/"@) == seq![
                (source_file(package_name_of(path, name)), application_stub()),
            ]
            &&& plan.steps[0] == StepModel::WriteFile(manifest_file_name(), plan.manifest)
            &&& decode_manifest(plan.manifest) == Ok::<PropertiesModel, ManifestFormatError>(plan.properties)
            &&& alias_of(plan.properties.kind) == "application"@
        }),
{
    let n = package_name_of(path, name);
    lemma_path_prefixes(n);
    lemma_init_writes(path, name, PackageKind::Application, vcs, s, "src/"@);
    lemma_basic_writes(n, application_stub(), s, "src/"@);
    lemma_manifest_round_trip(n, PackageKind::Application);
}

proof fn lemma_library_writes(name: Seq<char>, s: Survey, dir: Seq<char>)
    ensures
        writes_under(library_steps(name, s), dir) == writes_under(
            basic_steps(name, library_stub(), s),
            dir,
        ) + (if !s.include_package_has_header && starts_with(header_file(name), dir) {
            seq![(header_file(name), header_stub())]
        } else {
            Seq::<(Seq<char>, Seq<char>)>::empty()
        }),
{
    reveal_strlit("include");
    let a = basic_steps(name, library_stub(), s);
    let b = if s.include_exists {
        Seq::empty()
    } else {
        seq![StepModel::CreateDir("include"@)]
    };
    let c = if s.include_package_exists {
        Seq::empty()
    } else {
        seq![StepModel::CreateDir(crate::scaffold::include_dir(name))]
    };
    let d = if s.include_package_has_header {
        Seq::empty()
    } else {
        seq![StepModel::WriteFile(header_file(name), header_stub())]
    };
    lemma_writes_under_concat(a + b + c, d, dir);
    lemma_writes_under_concat(a + b, c, dir);
    lemma_writes_under_concat(a, b, dir);
    lemma_optional_dir(s.include_exists, "include"@, dir);
    lemma_optional_dir(s.include_package_exists, crate::scaffold::include_dir(name), dir);
    if s.include_package_has_header {
        lemma_no_writes(d, dir);
    } else {
        lemma_writes_under_one(d[0], dir);
        assert(d =~= seq![d[0]]);
    }
    let e = Seq::<(Seq<char>, Seq<char>)>::empty();
    assert(writes_under(a, dir) + e + e =~= writes_under(a, dir));
}

/// `init` of a static or dynamic library, in a directory that has no
/// manifest, no source file and no header, writes one file under `src/`
/// (`src/<name>.cpp`, the library stub) and one under `include/`
/// (`include/<name>/<name>.h`, the header stub); the source tree is the same
/// for both library kinds.
pub proof fn lemma_init_library(
    path: Seq<char>,
    name: Option<Seq<char>>,
    kind: PackageKind,
    vcs: VCSOptions,
    s: Survey,
)
    requires
        kind != PackageKind::Application,
        s.destination_exists,
        !s.manifest_exists,
        !s.src_has_source,
        !s.include_package_has_header,
    ensures
        init_result(path, name, kind, vcs, s) is Ok,
        ({
            let n = package_name_of(path, name);
            let plan = init_result(path, name, kind, vcs, s)->Ok_0;
            &&& writes_under(plan.steps, "src/"@) == seq![(source_file(n), library_stub())]
            &&& writes_under(plan.steps, "include/"@) == seq![(header_file(n), header_stub())]
            &&& scaffold_steps(n, PackageKind::StaticLib, s) == scaffold_steps(n, PackageKind::DynamicLib, s)
        }),
{
    let n = package_name_of(path, name);
    lemma_path_prefixes(n);
    lemma_init_writes(path, name, kind, vcs, s, "src/"@);
    lemma_init_writes(path, name, kind, vcs, s, "include/"@);
    lemma_library_writes(n, s, "src/"@);
    lemma_library_writes(n, s, "include/"@);
    lemma_basic_writes(n, library_stub(), s, "src/"@);
    lemma_basic_writes(n, library_stub(), s, "include/"@);
    let e = Seq::<(Seq<char>, Seq<char>)>::empty();
    assert(seq![(source_file(n), library_stub())] + e =~= seq![(source_file(n), library_stub())]);
    assert(e + seq![(header_file(n), header_stub())] =~= seq![(header_file(n), header_stub())]);
}

/// Once `init` has succeeded, its plan writes the manifest first; any later
/// `init` on a directory holding a manifest is refused as already
/// initialized, and so plans no step at all.
pub proof fn lemma_init_twice(
    path: Seq<char>,
    name: Option<Seq<char>>,
    kind: PackageKind,
    vcs: VCSOptions,
    first: Survey,
    later_name: Option<Seq<char>>,
    later_kind: PackageKind,
    later_vcs: VCSOptions,
    later: Survey,
)
    requires
        init_result(path, name, kind, vcs, first) is Ok,
        later.destination_exists,
        later.manifest_exists,
    ensures
        init_result(path, name, kind, vcs, first)->Ok_0.steps[0] == StepModel::WriteFile(
            manifest_file_name(),
            init_result(path, name, kind, vcs, first)->Ok_0.manifest,
        ),
        init_result(path, later_name, later_kind, later_vcs, later) == Err::<PlanModel, InitError>(
            InitError::AlreadyInitialized,
        ),
{
}

/// `new` on a path that already exists is refused, and plans no step.
pub proof fn lemma_new_on_existing(
    path: Seq<char>,
    name: Option<Seq<char>>,
    kind: PackageKind,
    vcs: VCSOptions,
)
    ensures
        new_result(path, name, kind, vcs, true) == Err::<PlanModel, InitError>(
            InitError::DestinationExists,
        ),
{
}

/// `new` without a name on a fresh path creates the directory, then writes a
/// manifest that reads back as version `0.1.0`, the requested kind, and the
/// path's final segment as name (the fallback name where it has none).
pub proof fn lemma_new_then_read(path: Seq<char>, kind: PackageKind, vcs: VCSOptions)
    ensures
        new_result(path, None, kind, vcs, false) is Ok,
        ({
            let plan = new_result(path, None, kind, vcs, false)->Ok_0;
            &&& plan.steps[0] == StepModel::CreateDestination
            &&& plan.steps[1] == StepModel::WriteFile(manifest_file_name(), plan.manifest)
            &&& decode_manifest(plan.manifest) == Ok::<PropertiesModel, ManifestFormatError>(
                PropertiesModel {
                    name: match final_path_segment(path) {
                        Some(seg) => seg,
                        None => fallback_name(),
                    },
                    kind,
                    version: initial_version(),
                },
            )
        }),
{
    let n = package_name_of(path, None);
    lemma_manifest_round_trip(n, kind);
    let p = init_result(path, None, kind, vcs, empty_directory())->Ok_0;
    let plan = new_result(path, None, kind, vcs, false)->Ok_0;
    assert(plan.steps[1] == p.steps[0]);
}

/// When `src` already holds a source file, neither the source tree nor an
/// `init` plan writes anything under `src/`.
pub proof fn lemma_existing_source_kept(
    path: Seq<char>,
    name: Option<Seq<char>>,
    kind: PackageKind,
    vcs: VCSOptions,
    s: Survey,
)
    requires
        s.src_has_source,
    ensures
        writes_under(scaffold_steps(package_name_of(path, name), kind, s), "src/"@) == Seq::<
            (Seq<char>, Seq<char>),
        >::empty(),
        init_result(path, name, kind, vcs, s) is Ok ==> writes_under(
            init_result(path, name, kind, vcs, s)->Ok_0.steps,
            "src/"@,
        ) == Seq::<(Seq<char>, Seq<char>)>::empty(),
{
    let n = package_name_of(path, name);
    lemma_path_prefixes(n);
    lemma_basic_writes(n, application_stub(), s, "src/"@);
    lemma_basic_writes(n, library_stub(), s, "src/"@);
    lemma_library_writes(n, s, "src/"@);
    let e = Seq::<(Seq<char>, Seq<char>)>::empty();
    assert(e + e =~= e);
    if init_result(path, name, kind, vcs, s) is Ok {
        lemma_init_writes(path, name, kind, vcs, s, "src/"@);
    }
}

} // verus!
