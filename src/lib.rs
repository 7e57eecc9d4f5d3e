//! Package initialization engine: the manifest model and its text form, the
//! scaffolding plan for each package kind, the version-control bootstrap
//! decisions, and the `init` / `new` orchestrators.

use vstd::prelude::*;

pub mod manifest;
pub mod scaffold;
pub mod vcs;

pub mod commands;

pub use vcs::{Git, VCSManager};
pub use commands::{init_package, new_package};

verus! {

/// The closed set of buildable artifacts a package can produce.
#[derive(Clone, Copy, PartialEq, Eq, PartialOrd, Ord, Debug, Structural)]
pub enum PackageKind {
    StaticLib,
    DynamicLib,
    Application,
}

/// Canonical lowercase-hyphenated alias of a kind.
pub open spec fn alias_of(kind: PackageKind) -> Seq<char> {
    match kind {
        PackageKind::StaticLib => "static-lib"@,
        PackageKind::DynamicLib => "dynamic-lib"@,
        PackageKind::Application => "application"@,
    }
}

/// The kind whose alias is exactly `s`, if any.
pub open spec fn kind_of_alias(s: Seq<char>) -> Option<PackageKind> {
    if s == "static-lib"@ {
        Some(PackageKind::StaticLib)
    } else if s == "dynamic-lib"@ {
        Some(PackageKind::DynamicLib)
    } else if s == "application"@ {
        Some(PackageKind::Application)
    } else {
        None
    }
}

impl PackageKind {
    pub fn get_alias(&self) -> (r: String)
        ensures
            r@ == alias_of(*self),
    {
        match self {
            PackageKind::StaticLib => String::from_str("static-lib"),
            PackageKind::DynamicLib => String::from_str("dynamic-lib"),
            PackageKind::Application => String::from_str("application"),
        }
    }

    /// Parses an alias; the match is exact and case-sensitive.
    pub fn from_alias(s: &str) -> (r: Option<PackageKind>)
        ensures
            r == kind_of_alias(s@),
    {
        let t = String::from_str(s);
        if t == String::from_str("static-lib") {
            Some(PackageKind::StaticLib)
        } else if t == String::from_str("dynamic-lib") {
            Some(PackageKind::DynamicLib)
        } else if t == String::from_str("application") {
            Some(PackageKind::Application)
        } else {
            None
        }
    }
}

/// Which version-control backend bootstraps a new package, if any.
#[derive(Clone, Copy, PartialEq, Eq, PartialOrd, Ord, Debug, Structural)]
pub enum VCSOptions {
    Git,
    NoVcs,
}

/// The steps that selecting `vcs` adds to a plan.
pub open spec fn vcs_steps(vcs: VCSOptions) -> Seq<scaffold::StepModel> {
    match vcs {
        VCSOptions::Git => seq![scaffold::StepModel::BootstrapVcs],
        VCSOptions::NoVcs => Seq::empty(),
    }
}

impl VCSOptions {
    /// Adds the bootstrap step of the selected backend; nothing for `None`.
    pub fn initialize_repo(&self, steps: &mut Vec<scaffold::Step>)
        ensures
            scaffold::steps_view(final(steps)@) == scaffold::steps_view(old(steps)@) + vcs_steps(
                *self,
            ),
    {
        match self {
            VCSOptions::NoVcs => {},
            VCSOptions::Git => {
                steps.push(scaffold::Step::BootstrapVcs);
            },
        }
        assert(scaffold::steps_view(steps@) =~= scaffold::steps_view(old(steps)@) + vcs_steps(
            *self,
        ));
    }
}

/// A semantic version: three numbers plus pre-release and build metadata
/// (each empty when absent).
#[derive(Clone, Debug)]
pub struct Version {
    pub major: u64,
    pub minor: u64,
    pub patch: u64,
    pub pre: String,
    pub build: String,
}

impl View for Version {
    type V = (u64, u64, u64, Seq<char>, Seq<char>);

    open spec fn view(&self) -> Self::V {
        (self.major, self.minor, self.patch, self.pre@, self.build@)
    }
}

/// The version every fresh package starts at.
pub open spec fn initial_version() -> (u64, u64, u64, Seq<char>, Seq<char>) {
    (0, 1, 0, Seq::empty(), Seq::empty())
}

impl Version {
    /// `0.1.0`, with empty pre-release and build metadata.
    pub fn initial() -> (r: Version)
        ensures
            r@ == initial_version(),
    {
        Version { major: 0, minor: 1, patch: 0, pre: String::new(), build: String::new() }
    }
}

impl PartialEq for Version {
    fn eq(&self, o: &Version) -> (r: bool) {
        self.major == o.major && self.minor == o.minor && self.patch == o.patch && self.pre
            == o.pre && self.build == o.build
    }
}

impl vstd::std_specs::cmp::PartialEqSpecImpl for Version {
    open spec fn obeys_eq_spec() -> bool {
        true
    }

    open spec fn eq_spec(&self, o: &Version) -> bool {
        self@ == o@
    }
}

/// The manifest's content: identity of a package.
#[derive(Clone, Debug)]
pub struct PackageProperties {
    pub name: String,
    pub kind: PackageKind,
    pub version: Version,
}

/// Mathematical model of [`PackageProperties`].
pub struct PropertiesModel {
    pub name: Seq<char>,
    pub kind: PackageKind,
    pub version: (u64, u64, u64, Seq<char>, Seq<char>),
}

impl View for PackageProperties {
    type V = PropertiesModel;

    open spec fn view(&self) -> PropertiesModel {
        PropertiesModel { name: self.name@, kind: self.kind, version: self.version@ }
    }
}

impl PackageProperties {
    /// Properties of a freshly created package.
    pub fn fresh(name: String, kind: PackageKind) -> (r: PackageProperties)
        ensures
            r@ == (PropertiesModel { name: name@, kind, version: initial_version() }),
    {
        PackageProperties { name, kind, version: Version::initial() }
    }
}

impl PartialEq for PackageProperties {
    fn eq(&self, o: &PackageProperties) -> (r: bool) {
        self.name == o.name && self.kind == o.kind && self.version == o.version
    }
}

impl vstd::std_specs::cmp::PartialEqSpecImpl for PackageProperties {
    open spec fn obeys_eq_spec() -> bool {
        true
    }

    open spec fn eq_spec(&self, o: &PackageProperties) -> bool {
        self@ == o@
    }
}

} // verus!
