use artio::commands::{resolve_package_name, InitError};
use artio::scaffold::{
    get_application_cpp_file_contents, get_library_cpp_file_contents, get_library_h_file_contents, scaffold, Step,
    Survey,
};
use artio::{init_package, new_package, PackageKind, PackageProperties, VCSOptions};

fn empty_dir() -> Survey {
    Survey {
        destination_exists: true,
        manifest_exists: false,
        src_exists: false,
        src_has_source: false,
        include_exists: false,
        include_package_exists: false,
        include_package_has_header: false,
    }
}

fn dir(rel: &str) -> Step {
    Step::CreateDir { rel: rel.to_string() }
}

fn file(rel: &str, contents: &str) -> Step {
    Step::WriteFile { rel: rel.to_string(), contents: contents.to_string() }
}

const APP_STUB: &str = "int main() {\n  return 0;\n}";
const LIB_STUB: &str = "int add(int a, int b) {\n return a + b;\n}";
const HEADER_STUB: &str = "int add(int, int);";

#[test]
fn stub_contents() {
    assert_eq!(get_application_cpp_file_contents(), APP_STUB);
    assert_eq!(get_library_cpp_file_contents(), LIB_STUB);
    assert_eq!(get_library_h_file_contents(), HEADER_STUB);
}

#[test]
fn init_application() {
    let plan = init_package("/tmp/work/testapp", None, PackageKind::Application, VCSOptions::NoVcs, &empty_dir())
        .unwrap();
    let manifest = "[package]\nname = \"testapp\"\nversion = 0.1.0\nkind = \"application\"\n";
    assert_eq!(plan.manifest, manifest);
    assert_eq!(
        plan.steps,
        vec![file("artio_package.toml", manifest), dir("src"), file("src/testapp.cpp", APP_STUB)]
    );
    assert_eq!(plan.properties, PackageProperties::fresh("testapp".to_string(), PackageKind::Application));
    assert_eq!(PackageProperties::from_manifest(&plan.manifest), Ok(plan.properties.clone()));
    assert_eq!(plan.message, "Created application 'testapp' package");
}

#[test]
fn init_application_with_name() {
    let plan = init_package(
        "/tmp/work/testapp",
        Some("aname".to_string()),
        PackageKind::Application,
        VCSOptions::NoVcs,
        &empty_dir(),
    )
    .unwrap();
    assert_eq!(plan.steps[2], file("src/aname.cpp", APP_STUB));
    assert_eq!(plan.properties.name, "aname");
    assert_eq!(PackageProperties::from_manifest(&plan.manifest).unwrap().name, "aname");
}

#[test]
fn init_dynamic_library() {
    let plan = init_package("/tmp/work/testdynlib", None, PackageKind::DynamicLib, VCSOptions::NoVcs, &empty_dir())
        .unwrap();
    assert_eq!(
        plan.steps[1..].to_vec(),
        vec![
            dir("src"),
            file("src/testdynlib.cpp", LIB_STUB),
            dir("include"),
            dir("include/testdynlib"),
            file("include/testdynlib/testdynlib.h", HEADER_STUB),
        ]
    );
    let read = PackageProperties::from_manifest(&plan.manifest).unwrap();
    assert_eq!(read, PackageProperties::fresh("testdynlib".to_string(), PackageKind::DynamicLib));
}

#[test]
fn init_static_library() {
    let plan = init_package("/tmp/work/teststaticlib", None, PackageKind::StaticLib, VCSOptions::NoVcs, &empty_dir())
        .unwrap();
    assert_eq!(
        plan.steps[1..].to_vec(),
        vec![
            dir("src"),
            file("src/teststaticlib.cpp", LIB_STUB),
            dir("include"),
            dir("include/teststaticlib"),
            file("include/teststaticlib/teststaticlib.h", HEADER_STUB),
        ]
    );
    let read = PackageProperties::from_manifest(&plan.manifest).unwrap();
    assert_eq!(read, PackageProperties::fresh("teststaticlib".to_string(), PackageKind::StaticLib));
}

#[test]
fn library_trees_match_across_kinds() {
    let s = empty_dir();
    assert_eq!(scaffold("lib", PackageKind::StaticLib, &s), scaffold("lib", PackageKind::DynamicLib, &s));
}

#[test]
fn git_adds_bootstrap_last() {
    let plan = init_package("p/app", None, PackageKind::Application, VCSOptions::Git, &empty_dir()).unwrap();
    assert_eq!(plan.steps.len(), 4);
    assert_eq!(plan.steps[3], Step::BootstrapVcs);
}

#[test]
fn existing_directories_are_not_created_again() {
    let s = Survey { src_exists: true, include_exists: true, include_package_exists: true, ..empty_dir() };
    assert_eq!(
        scaffold("lib", PackageKind::StaticLib, &s),
        vec![file("src/lib.cpp", LIB_STUB), file("include/lib/lib.h", HEADER_STUB)]
    );
}

#[test]
fn existing_source_is_kept() {
    let s = Survey { src_exists: true, src_has_source: true, ..empty_dir() };
    let plan = init_package("p/app", None, PackageKind::Application, VCSOptions::NoVcs, &s).unwrap();
    assert_eq!(plan.steps.len(), 1);
    let lib = scaffold("lib", PackageKind::DynamicLib, &Survey { include_package_has_header: true, ..s });
    assert_eq!(lib, vec![dir("include"), dir("include/lib")]);
}

#[test]
fn init_twice_is_refused() {
    let first = init_package("p/app", None, PackageKind::Application, VCSOptions::NoVcs, &empty_dir());
    assert!(first.is_ok());
    let later = Survey { manifest_exists: true, src_exists: true, src_has_source: true, ..empty_dir() };
    let second = init_package("p/app", None, PackageKind::Application, VCSOptions::NoVcs, &later);
    assert_eq!(second.unwrap_err(), InitError::AlreadyInitialized);
}

#[test]
fn init_on_missing_directory_is_refused() {
    let s = Survey { destination_exists: false, ..empty_dir() };
    let r = init_package("p/app", None, PackageKind::Application, VCSOptions::Git, &s);
    assert_eq!(r.unwrap_err(), InitError::DestinationMissing);
}

#[test]
fn new_on_existing_path_is_refused() {
    let r = new_package("p/app", None, PackageKind::Application, VCSOptions::Git, true);
    assert_eq!(r.unwrap_err(), InitError::DestinationExists);
}

#[test]
fn new_then_read_manifest() {
    let plan = new_package("some/where/testapp", None, PackageKind::StaticLib, VCSOptions::Git, false).unwrap();
    assert_eq!(plan.steps[0], Step::CreateDestination);
    assert_eq!(plan.steps[1], file("artio_package.toml", &plan.manifest));
    assert_eq!(plan.steps.len(), 8);
    assert_eq!(plan.steps[7], Step::BootstrapVcs);
    let read = PackageProperties::from_manifest(&plan.manifest).unwrap();
    assert_eq!(read, PackageProperties::fresh("testapp".to_string(), PackageKind::StaticLib));
    assert_eq!(read.version.major, 0);
    assert_eq!(read.version.minor, 1);
    assert_eq!(read.version.patch, 0);
}

#[test]
fn package_name_resolution() {
    assert_eq!(resolve_package_name("a/b/testapp", None), "testapp");
    assert_eq!(resolve_package_name("a/b/testapp/", None), "testapp");
    assert_eq!(resolve_package_name("a/b", Some("given".to_string())), "given");
    assert_eq!(resolve_package_name("/", None), "package");
    assert_eq!(resolve_package_name("a/..", None), "package");
}
