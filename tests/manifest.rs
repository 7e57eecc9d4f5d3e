use artio::manifest::{version_from_text, version_to_text, ManifestFormatError, ManifestKey};
use artio::{PackageKind, PackageProperties, Version};

fn props(name: &str, kind: PackageKind) -> PackageProperties {
    PackageProperties::fresh(name.to_string(), kind)
}

#[test]
fn manifest_text_is_exact() {
    let text = props("testapp", PackageKind::Application).to_manifest();
    assert_eq!(text, "[package]\nname = \"testapp\"\nversion = 0.1.0\nkind = \"application\"\n");
}

#[test]
fn manifest_text_of_library_kinds() {
    assert_eq!(
        props("lib", PackageKind::StaticLib).to_manifest(),
        "[package]\nname = \"lib\"\nversion = 0.1.0\nkind = \"static-lib\"\n"
    );
    assert_eq!(
        props("lib", PackageKind::DynamicLib).to_manifest(),
        "[package]\nname = \"lib\"\nversion = 0.1.0\nkind = \"dynamic-lib\"\n"
    );
}

#[test]
fn manifest_escapes_name() {
    let text = props("a\"b\\c\nd\te\rf", PackageKind::Application).to_manifest();
    assert_eq!(
        text,
        "[package]\nname = \"a\\\"b\\\\c\\nd\\te\\rf\"\nversion = 0.1.0\nkind = \"application\"\n"
    );
}

#[test]
fn manifest_round_trip_on_chosen_names() {
    let names = ["testapp", "", "with space", "quote\"back\\slash", "line\nbreak\ttab\rcr", "ünïcödé-名前", "'single'"];
    let kinds = [PackageKind::Application, PackageKind::StaticLib, PackageKind::DynamicLib];
    for name in names.iter() {
        for kind in kinds.iter() {
            let p = props(name, *kind);
            let back = PackageProperties::from_manifest(&p.to_manifest());
            assert_eq!(back, Ok(props(name, *kind)));
        }
    }
}

#[test]
fn manifest_without_final_newline_reads() {
    let back = PackageProperties::from_manifest("[package]\nname = \"x\"\nversion = 0.1.0\nkind = \"application\"");
    assert_eq!(back, Ok(props("x", PackageKind::Application)));
}

#[test]
fn manifest_reads_full_semver() {
    let back = PackageProperties::from_manifest(
        "[package]\nname = \"x\"\nversion = 1.22.333-alpha.1+build.5\nkind = \"dynamic-lib\"\n",
    )
    .unwrap();
    assert_eq!(back.version.major, 1);
    assert_eq!(back.version.minor, 22);
    assert_eq!(back.version.patch, 333);
    assert_eq!(back.version.pre, "alpha.1");
    assert_eq!(back.version.build, "build.5");
    assert_eq!(back.kind, PackageKind::DynamicLib);
}

#[test]
fn manifest_errors() {
    let cases: Vec<(&str, ManifestFormatError)> = vec![
        ("", ManifestFormatError::MissingSection),
        ("[pkg]\nname = \"x\"\n", ManifestFormatError::MissingSection),
        ("[package]\nversion = 0.1.0\n", ManifestFormatError::MissingKey(ManifestKey::Name)),
        ("[package]\nname = x\nversion = 0.1.0\n", ManifestFormatError::BadString(ManifestKey::Name)),
        ("[package]\nname = \"x\nversion = 0.1.0\n", ManifestFormatError::BadString(ManifestKey::Name)),
        ("[package]\nname = \"x\\q\"\nversion = 0.1.0\n", ManifestFormatError::BadString(ManifestKey::Name)),
        ("[package]\nname = \"x\"\nkind = \"application\"\n", ManifestFormatError::MissingKey(ManifestKey::Version)),
        ("[package]\nname = \"x\"\nversion = 0.1\nkind = \"application\"\n", ManifestFormatError::MalformedVersion),
        ("[package]\nname = \"x\"\nversion = 01.0.0\nkind = \"application\"\n", ManifestFormatError::MalformedVersion),
        ("[package]\nname = \"x\"\nversion = 0.1.0\n", ManifestFormatError::MissingKey(ManifestKey::Kind)),
        ("[package]\nname = \"x\"\nversion = 0.1.0\nkind = application\n", ManifestFormatError::BadString(ManifestKey::Kind)),
        ("[package]\nname = \"x\"\nversion = 0.1.0\nkind = \"Application\"\n", ManifestFormatError::UnknownKind),
        ("[package]\nname = \"x\"\nversion = 0.1.0\nkind = \"static_lib\"\n", ManifestFormatError::UnknownKind),
        ("[package]\nname = \"x\"\nversion = 0.1.0\nkind = \"application\"\n\n", ManifestFormatError::TrailingText),
        ("[package]\nname = \"x\"\nversion = 0.1.0\nkind = \"application\" # c\n", ManifestFormatError::TrailingText),
    ];
    for (text, err) in cases {
        assert_eq!(PackageProperties::from_manifest(text), Err(err), "{:?}", text);
    }
}

#[test]
fn version_text_round_trip() {
    let v = version_from_text("3.4.5-rc.1+sha.abc").unwrap();
    assert_eq!((v.major, v.minor, v.patch), (3, 4, 5));
    assert_eq!(v.pre, "rc.1");
    assert_eq!(v.build, "sha.abc");
    assert_eq!(version_to_text(&v), "3.4.5-rc.1+sha.abc");
    assert_eq!(version_to_text(&Version::initial()), "0.1.0");
    let max = version_from_text("18446744073709551615.0.10").unwrap();
    assert_eq!(max.major, u64::MAX);
    assert_eq!(version_to_text(&max), "18446744073709551615.0.10");
    assert!(version_from_text("18446744073709551616.0.0").is_none());
    assert!(version_from_text("1.0.0-").is_none());
}

#[test]
fn initial_version_is_zero_one_zero() {
    let v = Version::initial();
    assert_eq!((v.major, v.minor, v.patch), (0, 1, 0));
    assert_eq!(v.pre, "");
    assert_eq!(v.build, "");
}

#[test]
fn kind_aliases() {
    assert_eq!(PackageKind::Application.get_alias(), "application");
    assert_eq!(PackageKind::StaticLib.get_alias(), "static-lib");
    assert_eq!(PackageKind::DynamicLib.get_alias(), "dynamic-lib");
    assert_eq!(PackageKind::from_alias("static-lib"), Some(PackageKind::StaticLib));
    assert_eq!(PackageKind::from_alias("dynamic-lib"), Some(PackageKind::DynamicLib));
    assert_eq!(PackageKind::from_alias("application"), Some(PackageKind::Application));
    assert_eq!(PackageKind::from_alias("Application"), None);
    assert_eq!(PackageKind::from_alias("lib"), None);
}
