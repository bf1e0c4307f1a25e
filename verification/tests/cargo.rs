use beacon_events::cargo::changelog::{ChangelogError, Changes};
use beacon_events::cargo::{
    after_asking_to_skip, entry_enables, publish_action, Dependency, DependencyKind, Package,
    PublishAction, PublishError, Version,
};

fn s(text: &str) -> String {
    text.to_string()
}

fn version(major: u64, minor: u64, patch: u64, pre: &str, build: &str) -> Version {
    Version { major, minor, patch, pre: s(pre), build: s(build) }
}

fn package(name: &str, version: Version) -> Package {
    Package { name: s(name), version, dependencies: vec![], features: vec![] }
}

fn found(result: Result<Changes, ChangelogError>) -> (String, Option<String>) {
    let changes = result.unwrap();
    (changes.changes, changes.updated_changelog)
}

#[test]
fn version_is_written_as_semver_writes_it() {
    for text in ["0.0.0", "1.2.3", "10.20.30", "1.0.0-alpha.1", "1.0.0+build.5", "2.1.0-rc.1+sha.abc", "18446744073709551615.0.1"] {
        let parsed = semver::Version::parse(text).unwrap();
        let ours = version(
            parsed.major,
            parsed.minor,
            parsed.patch,
            parsed.pre.as_str(),
            parsed.build.as_str(),
        );
        assert_eq!(ours.to_string(), parsed.to_string());
        assert_eq!(ours.to_string(), text);
        assert_eq!(ours.is_prerelease(), !parsed.pre.is_empty());
        let release = semver::Version::new(parsed.major, parsed.minor, parsed.patch);
        assert_eq!(ours.release_string(), release.to_string());
    }
    let plain = Version::new(1, 2, 3);
    assert_eq!(plain.to_string(), "1.2.3");
    assert!(!plain.is_prerelease());
}

#[test]
fn feature_entries_that_enable_a_feature() {
    assert!(entry_enables("ruma-common/rand", "ruma-common", "rand"));
    assert!(entry_enables("ruma-common?/rand", "ruma-common", "rand"));
    assert!(entry_enables("ruma-common??/rand", "ruma-common", "rand"));
    assert!(entry_enables("dep:ruma-common/rand", "ruma-common", "rand"));
    assert!(entry_enables("dep:dep:ruma-common?/rand", "ruma-common", "rand"));
    assert!(entry_enables("/rand", "", "rand"));
    assert!(entry_enables("a/", "a", ""));
}

#[test]
fn feature_entries_that_do_not_enable_a_feature() {
    assert!(!entry_enables("ruma-common", "ruma-common", "rand"));
    assert!(!entry_enables("dep:ruma-common", "ruma-common", "rand"));
    assert!(!entry_enables("ruma-common?", "ruma-common", "rand"));
    assert!(!entry_enables("ruma-common-extra/rand", "ruma-common", "rand"));
    assert!(!entry_enables("ruma-common/rand", "ruma", "rand"));
    assert!(!entry_enables("ruma-common/random", "ruma-common", "rand"));
    assert!(!entry_enables("ruma-common/ran", "ruma-common", "rand"));
    assert!(!entry_enables("ruma-common//rand", "ruma-common", "rand"));
    assert!(!entry_enables("ruma-common/?rand", "ruma-common", "rand"));
    assert!(!entry_enables("xruma-common/rand", "ruma-common", "rand"));
    assert!(!entry_enables("dep ruma-common/rand", "ruma-common", "rand"));
    assert!(!entry_enables("", "ruma-common", "rand"));
    assert!(!entry_enables("", "", ""));
    assert!(!entry_enables("rand", "", "rand"));
}

#[test]
fn package_can_enable_feature() {
    let mut ruma = package("ruma", Version::new(0, 10, 0));
    assert!(!ruma.can_enable_feature("ruma-common", "rand"));
    ruma.features = vec![
        (s("default"), vec![]),
        (s("events"), vec![s("dep:ruma-events")]),
        (s("rand"), vec![s("ruma-common/rand"), s("ruma-events?/unstable-x")]),
    ];
    assert!(ruma.can_enable_feature("ruma-common", "rand"));
    assert!(ruma.can_enable_feature("ruma-events", "unstable-x"));
    assert!(!ruma.can_enable_feature("ruma-events", "rand"));
    assert!(!ruma.can_enable_feature("ruma", "rand"));
    assert!(!ruma.can_enable_feature("ruma-common", "ran"));
}

#[test]
fn package_dependencies_and_their_tables() {
    let mut package = package("ruma-events", Version::new(0, 28, 0));
    package.dependencies = vec![
        Dependency { name: s("serde"), kind: None },
        Dependency { name: s("ruma"), kind: Some(DependencyKind::Dev) },
        Dependency { name: s("ruma-macros"), kind: Some(DependencyKind::Build) },
        Dependency { name: s("ruma"), kind: None },
        Dependency { name: s("ruma"), kind: Some(DependencyKind::Build) },
    ];
    assert!(package.depends_on("ruma"));
    assert!(package.depends_on("serde"));
    assert!(!package.depends_on("rum"));
    assert!(!package.depends_on(""));
    assert_eq!(
        package.dependency_tables("ruma"),
        vec!["dev-dependencies", "dependencies", "build-dependencies"]
    );
    assert_eq!(package.dependency_tables("serde"), vec!["dependencies"]);
    assert!(package.dependency_tables("none").is_empty());
    assert_eq!(package.dependencies[2].table(), "build-dependencies");
}

#[test]
fn package_requirement_is_pinned_for_prereleases_and_macros() {
    assert_eq!(package("ruma", Version::new(0, 10, 1)).requirement(), "0.10.1");
    assert_eq!(package("ruma", version(0, 11, 0, "alpha.1", "")).requirement(), "=0.11.0-alpha.1");
    assert_eq!(package("ruma-macros", Version::new(0, 13, 0)).requirement(), "=0.13.0");
    assert_eq!(package("ruma-common", version(1, 0, 0, "", "b1")).requirement(), "1.0.0+b1");
    assert!(package("ruma", Version::new(0, 1, 0)).is_umbrella());
    assert!(!package("ruma-events", Version::new(0, 1, 0)).is_umbrella());
    assert!(package("ruma", Version::new(0, 1, 0)).has_changelog());
    assert!(!package("ruma-macros", Version::new(0, 1, 0)).has_changelog());
}

const CHANGELOG: &str = "# [unreleased]\n\nBreaking changes:\n\n- Something\n\n# 0.9.1\n\n- A fix\n- Another\n\n# 0.9.0\n\n# 0.8.0\n\nOld things\n";

#[test]
fn changes_of_a_released_version() {
    let package = package("ruma-events", Version::new(0, 9, 1));
    assert_eq!(found(package.changes_in(CHANGELOG, false)), (s("- A fix\n- Another"), None));
    // A released version is not updated, even on request.
    assert_eq!(found(package.changes_in(CHANGELOG, true)), (s("- A fix\n- Another"), None));
    let last = Package { version: Version::new(0, 8, 0), ..package.clone() };
    assert_eq!(found(last.changes_in(CHANGELOG, false)), (s("Old things"), None));
    let empty = Package { version: Version::new(0, 9, 0), ..package };
    assert_eq!(found(empty.changes_in(CHANGELOG, false)), (s("No changes for this version"), None));
}

#[test]
fn changes_of_a_prerelease_are_those_of_its_release() {
    let package = package("ruma-events", version(0, 9, 1, "rc.1", "x"));
    assert_eq!(found(package.changes_in(CHANGELOG, false)), (s("- A fix\n- Another"), None));
}

#[test]
fn changes_of_an_unreleased_version_update_the_changelog() {
    let package = package("ruma-events", version(0, 10, 0, "beta.2", ""));
    assert!(matches!(package.changes_in(CHANGELOG, false), Err(ChangelogError::TitleNotFound)));
    let (changes, updated) = found(package.changes_in(CHANGELOG, true));
    assert_eq!(changes, "Breaking changes:\n\n- Something");
    assert_eq!(
        updated.unwrap(),
        "# [unreleased]\n\n# 0.10.0-beta.2\n\nBreaking changes:\n\n- Something\n\n# 0.9.1\n\n- A fix\n- Another\n\n# 0.9.0\n\n# 0.8.0\n\nOld things\n"
    );

    let titled = "# 0.10.0 (unreleased)\n\n# 0.9.0\n\nx\n";
    let (changes, updated) = found(package.changes_in(titled, true));
    assert_eq!(changes, "No changes for this version");
    assert_eq!(
        updated.unwrap(),
        "# [unreleased]\n\n# 0.10.0-beta.2\n\nNo changes for this version\n\n# 0.9.0\n\nx\n"
    );
}

#[test]
fn changes_that_cannot_be_found() {
    let package = package("ruma-events", Version::new(1, 0, 0));
    for update in [false, true] {
        assert!(matches!(package.changes_in("", update), Err(ChangelogError::TitleNotFound)));
        assert!(matches!(
            package.changes_in("# 1.0.0", update),
            Err(ChangelogError::TitleNotFound)
        ));
        assert!(matches!(
            package.changes_in("\n# [unreleased]\n", update),
            Err(ChangelogError::TitleNotFound)
        ));
        assert!(matches!(
            package.changes_in("# 1.0.00\n# 11.0.0\n", update),
            Err(ChangelogError::TitleNotFound)
        ));
    }
    assert_eq!(
        ChangelogError::TitleNotFound.message(),
        "Could not find version title in changelog"
    );
}

#[test]
fn changes_at_the_end_of_a_changelog() {
    let package = package("ruma-events", Version::new(1, 0, 0));
    assert_eq!(found(package.changes_in("# 1.0.0\n", false)), (s("No changes for this version"), None));
    assert_eq!(found(package.changes_in("intro # 1.0.0\n  é \u{3000}", false)), (s("é"), None));
    assert_eq!(
        found(package.changes_in("# [unreleased]\n", true)),
        (
            s("No changes for this version"),
            Some(s("# [unreleased]\n\n# 1.0.0\n\nNo changes for this version\n"))
        )
    );
    // The title of the next section begins right after a line feed.
    assert_eq!(found(package.changes_in("# 1.0.0\n# 0.9.0\n", false)).0, "# 0.9.0");
    assert_eq!(found(package.changes_in("# 1.0.0\n\n# 0.9.0\n", false)).0, "No changes for this version");
}

#[test]
fn publishing_asks_before_it_skips() {
    assert_eq!(publish_action(true, false), PublishAction::AskToSkip);
    assert_eq!(publish_action(true, true), PublishAction::AskToSkip);
    assert_eq!(publish_action(false, false), PublishAction::Publish);
    assert_eq!(publish_action(false, true), PublishAction::Nothing);
    assert_eq!(after_asking_to_skip(true), Ok(()));
    assert_eq!(after_asking_to_skip(false), Err(PublishError::Interrupted));
    assert_eq!(PublishError::Interrupted.message(), "Release interrupted by user.");
}
