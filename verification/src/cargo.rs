//! Cargo packages of a workspace, and what a release changes in them.

use vstd::prelude::*;

pub mod changelog;

use crate::chars::{chars_of, occurs_at, skip_all, stands_at, strip_all};
use crate::text::{decimal, decimal_string, str_eq};

verus! {

/// The version of a package.
#[derive(Clone, Debug)]
pub struct Version {
    /// The major version.
    pub major: u64,
    /// The minor version.
    pub minor: u64,
    /// The patch version.
    pub patch: u64,
    /// The pre-release version, empty for a release.
    pub pre: String,
    /// The build metadata, mostly empty.
    pub build: String,
}

impl Version {
    /// The three numbers of the version, with dots between them.
    pub open spec fn release_text(&self) -> Seq<char> {
        decimal(self.major as nat) + "."@ + decimal(self.minor as nat) + "."@ + decimal(
            self.patch as nat,
        )
    }

    /// The version as it is written: the three numbers, then the pre-release version after a
    /// hyphen and the build metadata after a plus sign, each only if it is not empty.
    pub open spec fn text(&self) -> Seq<char> {
        self.release_text() + (if self.pre@.len() > 0 {
            "-"@ + self.pre@
        } else {
            Seq::empty()
        }) + (if self.build@.len() > 0 {
            "+"@ + self.build@
        } else {
            Seq::empty()
        })
    }

    /// Creates a `Version` from its three numbers, with empty pre-release and build metadata.
    pub fn new(major: u64, minor: u64, patch: u64) -> (version: Self)
        ensures
            version.major == major,
            version.minor == minor,
            version.patch == patch,
            version.pre@.len() == 0,
            version.build@.len() == 0,
    {
        Version { major, minor, patch, pre: String::new(), build: String::new() }
    }

    /// Whether this is the version of a pre-release.
    pub fn is_prerelease(&self) -> (b: bool)
        ensures
            b == (self.pre@.len() > 0),
    {
        !self.pre.as_str().is_empty()
    }

    /// The three numbers of the version, with dots between them.
    pub fn release_string(&self) -> (text: String)
        ensures
            text@ == self.release_text(),
    {
        let mut text = decimal_string(self.major);
        text.append(".");
        let minor = decimal_string(self.minor);
        text.append(minor.as_str());
        text.append(".");
        let patch = decimal_string(self.patch);
        text.append(patch.as_str());
        text
    }

    /// The version as it is written.
    pub fn to_string(&self) -> (text: String)
        ensures
            text@ == self.text(),
    {
        let mut text = self.release_string();
        if !self.pre.as_str().is_empty() {
            text.append("-");
            text.append(self.pre.as_str());
        }
        if !self.build.as_str().is_empty() {
            text.append("+");
            text.append(self.build.as_str());
        }
        assert(text@ =~= self.text());
        text
    }
}

/// A cargo package.
#[derive(Clone, Debug)]
pub struct Package {
    /// The package name
    pub name: String,
    /// The package version.
    pub version: Version,
    /// A list of the package dependencies.
    pub dependencies: Vec<Dependency>,
    /// The package features, each with the list of what it activates.
    pub features: Vec<(String, Vec<String>)>,
}

/// Whether the entry `activated` of a feature enables the feature `feature` of the package
/// `package`: it is the name of the package, then any number of question marks, a slash and
/// the name of the feature, after any number of `dep:` in front of it all.
pub open spec fn enables(activated: Seq<char>, package: Seq<char>, feature: Seq<char>) -> bool {
    let named = strip_all(activated, "dep:"@);
    occurs_at(named, package, 0) && {
        let after_name = named.skip(package.len() as int);
        after_name.len() > 0 && {
            let after_marks = strip_all(after_name, "?"@);
            after_marks.len() > 0 && after_marks[0] == '/' && after_marks.skip(1) == feature
        }
    }
}

/// Whether one of the entries of `activated` enables the feature.
pub open spec fn any_enables(activated: Seq<String>, package: Seq<char>, feature: Seq<char>) -> bool {
    exists|j: int| 0 <= j < activated.len() && enables(#[trigger] activated[j]@, package, feature)
}

/// Whether the entry `activated` of a feature enables the feature `feature_name` of the package
/// `package_name`.
pub fn entry_enables(activated: &str, package_name: &str, feature_name: &str) -> (r: bool)
    ensures
        r == enables(activated@, package_name@, feature_name@),
{
    let entry = chars_of(activated);
    let package = chars_of(package_name);
    let feature = chars_of(feature_name);
    let dep = chars_of("dep:");
    let mark = chars_of("?");
    let slash = chars_of("/");
    proof {
        reveal_strlit("/");
        assert(slash@ =~= seq!['/']);
    }
    // Remove optional `dep:` at the start.
    let name_at = skip_all(&entry, &dep, 0);
    let ghost named = strip_all(entry@, dep@);
    assert(entry@.skip(0) =~= entry@);
    assert(named == entry@.skip(name_at as int));
    // Check that we have the package name.
    proof {
        crate::chars::lemma_occurs_in_skip(entry@, package@, name_at as int);
    }
    if !stands_at(&entry, &package, name_at) {
        return false;
    }
    assert(name_at + package@.len() <= entry.len());
    let after_name_at = name_at + package.len();
    let ghost after_name = named.skip(package@.len() as int);
    assert(after_name =~= entry@.skip(after_name_at as int));
    if after_name_at == entry.len() {
        // The feature only enables the dependency.
        return false;
    }
    // Remove optional `?`.
    let marks_end = skip_all(&entry, &mark, after_name_at);
    let ghost after_marks = strip_all(after_name, mark@);
    assert(after_marks == entry@.skip(marks_end as int));
    if marks_end == entry.len() || entry[marks_end] != '/' {
        // This is another package name starting with the same string.
        return false;
    }
    assert(after_marks[0] == '/');
    // Finally, only the feature name is remaining.
    let feature_at = marks_end + 1;
    assert(after_marks.skip(1) =~= entry@.skip(feature_at as int));
    let same = entry.len() - feature_at == feature.len() && stands_at(&entry, &feature, feature_at);
    proof {
        if entry@.len() - feature_at == feature@.len() {
            assert(entry@.subrange(feature_at as int, feature_at + feature@.len()) =~= entry@.skip(
                feature_at as int,
            ));
        }
    }
    same
}

impl Package {
    /// Whether this package has a way to enable the given feature from the given package.
    pub fn can_enable_feature(&self, package_name: &str, feature_name: &str) -> (r: bool)
        ensures
            r == exists|i: int|
                0 <= i < self.features@.len() && any_enables(
                    (#[trigger] self.features@[i]).1@,
                    package_name@,
                    feature_name@,
                ),
    {
        let mut i: usize = 0;
        while i < self.features.len()
            invariant
                0 <= i <= self.features@.len(),
                forall|k: int|
                    0 <= k < i ==> !any_enables(
                        (#[trigger] self.features@[k]).1@,
                        package_name@,
                        feature_name@,
                    ),
            decreases self.features@.len() - i,
        {
            let activated = &self.features[i].1;
            let mut j: usize = 0;
            while j < activated.len()
                invariant
                    0 <= i < self.features@.len(),
                    *activated == self.features@[i as int].1,
                    0 <= j <= activated@.len(),
                    forall|k: int|
                        0 <= k < j ==> !enables(
                            (#[trigger] activated@[k])@,
                            package_name@,
                            feature_name@,
                        ),
                decreases activated@.len() - j,
            {
                if entry_enables(activated[j].as_str(), package_name, feature_name) {
                    assert(any_enables(self.features@[i as int].1@, package_name@, feature_name@));
                    return true;
                }
                j = j + 1;
            }
            i = i + 1;
        }
        false
    }

    /// Whether one of the dependencies of this package has the given name.
    pub fn depends_on(&self, name: &str) -> (r: bool)
        ensures
            r == exists|i: int|
                0 <= i < self.dependencies@.len() && (#[trigger] self.dependencies@[i]).name@
                    == name@,
    {
        let mut i: usize = 0;
        while i < self.dependencies.len()
            invariant
                0 <= i <= self.dependencies@.len(),
                forall|k: int| 0 <= k < i ==> (#[trigger] self.dependencies@[k]).name@ != name@,
            decreases self.dependencies@.len() - i,
        {
            if str_eq(self.dependencies[i].name.as_str(), name) {
                return true;
            }
            i = i + 1;
        }
        false
    }

    /// The tables of the manifest of this package that list the dependency `name`: one for
    /// each dependency of that name, in their order.
    pub fn dependency_tables(&self, name: &str) -> (tables: Vec<&'static str>)
        ensures
            str_seq(tables@) == tables_of(self.dependencies@, name@),
    {
        let mut tables: Vec<&'static str> = Vec::new();
        let mut i: usize = 0;
        assert(self.dependencies@.take(0) =~= Seq::<Dependency>::empty());
        assert(str_seq(tables@) =~= Seq::<Seq<char>>::empty());
        while i < self.dependencies.len()
            invariant
                0 <= i <= self.dependencies@.len(),
                str_seq(tables@) == tables_of(self.dependencies@.take(i as int), name@),
            decreases self.dependencies@.len() - i,
        {
            let dependency = &self.dependencies[i];
            let ghost before = str_seq(tables@);
            proof {
                assert(self.dependencies@.take(i + 1).drop_last() =~= self.dependencies@.take(
                    i as int,
                ));
                assert(self.dependencies@.take(i + 1).last() == *dependency);
            }
            if str_eq(dependency.name.as_str(), name) {
                tables.push(dependency.table());
                assert(str_seq(tables@) =~= before.push(table_name(dependency.kind)));
            }
            i = i + 1;
        }
        assert(self.dependencies@.take(i as int) =~= self.dependencies@);
        tables
    }

    /// Whether the packages that depend on this one name its version in their own manifests:
    /// so it is for the package `ruma`. The version of any other package is named once, in
    /// the manifest of the workspace.
    pub fn is_umbrella(&self) -> (b: bool)
        ensures
            b == (self.name@ == "ruma"@),
    {
        str_eq(self.name.as_str(), "ruma")
    }

    /// Whether the version of this package is pinned where others depend on it: so it is for
    /// a pre-release, and for the package `ruma-macros`.
    pub open spec fn is_pinned(&self) -> bool {
        self.name@ == "ruma-macros"@ || self.version.pre@.len() > 0
    }

    /// The version of this package as the manifests that depend on it name it: with `=` in
    /// front where the version is pinned.
    pub fn requirement(&self) -> (text: String)
        ensures
            text@ == if self.is_pinned() {
                "="@ + self.version.text()
            } else {
                self.version.text()
            },
    {
        let version = self.version.to_string();
        if str_eq(self.name.as_str(), "ruma-macros") || self.version.is_prerelease() {
            let mut text = String::from_str("=");
            text.append(version.as_str());
            text
        } else {
            version
        }
    }

    /// Whether this package has a changelog: all have one but `ruma-macros`.
    pub fn has_changelog(&self) -> (b: bool)
        ensures
            b == (self.name@ != "ruma-macros"@),
    {
        !str_eq(self.name.as_str(), "ruma-macros")
    }
}

/// What the publishing of a package does next.
#[derive(Clone, Copy, Debug, PartialEq, Eq)]
pub enum PublishAction {
    /// The version is published already: ask whether to skip this step and go on.
    AskToSkip,
    /// Publish the package.
    Publish,
    /// Do nothing: this is a dry run.
    Nothing,
}

/// Why the publishing of a package ended early.
#[derive(Clone, Copy, Debug, PartialEq, Eq)]
pub enum PublishError {
    /// The user did not want to skip a version that is published already.
    Interrupted,
}

impl PublishError {
    /// What went wrong, in words.
    pub fn message(&self) -> (text: &'static str)
        ensures
            text@ == "Release interrupted by user."@,
    {
        "Release interrupted by user."
    }
}

/// What to do with a package once it is known whether its version is published.
pub fn publish_action(published: bool, dry_run: bool) -> (action: PublishAction)
    ensures
        action == if published {
            PublishAction::AskToSkip
        } else if dry_run {
            PublishAction::Nothing
        } else {
            PublishAction::Publish
        },
{
    if published {
        PublishAction::AskToSkip
    } else if !dry_run {
        PublishAction::Publish
    } else {
        PublishAction::Nothing
    }
}

/// How the publishing goes on after the user was asked whether to skip a published version:
/// it goes on if they agreed, and ends if they did not.
pub fn after_asking_to_skip(agreed: bool) -> (r: Result<(), PublishError>)
    ensures
        r == if agreed {
            Ok::<(), PublishError>(())
        } else {
            Err::<(), PublishError>(PublishError::Interrupted)
        },
{
    if !agreed {
        return Err(PublishError::Interrupted);
    }
    Ok(())
}

/// The strings of `v`, each as its sequence of characters.
pub open spec fn str_seq(v: Seq<&'static str>) -> Seq<Seq<char>> {
    v.map_values(|s: &'static str| s@)
}

/// The name of the table of a manifest that lists the dependencies of a kind.
pub open spec fn table_name(kind: Option<DependencyKind>) -> Seq<char> {
    match kind {
        Some(DependencyKind::Dev) => "dev-dependencies"@,
        Some(DependencyKind::Build) => "build-dependencies"@,
        None => "dependencies"@,
    }
}

/// The tables of the dependencies named `name`, in their order.
pub open spec fn tables_of(dependencies: Seq<Dependency>, name: Seq<char>) -> Seq<Seq<char>>
    decreases dependencies.len(),
{
    if dependencies.len() == 0 {
        Seq::empty()
    } else if dependencies.last().name@ == name {
        tables_of(dependencies.drop_last(), name).push(table_name(dependencies.last().kind))
    } else {
        tables_of(dependencies.drop_last(), name)
    }
}

/// A cargo package dependency.
#[derive(Clone, Debug)]
pub struct Dependency {
    /// The package name.
    pub name: String,
    /// The kind of the dependency.
    pub kind: Option<DependencyKind>,
}

impl Dependency {
    /// The name of the table of a manifest that lists this dependency.
    pub fn table(&self) -> (name: &'static str)
        ensures
            name@ == table_name(self.kind),
    {
        match self.kind {
            Some(DependencyKind::Dev) => "dev-dependencies",
            Some(DependencyKind::Build) => "build-dependencies",
            None => "dependencies",
        }
    }
}

/// The kind of a cargo package dependency.
#[derive(Clone, Copy, Debug, PartialEq)]
pub enum DependencyKind {
    /// A dev dependency.
    Dev,
    /// A build dependency.
    Build,
}

} // verus!
