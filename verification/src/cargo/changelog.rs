//! The changelog of a package: finding the changes of a version, and closing them on release.
//!
//! A changelog is made of sections. The title of a section is a line that begins with `# `;
//! what follows it, up to the next such line, are its changes.

use vstd::prelude::*;
use vstd::string::StrSliceExecFns;

use crate::cargo::Package;
use crate::chars::{
    chars_of, find_from, first_occurrence, lemma_first_occurrence, occurs_at, stands_at, trim,
    trim_bounds,
};

verus! {

/// The title of the section of a released version.
pub open spec fn release_title(version: Seq<char>) -> Seq<char> {
    "# "@ + version + "\n"@
}

/// The title of the section of a version that is not released yet.
pub open spec fn unreleased_title(version: Seq<char>) -> Seq<char> {
    "# "@ + version + " (unreleased)\n"@
}

/// Where the section of the version begins, and whether the changelog is to be updated: at
/// the first title of the released version, without an update; else, if an update is asked
/// for and the changelog begins with the title of the unreleased version or with
/// `# [unreleased]`, at the start, with an update.
pub open spec fn find_section(changelog: Seq<char>, version: Seq<char>, update: bool) -> Option<
    (int, bool),
> {
    match first_occurrence(changelog, release_title(version), 0) {
        Some(at) => Some((at, false)),
        None => if update && (occurs_at(changelog, unreleased_title(version), 0) || occurs_at(
            changelog,
            "# [unreleased]\n"@,
            0,
        )) {
            Some((0, true))
        } else {
            None
        },
    }
}

/// Where the changes of a section end that begin at `changes_start`: at the next line that
/// begins with `# `, or at the end of the changelog.
pub open spec fn changes_end(changelog: Seq<char>, changes_start: int) -> int {
    match first_occurrence(changelog, "\n# "@, changes_start) {
        Some(at) => at,
        None => changelog.len() as int,
    }
}

/// The changes between two positions of a changelog, trimmed, or a remark that there are none.
pub open spec fn changes_text(changelog: Seq<char>, start: int, end: int) -> Seq<char> {
    let body = trim(changelog.subrange(start, end));
    if body.len() == 0 {
        "No changes for this version"@
    } else {
        body
    }
}

/// The changelog after a release: an empty section for what is not released, the section of
/// the version with its changes, and what followed them.
pub open spec fn released_changelog(version: Seq<char>, changes: Seq<char>, rest: Seq<char>) -> Seq<
    char,
> {
    "# [unreleased]\n\n# "@ + version + "\n\n"@ + changes + "\n"@ + rest
}

/// What a changelog says of a version.
#[derive(Clone, Debug)]
pub struct Changes {
    /// The changes of the version.
    pub changes: String,
    /// The changelog as it is to be written back, if it is to be updated.
    pub updated_changelog: Option<String>,
}

/// Why the changes of a version were not found.
#[derive(Clone, Copy, Debug, PartialEq, Eq)]
pub enum ChangelogError {
    /// The changelog has no title for the version.
    TitleNotFound,
}

impl ChangelogError {
    /// What went wrong, in words.
    pub fn message(&self) -> (text: &'static str)
        ensures
            text@ == "Could not find version title in changelog"@,
    {
        "Could not find version title in changelog"
    }
}

/// Where a title stands, a line ends: at the line feed that ends the title, or before it.
pub proof fn lemma_title_ends(changelog: Seq<char>, title: Seq<char>, at: int)
    requires
        occurs_at(changelog, title, at),
        title.len() > 0,
        title.last() == '\n',
        "\n"@ == seq!['\n'],
    ensures
        first_occurrence(changelog, "\n"@, at) matches Some(end) && at <= end < at + title.len(),
{
    let last = at + title.len() - 1;
    assert(changelog.subrange(at, at + title.len())[title.len() - 1] == changelog[last]);
    assert(changelog.subrange(last, last + 1) =~= seq!['\n']);
    assert(occurs_at(changelog, "\n"@, last));
    lemma_first_occurrence(changelog, "\n"@, at);
}

/// What `changelog` says of the version `release`, whose full name is `version`: the changes
/// that follow the line of the title of its section, and the changelog after the release where
/// it is to be updated.
pub open spec fn changes_of(
    changelog: Seq<char>,
    release: Seq<char>,
    version: Seq<char>,
    update: bool,
) -> Result<(Seq<char>, Option<Seq<char>>), ChangelogError> {
    match find_section(changelog, release, update) {
        None => Err(ChangelogError::TitleNotFound),
        Some((title_start, updates)) => {
            let start = first_occurrence(changelog, "\n"@, title_start)->0 + 1;
            let end = changes_end(changelog, start);
            let changes = changes_text(changelog, start, end);
            Ok(
                (
                    changes,
                    if updates {
                        Some(released_changelog(version, changes, changelog.skip(end)))
                    } else {
                        None
                    },
                ),
            )
        },
    }
}

impl Package {
    /// Get the changes for the current version of this package from its changelog.
    ///
    /// If `update` is `true`, the changelog is updated if needed: where it begins with a
    /// section for what is not released and has none for the version, that section becomes
    /// the section of the version.
    pub fn changes_in(&self, changelog: &str, update: bool) -> (r: Result<Changes, ChangelogError>)
        ensures
            match r {
                Ok(found) => changes_of(
                    changelog@,
                    self.version.release_text(),
                    self.version.text(),
                    update,
                ) == Ok::<(Seq<char>, Option<Seq<char>>), ChangelogError>(
                    (
                        found.changes@,
                        match found.updated_changelog {
                            Some(text) => Some(text@),
                            None => None,
                        },
                    ),
                ),
                Err(e) => changes_of(
                    changelog@,
                    self.version.release_text(),
                    self.version.text(),
                    update,
                ) == Err::<(Seq<char>, Option<Seq<char>>), ChangelogError>(e),
            },
    {
        let release = self.version.release_string();
        let text = chars_of(changelog);

        let mut title = String::from_str("# ");
        title.append(release.as_str());
        title.append("\n");
        let title_chars = chars_of(title.as_str());
        assert(title_chars@ =~= release_title(release@));

        proof {
            reveal_strlit("\n");
            assert("\n"@ =~= seq!['\n']);
        }
        let (title_start, updates) = match find_from(&text, &title_chars, 0) {
            Some(at) => {
                proof {
                    lemma_first_occurrence(text@, title_chars@, 0);
                    lemma_title_ends(text@, title_chars@, at as int);
                }
                (at, false)
            },
            None => {
                if !update {
                    return Err(ChangelogError::TitleNotFound);
                }
                let mut unreleased = String::from_str("# ");
                unreleased.append(release.as_str());
                unreleased.append(" (unreleased)\n");
                let unreleased_chars = chars_of(unreleased.as_str());
                let heading = chars_of("# [unreleased]\n");
                proof {
                    reveal_strlit(" (unreleased)\n");
                    reveal_strlit("# [unreleased]\n");
                    assert(unreleased_chars@ =~= unreleased_title(release@));
                    assert(heading@.len() == 15 && heading@.last() == '\n');
                    assert(unreleased_chars@.last() == " (unreleased)\n"@[13]);
                }
                if stands_at(&text, &unreleased_chars, 0) {
                    proof {
                        lemma_title_ends(text@, unreleased_chars@, 0);
                    }
                    (0, true)
                } else if stands_at(&text, &heading, 0) {
                    proof {
                        lemma_title_ends(text@, heading@, 0);
                    }
                    (0, true)
                } else {
                    return Err(ChangelogError::TitleNotFound);
                }
            },
        };
        assert(find_section(changelog@, release@, update) == Some((title_start as int, updates)));

        let line_feed = chars_of("\n");
        let changes_start = match find_from(&text, &line_feed, title_start) {
            Some(title_end) => {
                proof {
                    lemma_first_occurrence(text@, line_feed@, title_start as int);
                    assert(title_end + 1 <= text.len());
                }
                title_end + 1
            },
            None => vstd::pervasive::unreached(),
        };

        let next_title = chars_of("\n# ");
        let end = match find_from(&text, &next_title, changes_start) {
            Some(at) => {
                proof {
                    lemma_first_occurrence(text@, next_title@, changes_start as int);
                }
                at
            },
            None => text.len(),
        };
        assert(end == changes_end(changelog@, changes_start as int));

        let (lo, hi) = trim_bounds(&text, changes_start, end);
        let changes: String = if lo == hi {
            assert(text@.subrange(lo as int, hi as int) =~= Seq::<char>::empty());
            String::from_str("No changes for this version")
        } else {
            changelog.substring_char(lo, hi).to_owned()
        };
        assert(changes@ == changes_text(changelog@, changes_start as int, end as int));

        let updated_changelog = if updates {
            let rest = changelog.substring_char(end, text.len());
            assert(rest@ =~= changelog@.skip(end as int));
            let version = self.version.to_string();
            let mut updated = String::from_str("# [unreleased]\n\n# ");
            updated.append(version.as_str());
            updated.append("\n\n");
            updated.append(changes.as_str());
            updated.append("\n");
            updated.append(rest);
            assert(updated@ =~= released_changelog(version@, changes@, rest@));
            Some(updated)
        } else {
            None
        };
        Ok(Changes { changes, updated_changelog })
    }
}

} // verus!
