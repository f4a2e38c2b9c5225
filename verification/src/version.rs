//! The version that is shown of a build.

use crate::text;
use vstd::prelude::*;
use vstd::string::*;

verus! {

/// The version that a developer gives a build: without white space around it, and with a `v`
/// in front.
pub open spec fn developer_version(value: Seq<char>) -> Seq<char> {
    let kept = text::trimmed(value);
    if kept.len() == 0 {
        "v0.0.0-dev"@
    } else if kept[0] == 'v' {
        kept
    } else {
        "v"@ + kept
    }
}

/// The version that a developer gives a build.
pub fn normalize_dev_version(value: &str) -> (version: String)
    ensures
        version@ == developer_version(value@),
{
    let kept = text::trim(value);
    let all = text::characters(kept.as_str());
    if all.len() == 0 {
        "v0.0.0-dev".to_owned()
    } else if all[0] == 'v' {
        kept
    } else {
        let mut version = "v".to_owned();
        version.append(kept.as_str());
        version
    }
}

/// The text of an optional string.
pub open spec fn given(value: Option<&str>) -> Option<Seq<char>> {
    match value {
        Some(value) => Some(value@),
        None => None,
    }
}

/// The version that is shown: that of the package in a release, else the one that the
/// developer gives, else the commit.
pub open spec fn shown_version(
    release: bool,
    package: Seq<char>,
    developer: Option<Seq<char>>,
    commit: Option<Seq<char>>,
) -> Seq<char> {
    if release {
        "v"@ + package
    } else {
        match developer {
            Some(value) => developer_version(value),
            None => "v0.0.0-"@ + match commit {
                Some(commit) => commit,
                None => "dev"@,
            },
        }
    }
}

/// The version that is shown.
pub fn display_version(
    release: bool,
    package: &str,
    developer: Option<&str>,
    commit: Option<&str>,
) -> (version: String)
    ensures
        version@ == shown_version(release, package@, given(developer), given(commit)),
{
    if release {
        let mut version = "v".to_owned();
        version.append(package);
        return version;
    }
    match developer {
        Some(value) => normalize_dev_version(value),
        None => {
            let mut version = "v0.0.0-".to_owned();
            match commit {
                Some(commit) => version.append(commit),
                None => version.append("dev"),
            }
            version
        },
    }
}

} // verus!
