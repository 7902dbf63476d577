//! What can go wrong while a stack's repository is set up.

use crate::text::concat3;
use vstd::prelude::*;

verus! {

/// What can go wrong while a repository is created.
#[derive(Debug, PartialEq)]
pub enum TorbVCSErrors {
    UnableToCreateLocalRepoDir { path: String, response: String },
    UnableToInitLocalGitRepo { response: String },
    UnableToSyncRemoteRepo { response: String },
    UnableToPushToRemoteRepo { response: String },
    UnableToInitReadme { response: String },
}

impl TorbVCSErrors {
    /// The sentence shown for the error, with the tool's response.
    pub fn message(&self) -> (text: String)
        ensures
            text@ == match *self {
                TorbVCSErrors::UnableToCreateLocalRepoDir { path, response } =>
                    "Cannot create repo directory at: "@ + path@ + ", reason: "@ + response@,
                TorbVCSErrors::UnableToInitLocalGitRepo { response } =>
                    "Unable to init local git repo, reason: "@ + response@ + ""@,
                TorbVCSErrors::UnableToSyncRemoteRepo { response } =>
                    "Unable to sync remote repo, reason: "@ + response@ + ""@,
                TorbVCSErrors::UnableToPushToRemoteRepo { response } =>
                    "Unable to push to remote repo, reason: "@ + response@ + ""@,
                TorbVCSErrors::UnableToInitReadme { response } =>
                    "Unable to push to init readme, reason: "@ + response@ + ""@,
            },
    {
        match self {
            TorbVCSErrors::UnableToCreateLocalRepoDir { path, response } => {
                let mut text = concat3(
                    "Cannot create repo directory at: ",
                    path.as_str(),
                    ", reason: ",
                );
                text.append(response.as_str());
                text
            },
            TorbVCSErrors::UnableToInitLocalGitRepo { response } => concat3(
                "Unable to init local git repo, reason: ",
                response.as_str(),
                "",
            ),
            TorbVCSErrors::UnableToSyncRemoteRepo { response } => concat3(
                "Unable to sync remote repo, reason: ",
                response.as_str(),
                "",
            ),
            TorbVCSErrors::UnableToPushToRemoteRepo { response } => concat3(
                "Unable to push to remote repo, reason: ",
                response.as_str(),
                "",
            ),
            TorbVCSErrors::UnableToInitReadme { response } => concat3(
                "Unable to push to init readme, reason: ",
                response.as_str(),
                "",
            ),
        }
    }
}

/// `first` unless it is empty, else `other`.
pub fn or_else<'a>(first: &'a str, other: &'a str) -> (chosen: &'a str)
    ensures
        chosen@ == if first@.len() == 0 {
            other@
        } else {
            first@
        },
{
    if first.is_empty() {
        other
    } else {
        first
    }
}

} // verus!
