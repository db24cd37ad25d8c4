//! The folders that the platform assigns to an application, as the
//! `directories` crate reports them.
//!
//! What the platform answers is not proved: it depends on the machine, the
//! user and the environment, so no contract says which folders come back.

use crate::location::{Identity, ProjectFolders};
use vstd::prelude::*;

verus! {

/// `directories::ProjectDirs::from`, called with the qualifier, the
/// organization and the application of `identity` in this order, with the
/// folders it computed as text: the one that `ProjectDirs::config_dir`
/// gives as `config`, the one that `ProjectDirs::data_dir` gives as `data`.
/// The folders are `None` where the system has no valid home directory; a
/// folder is `None` where its path is not valid Unicode. Nothing is claimed
/// of the folders. Whatever comes back, the result holds beside it the
/// three texts that were asked with.
#[verifier::external_body]
pub(crate) fn project_folders(identity: (&str, &str, &str)) -> (answer: (
    Identity,
    Option<ProjectFolders>,
))
    ensures
        answer.0@ == (identity.0@, identity.1@, identity.2@),
{
    let asked = Identity {
        qualifier: identity.0.to_string(),
        organization: identity.1.to_string(),
        application: identity.2.to_string(),
    };
    let dirs = directories::ProjectDirs::from(identity.0, identity.1, identity.2);
    let folders = dirs.map(|dirs| ProjectFolders {
        config: dirs.config_dir().to_str().map(|text| text.to_string()),
        data: dirs.data_dir().to_str().map(|text| text.to_string()),
    });
    (asked, folders)
}

} // verus!
