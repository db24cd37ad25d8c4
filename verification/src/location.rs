//! Well-known places of the file system, and the paths they stand for.

use crate::error::{DocumentError, ErrorView};
use crate::name::text_of;
use crate::path::{join, join_all, joined, joined_all, texts};
use crate::platform::project_folders;
use vstd::prelude::*;

verus! {

/// One of the user's folders, with the folders to go down into from there.
pub enum User<'a> {
    Documents(&'a [&'a str]),
    Pictures(&'a [&'a str]),
    Videos(&'a [&'a str]),
    Downloads(&'a [&'a str]),
    Home(&'a [&'a str]),
}

/// One of an application's folders, with the folders to go down into from
/// there.
pub enum Project<'a> {
    Config(&'a [&'a str]),
    Data(&'a [&'a str]),
}

/// A place to keep files: a folder of the user, or a folder of the
/// application with the given qualifier, organization and application name.
pub enum Folder<'a> {
    User(User<'a>),
    Project((Project<'a>, &'a str, &'a str, &'a str)),
}

impl<'a> Project<'a> {
    /// The folder together with the identity of the application it belongs
    /// to. The identity has the reverse-DNS form `com.example.App`: `com` is
    /// the qualifier, `example` the organization and `App` the application.
    pub fn with_id(self, qualifier: &'a str, organization: &'a str, application: &'a str) -> (r: (
        Self,
        &'a str,
        &'a str,
        &'a str,
    ))
        ensures
            r == (self, qualifier, organization, application),
    {
        (self, qualifier, organization, application)
    }
}

/// The folders that the platform has for the user, each by its path. A
/// folder is `None` where the platform has none of the kind, and also
/// where its path is not valid Unicode: the library holds paths as text.
#[derive(Debug, Clone)]
pub struct UserFolders {
    pub home: Option<String>,
    pub documents: Option<String>,
    pub downloads: Option<String>,
    pub pictures: Option<String>,
    pub videos: Option<String>,
}

/// The folders that the platform has for one application, each by its
/// path. A folder is `None` where its path is not valid Unicode.
#[derive(Debug, Clone)]
pub struct ProjectFolders {
    pub config: Option<String>,
    pub data: Option<String>,
}

/// The identity of an application, in reverse-DNS form: `com`, `example`
/// and `App` for `com.example.App`.
#[derive(Debug, Clone)]
pub struct Identity {
    pub qualifier: String,
    pub organization: String,
    pub application: String,
}

impl View for Identity {
    type V = (Seq<char>, Seq<char>, Seq<char>);

    open spec fn view(&self) -> (Seq<char>, Seq<char>, Seq<char>) {
        (self.qualifier@, self.organization@, self.application@)
    }
}

/// The qualifier, the organization and the application of an identity, if
/// there is one.
pub open spec fn key_of(asked: Option<Identity>) -> Option<(Seq<char>, Seq<char>, Seq<char>)> {
    match asked {
        Some(identity) => Some(identity@),
        None => None,
    }
}

/// What the platform answered when asked for its folders: those of the
/// user, and those of the application that a place belongs to. Each is
/// `None` where the platform knows no folders of the kind, or was not
/// asked. `asked` is the identity that the application's folders were asked
/// for with, if they were.
#[derive(Debug, Clone)]
pub struct Answers {
    pub user: Option<UserFolders>,
    pub project: Option<ProjectFolders>,
    pub asked: Option<Identity>,
}

/// What the platform's answers say of the folder that a place starts from.
pub enum Lookup {
    /// The platform knows no folders of this kind at all.
    Unavailable,
    /// The platform knows such folders, but has no path for the one asked
    /// for. That is so, too, where the folder's path is not valid Unicode:
    /// a home folder or an application's folder with such a path counts as
    /// missing.
    Missing,
    /// The folder's path.
    Found(String),
}

/// A `Lookup` as a mathematical value.
pub enum LookupView {
    Unavailable,
    Missing,
    Found(Seq<char>),
}

impl View for Lookup {
    type V = LookupView;

    open spec fn view(&self) -> LookupView {
        match self {
            Lookup::Unavailable => LookupView::Unavailable,
            Lookup::Missing => LookupView::Missing,
            Lookup::Found(base) => LookupView::Found(base@),
        }
    }
}

/// A path or the reason why there is none, as a mathematical value.
pub open spec fn resolved(r: Result<String, DocumentError>) -> Result<Seq<char>, ErrorView> {
    match r {
        Ok(path) => Ok(path@),
        Err(e) => Err(e@),
    }
}

impl<'a> User<'a> {
    /// The folders to go down into from the user's folder.
    pub open spec fn subdirs(&self) -> Seq<Seq<char>> {
        match self {
            User::Documents(s) => texts(s@),
            User::Pictures(s) => texts(s@),
            User::Videos(s) => texts(s@),
            User::Downloads(s) => texts(s@),
            User::Home(s) => texts(s@),
        }
    }

    /// The error for a user's folder that the platform does not know.
    pub open spec fn missing(&self) -> ErrorView {
        match self {
            User::Documents(_) => ErrorView::DocumentsDirNotFound,
            User::Pictures(_) => ErrorView::PicturesDirNotFound,
            User::Videos(_) => ErrorView::VideosDirNotFound,
            User::Downloads(_) => ErrorView::DownloadsDirNotFound,
            User::Home(_) => ErrorView::UserDirsNotFound,
        }
    }
}

impl<'a> Project<'a> {
    /// The folders to go down into from the application's folder.
    pub open spec fn subdirs(&self) -> Seq<Seq<char>> {
        match self {
            Project::Config(s) => texts(s@),
            Project::Data(s) => texts(s@),
        }
    }
}

impl<'a> Folder<'a> {
    /// The folders to go down into from the platform's folder.
    pub open spec fn subdirs(&self) -> Seq<Seq<char>> {
        match self {
            Folder::User(user) => user.subdirs(),
            Folder::Project(project) => project.0.subdirs(),
        }
    }

    /// The error for a platform that knows no folders of this kind.
    pub open spec fn unavailable(&self) -> ErrorView {
        match self {
            Folder::User(_) => ErrorView::UserDirsNotFound,
            Folder::Project(_) => ErrorView::ProjectDirsNotFound,
        }
    }

    /// The error for a folder that the platform does not know.
    pub open spec fn missing(&self) -> ErrorView {
        match self {
            Folder::User(user) => user.missing(),
            Folder::Project(_) => ErrorView::ProjectDirsNotFound,
        }
    }

    /// The path of the file called `filename` in this place, given what the
    /// platform answered: the platform's folder, then each of the folders to
    /// go down into, then the file name.
    pub open spec fn located(&self, lookup: LookupView, filename: Seq<char>) -> Result<
        Seq<char>,
        ErrorView,
    > {
        match lookup {
            LookupView::Unavailable => Err(self.unavailable()),
            LookupView::Missing => Err(self.missing()),
            LookupView::Found(base) => Ok(joined(joined_all(base, self.subdirs()), filename)),
        }
    }

    /// The path that the platform's answers hold for the folder that this
    /// place starts from: for a place of the user, the user's folder of its
    /// kind; for a place of an application, the application's folder of
    /// its kind.
    pub open spec fn wanted_folder(&self, answers: Answers) -> Option<String> {
        match self {
            Folder::User(user) => match answers.user {
                Some(folders) => match user {
                    User::Documents(_) => folders.documents,
                    User::Pictures(_) => folders.pictures,
                    User::Videos(_) => folders.videos,
                    User::Downloads(_) => folders.downloads,
                    User::Home(_) => folders.home,
                },
                None => None,
            },
            Folder::Project(project) => match answers.project {
                Some(folders) => match project.0 {
                    Project::Config(_) => folders.config,
                    Project::Data(_) => folders.data,
                },
                None => None,
            },
        }
    }

    /// What the platform's answers say of the folder that this place starts
    /// from: unavailable where the platform has no folders of the place's
    /// kind, missing where it has them but not this one, else found at its
    /// path.
    pub open spec fn wanted(&self, answers: Answers) -> LookupView {
        let known = match self {
            Folder::User(_) => answers.user is Some,
            Folder::Project(_) => answers.project is Some,
        };
        answered(known, text_of(self.wanted_folder(answers)))
    }

    /// Whether this place is one of the user's, so that the user's folders
    /// are needed to find it.
    pub fn is_user(&self) -> (user: bool)
        ensures
            user == (self is User),
    {
        match self {
            Folder::User(_) => true,
            Folder::Project(_) => false,
        }
    }

    /// The identity of the application that this place belongs to: its
    /// qualifier, its organization and its application, in this order. A
    /// place of the user has none.
    pub open spec fn spec_identity(&self) -> Option<(&'a str, &'a str, &'a str)> {
        match self {
            Folder::User(_) => None,
            Folder::Project(project) => Some((project.1, project.2, project.3)),
        }
    }

    /// The identity of the application that this place belongs to, as text.
    pub open spec fn key(&self) -> Option<(Seq<char>, Seq<char>, Seq<char>)> {
        match self.spec_identity() {
            Some(identity) => Some((identity.0@, identity.1@, identity.2@)),
            None => None,
        }
    }

    /// The identity of the application that this place belongs to: what
    /// the platform is asked with for the application's folders.
    #[verifier::when_used_as_spec(spec_identity)]
    pub fn identity(&self) -> (id: Option<(&'a str, &'a str, &'a str)>)
        ensures
            id == self.spec_identity(),
    {
        match self {
            Folder::User(_) => None,
            Folder::Project((_, qualifier, organization, application)) => Some(
                (*qualifier, *organization, *application),
            ),
        }
    }

    /// Gathers the platform's answers for this place. The user's folders
    /// are the caller's to find, and are handed on as they are. For a place
    /// of an application the platform is asked here for the application's
    /// folders, with the identity of the place: the answers say that it was
    /// asked with that identity, whatever it answered. What it answers
    /// depends on the machine, the user and the environment, and nothing is
    /// known of it beforehand. For a place of the user the platform is not
    /// asked.
    pub fn ask(&self, user: Option<UserFolders>) -> (answers: Answers)
        ensures
            answers.user == user,
            key_of(answers.asked) == self.key(),
            self is User ==> answers.project is None,
    {
        match self.identity() {
            None => Answers { user, project: None, asked: None },
            Some(identity) => {
                let (asked, folders) = project_folders(identity);
                Answers { user, project: folders, asked: Some(asked) }
            },
        }
    }

    /// Picks from the platform's answers the folder that this place starts
    /// from.
    pub fn pick(&self, answers: &Answers) -> (lookup: Lookup)
        ensures
            lookup@ == self.wanted(*answers),
    {
        match self {
            Folder::User(user) => match &answers.user {
                None => Lookup::of(false, None),
                Some(folders) => Lookup::of(
                    true,
                    match user {
                        User::Documents(_) => folders.documents.clone(),
                        User::Pictures(_) => folders.pictures.clone(),
                        User::Videos(_) => folders.videos.clone(),
                        User::Downloads(_) => folders.downloads.clone(),
                        User::Home(_) => folders.home.clone(),
                    },
                ),
            },
            Folder::Project((project, _, _, _)) => match &answers.project {
                None => Lookup::of(false, None),
                Some(folders) => Lookup::of(
                    true,
                    match project {
                        Project::Config(_) => folders.config.clone(),
                        Project::Data(_) => folders.data.clone(),
                    },
                ),
            },
        }
    }

    /// The path of the file called `filename` in this place, given what the
    /// platform answered.
    pub fn locate(&self, lookup: &Lookup, filename: &str) -> (r: Result<String, DocumentError>)
        ensures
            resolved(r) == self.located(lookup@, filename@),
    {
        match lookup {
            Lookup::Unavailable => match self {
                Folder::User(_) => Err(DocumentError::UserDirsNotFound),
                Folder::Project(_) => Err(DocumentError::ProjectDirsNotFound),
            },
            Lookup::Missing => match self {
                Folder::User(user) => match user {
                    User::Documents(_) => Err(DocumentError::DocumentsDirNotFound),
                    User::Pictures(_) => Err(DocumentError::PicturesDirNotFound),
                    User::Videos(_) => Err(DocumentError::VideosDirNotFound),
                    User::Downloads(_) => Err(DocumentError::DownloadsDirNotFound),
                    User::Home(_) => Err(DocumentError::UserDirsNotFound),
                },
                Folder::Project(_) => Err(DocumentError::ProjectDirsNotFound),
            },
            Lookup::Found(base) => {
                let subdirs = match self {
                    Folder::User(user) => match user {
                        User::Documents(s) => *s,
                        User::Pictures(s) => *s,
                        User::Videos(s) => *s,
                        User::Downloads(s) => *s,
                        User::Home(s) => *s,
                    },
                    Folder::Project((project, _, _, _)) => match project {
                        Project::Config(s) => *s,
                        Project::Data(s) => *s,
                    },
                };
                let folder = join_all(base.as_str(), subdirs);
                Ok(join(folder.as_str(), filename))
            },
        }
    }

    /// The path of the file called `filename` in this place, on a platform
    /// that gave these answers: the folder that the place starts from, each
    /// of the folders to go down into, then the file name; or the error for
    /// a folder that the platform does not have.
    pub fn resolve(&self, answers: &Answers, filename: &str) -> (r: Result<String, DocumentError>)
        ensures
            resolved(r) == self.located(self.wanted(*answers), filename@),
    {
        let lookup = self.pick(answers);
        self.locate(&lookup, filename)
    }
}

/// How the platform's answers are read: a platform that knows no folders
/// of the kind is unavailable, whatever is said of the folder; one that
/// knows them but has no path for the folder misses it; else the folder is
/// found at its path.
pub open spec fn answered(known: bool, folder: Option<Seq<char>>) -> LookupView {
    if !known {
        LookupView::Unavailable
    } else {
        match folder {
            Some(base) => LookupView::Found(base),
            None => LookupView::Missing,
        }
    }
}

impl Lookup {
    /// Reads the platform's answers: whether it knows folders of the kind
    /// at all, and the path it has for the folder asked for.
    pub fn of(known: bool, folder: Option<String>) -> (lookup: Lookup)
        ensures
            lookup@ == answered(known, text_of(folder)),
    {
        if !known {
            Lookup::Unavailable
        } else {
            match folder {
                Some(base) => Lookup::Found(base),
                None => Lookup::Missing,
            }
        }
    }
}

} // verus!
