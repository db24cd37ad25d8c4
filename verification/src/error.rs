//! What can go wrong with a document.

use vstd::prelude::*;
use vstd::string::StringExecFns;

verus! {

/// Why a document could not be found, made, opened or launched. Where a file
/// or folder is at fault, the error carries its path.
#[derive(Debug)]
pub enum DocumentError {
    UserDirsNotFound,
    PicturesDirNotFound,
    VideosDirNotFound,
    DownloadsDirNotFound,
    DocumentsDirNotFound,
    ProjectDirsNotFound,
    FileNotFound(String),
    CouldNotCreateFile(String),
    CouldNotCreateParentFolder(String),
    CouldNotLaunchFile(String),
    CouldNotOpenFile(String),
    FileNotWritable(String),
    FileNotOpen(String),
}

/// A `DocumentError` as a mathematical value: the paths are sequences of
/// characters.
pub enum ErrorView {
    UserDirsNotFound,
    PicturesDirNotFound,
    VideosDirNotFound,
    DownloadsDirNotFound,
    DocumentsDirNotFound,
    ProjectDirsNotFound,
    FileNotFound(Seq<char>),
    CouldNotCreateFile(Seq<char>),
    CouldNotCreateParentFolder(Seq<char>),
    CouldNotLaunchFile(Seq<char>),
    CouldNotOpenFile(Seq<char>),
    FileNotWritable(Seq<char>),
    FileNotOpen(Seq<char>),
}

impl View for DocumentError {
    type V = ErrorView;

    open spec fn view(&self) -> ErrorView {
        match self {
            DocumentError::UserDirsNotFound => ErrorView::UserDirsNotFound,
            DocumentError::PicturesDirNotFound => ErrorView::PicturesDirNotFound,
            DocumentError::VideosDirNotFound => ErrorView::VideosDirNotFound,
            DocumentError::DownloadsDirNotFound => ErrorView::DownloadsDirNotFound,
            DocumentError::DocumentsDirNotFound => ErrorView::DocumentsDirNotFound,
            DocumentError::ProjectDirsNotFound => ErrorView::ProjectDirsNotFound,
            DocumentError::FileNotFound(p) => ErrorView::FileNotFound(p@),
            DocumentError::CouldNotCreateFile(p) => ErrorView::CouldNotCreateFile(p@),
            DocumentError::CouldNotCreateParentFolder(p) => ErrorView::CouldNotCreateParentFolder(
                p@,
            ),
            DocumentError::CouldNotLaunchFile(p) => ErrorView::CouldNotLaunchFile(p@),
            DocumentError::CouldNotOpenFile(p) => ErrorView::CouldNotOpenFile(p@),
            DocumentError::FileNotWritable(p) => ErrorView::FileNotWritable(p@),
            DocumentError::FileNotOpen(p) => ErrorView::FileNotOpen(p@),
        }
    }
}

impl Clone for DocumentError {
    fn clone(&self) -> (copy: Self)
        ensures
            copy@ == self@,
    {
        match self {
            DocumentError::UserDirsNotFound => DocumentError::UserDirsNotFound,
            DocumentError::PicturesDirNotFound => DocumentError::PicturesDirNotFound,
            DocumentError::VideosDirNotFound => DocumentError::VideosDirNotFound,
            DocumentError::DownloadsDirNotFound => DocumentError::DownloadsDirNotFound,
            DocumentError::DocumentsDirNotFound => DocumentError::DocumentsDirNotFound,
            DocumentError::ProjectDirsNotFound => DocumentError::ProjectDirsNotFound,
            DocumentError::FileNotFound(p) => DocumentError::FileNotFound(p.clone()),
            DocumentError::CouldNotCreateFile(p) => DocumentError::CouldNotCreateFile(p.clone()),
            DocumentError::CouldNotCreateParentFolder(p) => {
                DocumentError::CouldNotCreateParentFolder(p.clone())
            },
            DocumentError::CouldNotLaunchFile(p) => DocumentError::CouldNotLaunchFile(p.clone()),
            DocumentError::CouldNotOpenFile(p) => DocumentError::CouldNotOpenFile(p.clone()),
            DocumentError::FileNotWritable(p) => DocumentError::FileNotWritable(p.clone()),
            DocumentError::FileNotOpen(p) => DocumentError::FileNotOpen(p.clone()),
        }
    }
}

impl ErrorView {
    /// The message that describes the error to a reader.
    pub open spec fn message(self) -> Seq<char> {
        match self {
            ErrorView::UserDirsNotFound => "User directories not found"@,
            ErrorView::PicturesDirNotFound => "Pictures directory not found"@,
            ErrorView::VideosDirNotFound => "Videos directory not found"@,
            ErrorView::DownloadsDirNotFound => "Downloads directory not found"@,
            ErrorView::DocumentsDirNotFound => "Documents directory not found"@,
            ErrorView::ProjectDirsNotFound => "Project directories not found"@,
            ErrorView::FileNotFound(p) => "File not found: "@ + p,
            ErrorView::CouldNotCreateFile(p) => "Could not create file: "@ + p,
            ErrorView::CouldNotCreateParentFolder(p) => "Could not create parent folder: "@ + p,
            ErrorView::CouldNotLaunchFile(p) => "Could not launch file with default app: "@ + p,
            ErrorView::CouldNotOpenFile(p) => "Could not open file: "@ + p,
            ErrorView::FileNotWritable(p) => "File not writable: "@ + p,
            ErrorView::FileNotOpen(p) => "File not open: "@ + p,
        }
    }
}

impl DocumentError {
    /// The message that describes the error to a reader.
    pub fn message(&self) -> (msg: String)
        ensures
            msg@ == self@.message(),
    {
        match self {
            DocumentError::UserDirsNotFound => String::from_str("User directories not found"),
            DocumentError::PicturesDirNotFound => String::from_str("Pictures directory not found"),
            DocumentError::VideosDirNotFound => String::from_str("Videos directory not found"),
            DocumentError::DownloadsDirNotFound => String::from_str(
                "Downloads directory not found",
            ),
            DocumentError::DocumentsDirNotFound => String::from_str(
                "Documents directory not found",
            ),
            DocumentError::ProjectDirsNotFound => String::from_str(
                "Project directories not found",
            ),
            DocumentError::FileNotFound(p) => String::from_str("File not found: ").concat(
                p.as_str(),
            ),
            DocumentError::CouldNotCreateFile(p) => String::from_str(
                "Could not create file: ",
            ).concat(p.as_str()),
            DocumentError::CouldNotCreateParentFolder(p) => String::from_str(
                "Could not create parent folder: ",
            ).concat(p.as_str()),
            DocumentError::CouldNotLaunchFile(p) => String::from_str(
                "Could not launch file with default app: ",
            ).concat(p.as_str()),
            DocumentError::CouldNotOpenFile(p) => String::from_str("Could not open file: ").concat(
                p.as_str(),
            ),
            DocumentError::FileNotWritable(p) => String::from_str("File not writable: ").concat(
                p.as_str(),
            ),
            DocumentError::FileNotOpen(p) => String::from_str("File not open: ").concat(
                p.as_str(),
            ),
        }
    }
}

} // verus!
