//! A document: a file at a known path, under a short name by which a batch
//! of documents refers to it.

use crate::error::{DocumentError, ErrorView};
use crate::location::{Answers, Folder};
use crate::mode::Mode;
use crate::name::{
    base_of, extension_of, extension_start, find_last, number_of, split_name, text_of,
};
use crate::path::{file_name, file_name_of};
use crate::setup::{begin, Setup, SetupView};
use crate::text::{from_chars, to_chars};
use vstd::prelude::*;
use vstd::string::StringExecFns;

verus! {

/// Whether and how a document's file is made when the document is.
#[derive(Debug, Clone, Copy, PartialEq, Eq, Structural)]
pub enum Create {
    /// The file is not made: it has to be there.
    No,
    /// The file is made unless it is there.
    OnlyIfNotExists,
    /// A new file is made; where the name is taken, under the first free
    /// duplicate name `base(n).ext`.
    AutoRenameIfExists,
}

/// A file at a path, with the alias that stands for it in a batch and the
/// policy it was made under.
#[derive(Debug)]
pub struct Document {
    alias: String,
    path: String,
    create_policy: Create,
}

/// A `Document` as a mathematical value.
pub struct DocumentView {
    pub alias: Seq<char>,
    pub path: Seq<char>,
    pub create_policy: Create,
}

impl View for Document {
    type V = DocumentView;

    closed spec fn view(&self) -> DocumentView {
        DocumentView { alias: self.alias@, path: self.path@, create_policy: self.create_policy }
    }
}

impl Clone for Document {
    fn clone(&self) -> (copy: Self)
        ensures
            copy@ == self@,
    {
        Document {
            alias: self.alias.clone(),
            path: self.path.clone(),
            create_policy: self.create_policy,
        }
    }
}

/// The final piece of a path, or the empty text where it has none.
pub open spec fn name_of(path: Seq<char>) -> Seq<char> {
    match file_name_of(path) {
        Some(name) => name,
        None => Seq::<char>::empty(),
    }
}

/// The extension of a file name without its dot, or the empty text where
/// the name has none.
pub open spec fn bare_extension_of(name: Seq<char>) -> Seq<char> {
    match extension_start(name) {
        Some(i) => name.skip(i + 1),
        None => Seq::<char>::empty(),
    }
}

/// A setup or the reason why there is none, as a mathematical value.
pub open spec fn begun(r: Result<Setup, DocumentError>) -> Result<SetupView, ErrorView> {
    match r {
        Ok(setup) => Ok(setup@),
        Err(e) => Err(e@),
    }
}

/// The setup for the file at a resolved path, under the alias that is the
/// path's final piece; or the error of a path that could not be resolved.
pub open spec fn begin_at(path: Result<Seq<char>, ErrorView>, create: Create) -> Result<
    SetupView,
    ErrorView,
> {
    match path {
        Ok(path) => Ok(begin(path, name_of(path), create, false)),
        Err(e) => Err(e),
    }
}

/// The final piece of a path, or the empty text where it has none.
pub fn path_name(path: &str) -> (name: String)
    ensures
        name@ == name_of(path@),
{
    match file_name(path) {
        Some(name) => name,
        None => String::new(),
    }
}

/// The base, the duplicate number and the extension of the final piece of a
/// path.
pub fn parse_filepath(path: &str) -> (parts: (String, Option<u64>, Option<String>))
    ensures
        parts.0@ == base_of(name_of(path@)),
        parts.1 == number_of(name_of(path@)),
        text_of(parts.2) == extension_of(name_of(path@)),
{
    let name = path_name(path);
    split_name(name.as_str())
}

/// How to open a file: where it is, and what the one who opens it may do.
#[derive(Debug, Clone)]
pub struct Access {
    pub path: String,
    pub read: bool,
    pub write: bool,
    pub append: bool,
}

/// Bytes to write to a file, and how to open the file for it.
#[derive(Debug, Clone)]
pub struct Write {
    pub access: Access,
    pub content: Vec<u8>,
}

impl Document {
    /// The document for the file at `path`, as it is: nothing is looked up
    /// and nothing is made.
    pub(crate) fn new(alias: String, path: String, create_policy: Create) -> (document: Document)
        ensures
            document@ == (DocumentView { alias: alias@, path: path@, create_policy }),
    {
        Document { alias, path, create_policy }
    }

    /// Begins a document for the file called `filename` at `location`, on a
    /// platform that gave these answers. The alias is the file's name as
    /// asked for, whatever name the file gets in the end. An error comes
    /// back where the platform does not have the folder of the location.
    pub fn at(location: &Folder, answers: &Answers, filename: &str, create: Create) -> (r: Result<
        Setup,
        DocumentError,
    >)
        ensures
            begun(r) == begin_at(location.located(location.wanted(*answers), filename@), create),
    {
        match location.resolve(answers, filename) {
            Ok(path) => {
                let alias = path_name(path.as_str());
                Ok(Setup::begin(path.as_str(), alias.as_str(), create, false))
            },
            Err(error) => Err(error),
        }
    }

    /// Begins a document for the file at `path`, under the given alias.
    pub fn from_path(path: &str, alias: &str, create: Create) -> (setup: Setup)
        ensures
            setup@ == begin(path@, alias@, create, false),
    {
        Setup::begin(path, alias, create, false)
    }

    /// The alias that stands for the document in a batch.
    pub fn alias(&self) -> (alias: &str)
        ensures
            alias@ == self@.alias,
    {
        self.alias.as_str()
    }

    /// The policy the document was made under.
    pub fn create_policy(&self) -> (create: Create)
        ensures
            create == self@.create_policy,
    {
        self.create_policy
    }

    /// How to open the document's file in the given mode.
    pub fn open_file(&self, permissions: Mode) -> (access: Access)
        ensures
            access.path@ == self@.path,
            access.read == permissions.readable(),
            access.write == permissions.writable(),
            access.append == permissions.appendable(),
    {
        Access {
            path: self.path.clone(),
            read: permissions.readable(),
            write: permissions.writable(),
            append: permissions.appendable(),
        }
    }

    /// How to open the document's file in the given mode. The document
    /// stays as it is.
    pub fn file(&mut self, permissions: Mode) -> (access: Access)
        ensures
            *final(self) == *old(self),
            access.path@ == old(self)@.path,
            access.read == permissions.readable(),
            access.write == permissions.writable(),
            access.append == permissions.appendable(),
    {
        self.open_file(permissions)
    }

    /// What to write to add `content` at the end of the document's file:
    /// all of `content`, to the file opened for appending.
    pub fn append(&mut self, content: &[u8]) -> (write: Write)
        ensures
            *final(self) == *old(self),
            write.access.path@ == old(self)@.path,
            !write.access.read && write.access.write && write.access.append,
            write.content@ == content@,
    {
        Write { access: self.open_file(Mode::Append), content: bytes_of(content) }
    }

    /// What to write to put `content` at the start of the document's file,
    /// over what is there: all of `content`, to the file opened for
    /// writing.
    pub fn replace_with(&mut self, content: &[u8]) -> (write: Write)
        ensures
            *final(self) == *old(self),
            write.access.path@ == old(self)@.path,
            !write.access.read && write.access.write && !write.access.append,
            write.content@ == content@,
    {
        Write { access: self.open_file(Mode::Replace), content: bytes_of(content) }
    }

    /// The error for a file that could not be opened, or none where it
    /// could.
    pub fn opened(&self, ok: bool) -> (r: Result<(), DocumentError>)
        ensures
            match r {
                Ok(_) => ok,
                Err(e) => !ok && e@ == ErrorView::CouldNotOpenFile(self@.path),
            },
    {
        if ok {
            Ok(())
        } else {
            Err(DocumentError::CouldNotOpenFile(self.path.clone()))
        }
    }

    /// The path to hand to the launcher that opens the document's file
    /// with the application the system has for it.
    pub fn launch_with_default_app(&self) -> (path: String)
        ensures
            path@ == self@.path,
    {
        self.path.clone()
    }

    /// The error for a file that could not be launched, or the document
    /// where it could.
    pub fn launched(&self, ok: bool) -> (r: Result<&Self, DocumentError>)
        ensures
            match r {
                Ok(document) => ok && document == self,
                Err(e) => !ok && e@ == ErrorView::CouldNotLaunchFile(self@.path),
            },
    {
        if ok {
            Ok(self)
        } else {
            Err(DocumentError::CouldNotLaunchFile(self.path.clone()))
        }
    }

    /// The extension of the document's file name, without its dot; the
    /// empty text where the name has none.
    pub fn extension(&self) -> (ext: String)
        ensures
            ext@ == bare_extension_of(name_of(self@.path)),
    {
        let name = path_name(self.path.as_str());
        let v = to_chars(name.as_str());
        let len = v.len();
        proof {
            assert(v@.take(len as int) =~= v@);
        }
        match find_last(&v, len, '.') {
            Some(i) => {
                if 0 < i && i < len - 1 {
                    assert(v@.skip(i + 1) =~= v@.subrange(i + 1, len as int));
                    return from_chars(&v, i + 1, len);
                }
            },
            None => {},
        }
        String::new()
    }
}

/// A path to suggest for a file, or how to find one.
#[derive(Debug, Clone)]
pub enum Suggestion {
    /// The path to suggest; empty where there is none.
    Known(String),
    /// The path has to be looked for on disk: it is the path of the
    /// document that this dry run ends with.
    Search(Setup),
}

/// A `Suggestion` as a mathematical value.
pub enum SuggestionView {
    Known(Seq<char>),
    Search(SetupView),
}

impl View for Suggestion {
    type V = SuggestionView;

    open spec fn view(&self) -> SuggestionView {
        match self {
            Suggestion::Known(path) => SuggestionView::Known(path@),
            Suggestion::Search(setup) => SuggestionView::Search(setup@),
        }
    }
}

/// A document or the reason why there is none, as a mathematical value.
pub open spec fn made(r: Result<Document, DocumentError>) -> Result<DocumentView, ErrorView> {
    match r {
        Ok(document) => Ok(document@),
        Err(e) => Err(e@),
    }
}

/// The result with another alias for its document.
pub open spec fn renamed(r: Result<DocumentView, ErrorView>, alias: Seq<char>) -> Result<
    DocumentView,
    ErrorView,
> {
    match r {
        Ok(document) => Ok(DocumentView { alias, ..document }),
        Err(e) => Err(e),
    }
}

/// The path to suggest for the file of a document that was asked for: for
/// a document that is there, the first free duplicate path, to be looked
/// for in a dry run; for a file that was not found, its own path; for any
/// other error, none.
pub open spec fn suggestion(r: Result<DocumentView, ErrorView>) -> SuggestionView {
    match r {
        Ok(document) => SuggestionView::Search(
            begin(document.path, document.alias, Create::AutoRenameIfExists, true),
        ),
        Err(ErrorView::FileNotFound(path)) => SuggestionView::Known(path),
        Err(_) => SuggestionView::Known(Seq::<char>::empty()),
    }
}

/// What can be done with the result of making a document.
pub trait ResultExt: Sized {
    /// The result with another alias for its document.
    fn alias(self, alias: &str) -> Self;

    /// The path to suggest for the file.
    fn suggest_rename(&self) -> Suggestion;
}

impl ResultExt for Result<Document, DocumentError> {
    fn alias(self, alias: &str) -> (r: Self)
        ensures
            made(r) == renamed(made(self), alias@),
    {
        match self {
            Ok(document) => Ok(
                Document {
                    alias: String::from_str(alias),
                    path: document.path,
                    create_policy: document.create_policy,
                },
            ),
            Err(error) => Err(error),
        }
    }

    fn suggest_rename(&self) -> (s: Suggestion)
        ensures
            s@ == suggestion(made(*self)),
    {
        match self {
            Ok(document) => Suggestion::Search(
                Setup::begin(
                    document.path.as_str(),
                    document.alias.as_str(),
                    Create::AutoRenameIfExists,
                    true,
                ),
            ),
            Err(error) => match error {
                DocumentError::FileNotFound(path) => Suggestion::Known(path.clone()),
                _ => Suggestion::Known(String::new()),
            },
        }
    }
}

/// What has a place in the file system.
pub trait FileSystemEntity {
    /// The path, as text.
    fn path(&self) -> String;

    /// The final piece of the path; empty where the path has none.
    fn name(&self) -> String;
}

impl FileSystemEntity for Document {
    fn path(&self) -> (path: String)
        ensures
            path@ == self@.path,
    {
        self.path.clone()
    }

    fn name(&self) -> (name: String)
        ensures
            name@ == name_of(self@.path),
    {
        path_name(self.path.as_str())
    }
}

/// The path of a folder on a platform that gave these answers: empty where
/// the platform does not have the folder.
pub open spec fn folder_path(folder: &Folder, answers: Answers) -> Seq<char> {
    match folder.located(folder.wanted(answers), Seq::<char>::empty()) {
        Ok(path) => path,
        Err(_) => Seq::<char>::empty(),
    }
}

impl<'a> Folder<'a> {
    /// The path of the folder, as text, on a platform that gave these
    /// answers; empty where the platform does not have the folder.
    pub fn path(&self, answers: &Answers) -> (path: String)
        ensures
            path@ == folder_path(self, *answers),
    {
        let located = self.resolve(answers, "");
        proof {
            reveal_strlit("");
            assert(""@ =~= Seq::<char>::empty());
        }
        match located {
            Ok(path) => path,
            Err(_) => String::new(),
        }
    }

    /// The final piece of the folder's path; empty where the path has none.
    pub fn name(&self, answers: &Answers) -> (name: String)
        ensures
            name@ == name_of(folder_path(self, *answers)),
    {
        let path = self.path(answers);
        path_name(path.as_str())
    }
}

impl FileSystemEntity for String {
    fn path(&self) -> (path: String)
        ensures
            path@ == self@,
    {
        self.clone()
    }

    fn name(&self) -> (name: String)
        ensures
            name@ == name_of(self@),
    {
        path_name(self.as_str())
    }
}

/// A copy of the bytes of `content`.
pub fn bytes_of(content: &[u8]) -> (v: Vec<u8>)
    ensures
        v@ == content@,
{
    let mut v: Vec<u8> = Vec::new();
    let mut i: usize = 0;
    while i < content.len()
        invariant
            i <= content.len(),
            v@ == content@.take(i as int),
        decreases content.len() - i,
    {
        v.push(content[i]);
        i += 1;
    }
    proof {
        assert(content@.take(content.len() as int) =~= content@);
    }
    v
}

} // verus!
