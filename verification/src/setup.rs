//! Making a document's file, one step at a time.
//!
//! The library never touches the disk. It says what has to be done next (a
//! `Request`), the caller does it and reports whether it went well or what
//! it found, and the library decides how to go on. A `Setup` is a document
//! in the making: it ends with the document, or with the error that stopped
//! it.

use crate::document::{made, name_of, parse_filepath, Create, Document, DocumentView};
use crate::error::{DocumentError, ErrorView};
use crate::decimal::{decimal, digit_value, lemma_decimal_value};
use crate::name::{
    assemble, base_of, duplicate_name, extension_of, join_name, law_duplicate_name_parts,
    law_reassemble, lemma_assembled_differ, marker, number_of, text_of,
};
use crate::path::{
    file_name_of, is_plain_name, join, joined, law_file_name_is_plain, law_file_name_of_joined,
    parent, parent_of,
};
use vstd::prelude::*;
use vstd::string::StringExecFns;

verus! {

/// What stopped a setup.
#[derive(Debug, Clone, Copy, PartialEq, Eq, Structural)]
pub enum Fault {
    /// The folder that is to hold the file could not be made.
    ParentFolder,
    /// The file could not be made, or no duplicate name is left for it.
    NewFile,
    /// The file is not there.
    NotFound,
}

/// How far a setup has come, by what it waits for.
#[derive(Debug, Clone, Copy, PartialEq, Eq, Structural)]
pub enum Stage {
    /// Whether the folder that is to hold the file could be made.
    Folders,
    /// Whether anything is at the path.
    Probe,
    /// Whether the file could be made.
    Create,
    /// Whether the file is there in the end.
    Confirm,
    /// Nothing: the document is ready.
    Ready,
    /// Nothing: the setup has failed.
    Failed(Fault),
}

/// What the caller is to do next.
#[derive(Debug, Clone)]
pub enum Request {
    /// Make the folder at this path, and every folder above it that is
    /// missing; report whether they are all there now.
    CreateFolders(String),
    /// Report whether anything is at this path.
    Exists(String),
    /// Make an empty file at this path, and fail if anything is there
    /// already; report whether the file was made.
    CreateNew(String),
    /// Nothing: the setup is over.
    Nothing,
}

/// A `Request` as a mathematical value.
pub enum RequestView {
    CreateFolders(Seq<char>),
    Exists(Seq<char>),
    CreateNew(Seq<char>),
    Nothing,
}

impl View for Request {
    type V = RequestView;

    open spec fn view(&self) -> RequestView {
        match self {
            Request::CreateFolders(p) => RequestView::CreateFolders(p@),
            Request::Exists(p) => RequestView::Exists(p@),
            Request::CreateNew(p) => RequestView::CreateNew(p@),
            Request::Nothing => RequestView::Nothing,
        }
    }
}

/// A document in the making.
#[derive(Debug, Clone)]
pub struct Setup {
    alias: String,
    create: Create,
    dry_run: bool,
    path: String,
    parent: Option<String>,
    base: String,
    extension: Option<String>,
    number: u64,
    stage: Stage,
}

/// A `Setup` as a mathematical value.
pub struct SetupView {
    /// The alias of the document to be.
    pub alias: Seq<char>,
    /// The policy the file is made under.
    pub create: Create,
    /// Whether nothing is to be changed on disk.
    pub dry_run: bool,
    /// The path that the file is to have, as far as is known.
    pub path: Seq<char>,
    /// The folder that holds the file, if the path names one.
    pub parent: Option<Seq<char>>,
    /// The base of the file's name.
    pub base: Seq<char>,
    /// The extension of the file's name.
    pub extension: Option<Seq<char>>,
    /// The duplicate number of `path`, or 0 where it has none.
    pub number: u64,
    /// What the setup waits for.
    pub stage: Stage,
}

impl View for Setup {
    type V = SetupView;

    closed spec fn view(&self) -> SetupView {
        SetupView {
            alias: self.alias@,
            create: self.create,
            dry_run: self.dry_run,
            path: self.path@,
            parent: text_of(self.parent),
            base: self.base@,
            extension: text_of(self.extension),
            number: self.number,
            stage: self.stage,
        }
    }
}

/// The stage a setup begins in. Without a dry run, `No` only confirms that
/// the file is there, and the other policies first see to the folder, if
/// the path names one. In a dry run nothing is made: only
/// `AutoRenameIfExists` looks at the disk, to find a free name.
pub open spec fn first_stage(create: Create, dry_run: bool, has_parent: bool) -> Stage {
    match create {
        Create::No => if dry_run {
            Stage::Ready
        } else {
            Stage::Confirm
        },
        Create::OnlyIfNotExists => if dry_run {
            Stage::Ready
        } else if has_parent {
            Stage::Folders
        } else {
            Stage::Probe
        },
        Create::AutoRenameIfExists => if dry_run || !has_parent {
            Stage::Probe
        } else {
            Stage::Folders
        },
    }
}

/// The setup that makes the file at `path` under the policy `create`.
pub open spec fn begin(path: Seq<char>, alias: Seq<char>, create: Create, dry_run: bool) -> SetupView {
    let name = name_of(path);
    SetupView {
        alias,
        create,
        dry_run,
        path,
        parent: parent_of(path),
        base: base_of(name),
        extension: extension_of(name),
        number: match number_of(name) {
            Some(n) => n,
            None => 0,
        },
        stage: first_stage(create, dry_run, parent_of(path) is Some),
    }
}

impl SetupView {
    /// The folder that holds the file, or the empty path where the file's
    /// path names none.
    pub open spec fn folder(self) -> Seq<char> {
        match self.parent {
            Some(dir) => dir,
            None => Seq::<char>::empty(),
        }
    }

    /// The path of the duplicate with number `n`: in the same folder, under
    /// the name `base(n).ext`.
    pub open spec fn duplicate_path(self, n: u64) -> Seq<char> {
        joined(self.folder(), assemble(self.base, Some(n), self.extension))
    }

    /// What the caller is to do next.
    pub open spec fn request(self) -> RequestView {
        match self.stage {
            Stage::Folders => RequestView::CreateFolders(self.folder()),
            Stage::Probe => RequestView::Exists(self.path),
            Stage::Create => RequestView::CreateNew(self.path),
            Stage::Confirm => RequestView::Exists(self.path),
            Stage::Ready => RequestView::Nothing,
            Stage::Failed(_) => RequestView::Nothing,
        }
    }

    /// The setup after the caller has answered the request: `answer` says
    /// that the folders or the file were made, or that something is at the
    /// path.
    ///
    /// Under `AutoRenameIfExists` a path that is taken gives way to the
    /// duplicate with the next number; the first free path is made, or in a
    /// dry run only named. Under `OnlyIfNotExists` a file that is there is
    /// left alone and one that is missing is made. Whatever was made is
    /// confirmed to be there before the document is ready.
    pub open spec fn next(self, answer: bool) -> SetupView {
        match self.stage {
            Stage::Folders => if answer {
                SetupView { stage: Stage::Probe, ..self }
            } else {
                SetupView { stage: Stage::Failed(Fault::ParentFolder), ..self }
            },
            Stage::Probe => if !answer {
                if self.dry_run {
                    SetupView { stage: Stage::Ready, ..self }
                } else {
                    SetupView { stage: Stage::Create, ..self }
                }
            } else if self.create is AutoRenameIfExists {
                if self.number < u64::MAX {
                    let n = (self.number + 1) as u64;
                    SetupView { number: n, path: self.duplicate_path(n), ..self }
                } else {
                    SetupView { stage: Stage::Failed(Fault::NewFile), ..self }
                }
            } else {
                SetupView { stage: Stage::Confirm, ..self }
            },
            Stage::Create => if answer {
                SetupView { stage: Stage::Confirm, ..self }
            } else {
                SetupView { stage: Stage::Failed(Fault::NewFile), ..self }
            },
            Stage::Confirm => if answer {
                SetupView { stage: Stage::Ready, ..self }
            } else {
                SetupView { stage: Stage::Failed(Fault::NotFound), ..self }
            },
            Stage::Ready => self,
            Stage::Failed(_) => self,
        }
    }

    /// Whether the setup is over.
    pub open spec fn is_over(self) -> bool {
        self.stage is Ready || self.stage is Failed
    }

    /// The document that the setup ends with, or the error that stopped it;
    /// `None` while the setup is not over. The error carries the path that
    /// was at fault.
    pub open spec fn outcome(self) -> Option<Result<DocumentView, ErrorView>> {
        match self.stage {
            Stage::Ready => Some(
                Ok(DocumentView { alias: self.alias, path: self.path, create_policy: self.create }),
            ),
            Stage::Failed(Fault::ParentFolder) => Some(
                Err(ErrorView::CouldNotCreateParentFolder(self.folder())),
            ),
            Stage::Failed(Fault::NewFile) => Some(Err(ErrorView::CouldNotCreateFile(self.path))),
            Stage::Failed(Fault::NotFound) => Some(Err(ErrorView::FileNotFound(self.path))),
            _ => None,
        }
    }
}

/// The name of a duplicate is a plain name, if the name it is a duplicate
/// of is plain or empty.
proof fn lemma_duplicate_name_is_plain(name: Seq<char>, n: u64)
    requires
        is_plain_name(name) || name.len() == 0,
    ensures
        is_plain_name(duplicate_name(name, n)),
{
    let base = base_of(name);
    let digits = decimal(n as nat);
    let tail = match extension_of(name) {
        Some(e) => e,
        None => Seq::<char>::empty(),
    };
    let dup = duplicate_name(name, n);
    law_reassemble(name);
    lemma_decimal_value(n as nat);
    assert(dup =~= base + seq!['('] + digits + seq![')'] + tail);
    assert(dup[base.len() as int] == '(');
    assert forall|i: int| 0 <= i < dup.len() implies dup[i] != '/' by {
        if i < base.len() {
            assert(dup[i] == name[i]);
        } else if i == base.len() {
        } else if i <= base.len() + digits.len() {
            assert(dup[i] == digits[i - base.len() - 1]);
            assert(digit_value(digits[i - base.len() - 1]) is Some);
        } else if i == base.len() + digits.len() + 1 {
        } else {
            let k = i - (dup.len() - tail.len());
            assert(dup[i] == tail[k]);
            assert(tail[k] == name[name.len() - tail.len() + k]);
        }
    }
    if dup == seq!['.'] || dup == seq!['.', '.'] {
        assert(dup[base.len() as int] == '.');
    }
}

/// Renaming counts on: a setup for the path of a duplicate has the base and
/// the extension of the setup that named the duplicate, and the
/// duplicate's number. So a file that was renamed to `base(1).ext`, asked
/// for again, gives way to `base(2).ext`, not to `base(1)(1).ext`. This
/// holds of every path but those whose final piece has two or more
/// characters and ends in a dot.
pub proof fn law_renaming_counts_on(
    path: Seq<char>,
    alias: Seq<char>,
    create: Create,
    dry_run: bool,
    n: u64,
)
    requires
        !(name_of(path).len() >= 2 && name_of(path).last() == '.'),
    ensures
        ({
            let start = begin(path, alias, create, dry_run);
            let again = begin(start.duplicate_path(n), alias, create, dry_run);
            &&& again.base == start.base
            &&& again.number == n
            &&& again.extension == start.extension
        }),
{
    let start = begin(path, alias, create, dry_run);
    let name = name_of(path);
    if file_name_of(path) is Some {
        law_file_name_is_plain(path);
    }
    lemma_duplicate_name_is_plain(name, n);
    law_file_name_of_joined(start.folder(), duplicate_name(name, n));
    law_duplicate_name_parts(name, n);
}

/// The path of a duplicate with a number above the name's own is not the
/// path that the setup began with.
pub proof fn lemma_duplicate_path_is_new(
    path: Seq<char>,
    alias: Seq<char>,
    create: Create,
    dry_run: bool,
    m: u64,
)
    requires
        m > begin(path, alias, create, dry_run).number,
    ensures
        begin(path, alias, create, dry_run).duplicate_path(m) != path,
{
    let start = begin(path, alias, create, dry_run);
    let name = name_of(path);
    if file_name_of(path) is Some {
        law_file_name_is_plain(path);
    }
    lemma_duplicate_name_is_plain(name, m);
    law_file_name_of_joined(start.folder(), duplicate_name(name, m));
    law_reassemble(name);
    match number_of(name) {
        Some(k) => {
            lemma_assembled_differ(base_of(name), extension_of(name), k, m);
        },
        None => {
            let tail = match extension_of(name) {
                Some(e) => e,
                None => Seq::<char>::empty(),
            };
            assert(name.len() == base_of(name).len() + tail.len());
            assert(duplicate_name(name, m).len() == base_of(name).len() + marker(m).len()
                + tail.len());
        },
    }
}

impl Setup {
    /// The setup that makes the file at `path` under the policy `create`,
    /// for a document with the given alias. In a dry run nothing is to be
    /// changed on disk.
    pub fn begin(path: &str, alias: &str, create: Create, dry_run: bool) -> (setup: Setup)
        ensures
            setup@ == begin(path@, alias@, create, dry_run),
    {
        let (base, number, extension) = parse_filepath(path);
        let parent = parent(path);
        let has_parent = parent.is_some();
        let stage = match create {
            Create::No => if dry_run {
                Stage::Ready
            } else {
                Stage::Confirm
            },
            Create::OnlyIfNotExists => if dry_run {
                Stage::Ready
            } else if has_parent {
                Stage::Folders
            } else {
                Stage::Probe
            },
            Create::AutoRenameIfExists => if dry_run || !has_parent {
                Stage::Probe
            } else {
                Stage::Folders
            },
        };
        Setup {
            alias: String::from_str(alias),
            create,
            dry_run,
            path: String::from_str(path),
            parent,
            base,
            extension,
            number: match number {
                Some(n) => n,
                None => 0,
            },
            stage,
        }
    }

    /// What the caller is to do next.
    pub fn request(&self) -> (request: Request)
        ensures
            request@ == self@.request(),
    {
        match self.stage {
            Stage::Folders => match &self.parent {
                Some(dir) => Request::CreateFolders(dir.clone()),
                None => Request::CreateFolders(String::new()),
            },
            Stage::Probe => Request::Exists(self.path.clone()),
            Stage::Create => Request::CreateNew(self.path.clone()),
            Stage::Confirm => Request::Exists(self.path.clone()),
            Stage::Ready => Request::Nothing,
            Stage::Failed(_) => Request::Nothing,
        }
    }

    /// The setup after the caller has answered the request.
    pub fn step(self, answer: bool) -> (after: Setup)
        ensures
            after@ == self@.next(answer),
    {
        let mut setup = self;
        match setup.stage {
            Stage::Folders => {
                setup.stage = if answer {
                    Stage::Probe
                } else {
                    Stage::Failed(Fault::ParentFolder)
                };
            },
            Stage::Probe => {
                if !answer {
                    setup.stage = if setup.dry_run {
                        Stage::Ready
                    } else {
                        Stage::Create
                    };
                } else {
                    match setup.create {
                        Create::AutoRenameIfExists => {
                            if setup.number < u64::MAX {
                                setup.number = setup.number + 1;
                                let name = join_name(
                                    setup.base.as_str(),
                                    Some(setup.number),
                                    &setup.extension,
                                );
                                setup.path = match &setup.parent {
                                    Some(dir) => join(dir.as_str(), name.as_str()),
                                    None => join("", name.as_str()),
                                };
                                proof {
                                    reveal_strlit("");
                                    assert(""@ =~= Seq::<char>::empty());
                                }
                            } else {
                                setup.stage = Stage::Failed(Fault::NewFile);
                            }
                        },
                        _ => {
                            setup.stage = Stage::Confirm;
                        },
                    }
                }
            },
            Stage::Create => {
                setup.stage = if answer {
                    Stage::Confirm
                } else {
                    Stage::Failed(Fault::NewFile)
                };
            },
            Stage::Confirm => {
                setup.stage = if answer {
                    Stage::Ready
                } else {
                    Stage::Failed(Fault::NotFound)
                };
            },
            Stage::Ready => {},
            Stage::Failed(_) => {},
        }
        setup
    }

    /// Whether the setup is over.
    pub fn is_over(&self) -> (over: bool)
        ensures
            over == self@.is_over(),
    {
        match self.stage {
            Stage::Ready => true,
            Stage::Failed(_) => true,
            _ => false,
        }
    }

    /// The document that the setup ends with, or the error that stopped it;
    /// `None` while the setup is not over.
    pub fn finish(self) -> (r: Option<Result<Document, DocumentError>>)
        ensures
            match r {
                Some(outcome) => self@.outcome() == Some(made(outcome)),
                None => self@.outcome() is None,
            },
    {
        match self.stage {
            Stage::Ready => Some(Ok(Document::new(self.alias, self.path, self.create))),
            Stage::Failed(fault) => match fault {
                Fault::ParentFolder => match self.parent {
                    Some(dir) => Some(Err(DocumentError::CouldNotCreateParentFolder(dir))),
                    None => Some(Err(DocumentError::CouldNotCreateParentFolder(String::new()))),
                },
                Fault::NewFile => Some(Err(DocumentError::CouldNotCreateFile(self.path))),
                Fault::NotFound => Some(Err(DocumentError::FileNotFound(self.path))),
            },
            _ => None,
        }
    }
}

} // verus!
