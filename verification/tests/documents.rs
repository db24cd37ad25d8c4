use spidey::document::{Create, Document, FileSystemEntity, ResultExt, Suggestion};
use spidey::error::DocumentError;
use spidey::mode::Mode;
use spidey::setup::Request;

fn document(path: &str, alias: &str) -> Document {
    Document::from_path(path, alias, Create::No).step(true).finish().unwrap().unwrap()
}

#[test]
fn modes() {
    let all = [Mode::Read, Mode::Replace, Mode::Append, Mode::ReadReplace, Mode::ReadAppend];
    let readable = [true, false, false, true, true];
    let writable = [false, true, true, true, true];
    let appendable = [false, false, true, false, true];
    for (i, mode) in all.iter().enumerate() {
        assert_eq!(mode.readable(), readable[i]);
        assert_eq!(mode.writable(), writable[i]);
        assert_eq!(mode.appendable(), appendable[i]);
    }
}

#[test]
fn a_file_is_opened_as_the_mode_says() {
    let mut doc = document("/p/file.txt", "f");
    for mode in [Mode::Read, Mode::Replace, Mode::Append, Mode::ReadReplace, Mode::ReadAppend] {
        let access = doc.file(mode);
        assert_eq!(access.path, "/p/file.txt");
        assert_eq!(access.read, mode.readable());
        assert_eq!(access.write, mode.writable());
        assert_eq!(access.append, mode.appendable());
        let access = doc.open_file(mode);
        assert_eq!(
            (access.path.as_str(), access.read, access.write, access.append),
            ("/p/file.txt", mode.readable(), mode.writable(), mode.appendable())
        );
    }
    assert_eq!(doc.path(), "/p/file.txt");
}

#[test]
fn append_writes_all_bytes_at_the_end() {
    let mut doc = document("/p/log.txt", "log");
    let write = doc.append(b"one more line\n");
    assert_eq!(write.content, b"one more line\n");
    assert_eq!(write.access.path, "/p/log.txt");
    assert!(!write.access.read && write.access.write && write.access.append);
    assert_eq!(doc.append(b"").content, b"");
    assert_eq!(doc.path(), "/p/log.txt");
    assert_eq!(doc.alias(), "log");
}

#[test]
fn replace_with_writes_all_bytes_from_the_start() {
    let mut doc = document("/p/shot.png", "shot");
    let bytes: Vec<u8> = (0..=255).collect();
    let write = doc.replace_with(&bytes);
    assert_eq!(write.content, bytes);
    assert_eq!(write.access.path, "/p/shot.png");
    assert!(!write.access.read && write.access.write && !write.access.append);
}

#[test]
fn a_file_that_cannot_be_opened() {
    let doc = document("/p/file.txt", "f");
    assert!(doc.opened(true).is_ok());
    match doc.opened(false) {
        Err(DocumentError::CouldNotOpenFile(path)) => assert_eq!(path, "/p/file.txt"),
        other => panic!("{:?}", other),
    }
}

#[test]
fn a_file_that_cannot_be_launched() {
    let doc = document("/p/file.pdf", "f");
    assert_eq!(doc.launch_with_default_app(), "/p/file.pdf");
    assert_eq!(doc.launched(true).unwrap().path(), "/p/file.pdf");
    match doc.launched(false) {
        Err(DocumentError::CouldNotLaunchFile(path)) => assert_eq!(path, "/p/file.pdf"),
        other => panic!("{:?}", other),
    }
}

#[test]
fn extension_is_what_follows_the_last_dot() {
    assert_eq!(document("/p/Screenshot.png", "s").extension(), "png");
    assert_eq!(document("/p/archive.tar.gz", "a").extension(), "gz");
    assert_eq!(document("/p/README", "r").extension(), "");
    assert_eq!(document("/p/.bashrc", "b").extension(), "");
    assert_eq!(document("/p/notes.", "n").extension(), "");
    assert_eq!(document("/p.d/file", "f").extension(), "");
    assert_eq!(document("/", "root").extension(), "");
    for path in ["a.b", "a", ".a", "a.", "x/y.z.w", "..", "a..b"] {
        let expected = std::path::Path::new(path)
            .extension()
            .map(|e| e.to_str().unwrap())
            .unwrap_or("");
        assert_eq!(document(path, "x").extension(), expected, "{:?}", path);
    }
}

#[test]
fn name_and_path() {
    let doc = document("/home/alice/Pictures/Screenshot(1).png", "Screenshot.png");
    assert_eq!(doc.path(), "/home/alice/Pictures/Screenshot(1).png");
    assert_eq!(doc.name(), "Screenshot(1).png");
    assert_eq!(doc.alias(), "Screenshot.png");
    assert_eq!(document("/", "root").name(), "");
}

#[test]
fn a_copy_is_the_same_document() {
    let doc = document("/p/file.txt", "f");
    let copy = doc.clone();
    assert_eq!(copy.path(), doc.path());
    assert_eq!(copy.alias(), doc.alias());
    assert_eq!(copy.create_policy(), doc.create_policy());
}

#[test]
fn alias_renames_a_document_that_is_there() {
    let renamed = Ok(document("/p/file.txt", "f")).alias("cookies");
    let doc = renamed.unwrap();
    assert_eq!(doc.alias(), "cookies");
    assert_eq!(doc.path(), "/p/file.txt");
    assert_eq!(doc.create_policy(), Create::No);
    let failed: Result<Document, DocumentError> = Err(DocumentError::PicturesDirNotFound);
    assert!(matches!(failed.alias("x"), Err(DocumentError::PicturesDirNotFound)));
}

#[test]
fn suggest_rename_for_a_file_that_is_there() {
    let made = Ok(document("/d/file.zip", "file.zip"));
    match made.suggest_rename() {
        Suggestion::Search(setup) => {
            assert!(matches!(setup.request(), Request::Exists(path) if path == "/d/file.zip"));
            let setup = setup.step(true);
            assert!(matches!(setup.request(), Request::Exists(path) if path == "/d/file(1).zip"));
            let setup = setup.step(false);
            assert!(setup.is_over());
            assert_eq!(setup.finish().unwrap().unwrap().path(), "/d/file(1).zip");
        }
        other => panic!("{:?}", other),
    }
}

#[test]
fn suggest_rename_for_a_file_that_is_not_there() {
    let missing: Result<Document, DocumentError> =
        Err(DocumentError::FileNotFound("/d/file.zip".to_string()));
    assert!(matches!(missing.suggest_rename(), Suggestion::Known(path) if path == "/d/file.zip"));
    let failed: Result<Document, DocumentError> = Err(DocumentError::DownloadsDirNotFound);
    assert!(matches!(failed.suggest_rename(), Suggestion::Known(path) if path.is_empty()));
    let failed: Result<Document, DocumentError> =
        Err(DocumentError::CouldNotCreateFile("/d/file.zip".to_string()));
    assert!(matches!(failed.suggest_rename(), Suggestion::Known(path) if path.is_empty()));
}

#[test]
fn messages() {
    let path = || "/p/f".to_string();
    assert_eq!(DocumentError::UserDirsNotFound.message(), "User directories not found");
    assert_eq!(DocumentError::PicturesDirNotFound.message(), "Pictures directory not found");
    assert_eq!(DocumentError::VideosDirNotFound.message(), "Videos directory not found");
    assert_eq!(DocumentError::DownloadsDirNotFound.message(), "Downloads directory not found");
    assert_eq!(DocumentError::DocumentsDirNotFound.message(), "Documents directory not found");
    assert_eq!(DocumentError::ProjectDirsNotFound.message(), "Project directories not found");
    assert_eq!(DocumentError::FileNotFound(path()).message(), "File not found: /p/f");
    assert_eq!(DocumentError::CouldNotCreateFile(path()).message(), "Could not create file: /p/f");
    assert_eq!(
        DocumentError::CouldNotCreateParentFolder(path()).message(),
        "Could not create parent folder: /p/f"
    );
    assert_eq!(
        DocumentError::CouldNotLaunchFile(path()).message(),
        "Could not launch file with default app: /p/f"
    );
    assert_eq!(DocumentError::CouldNotOpenFile(path()).message(), "Could not open file: /p/f");
    assert_eq!(DocumentError::FileNotWritable(path()).message(), "File not writable: /p/f");
    assert_eq!(DocumentError::FileNotOpen(path()).message(), "File not open: /p/f");
}

#[test]
fn a_copy_of_an_error_is_the_same_error() {
    let error = DocumentError::FileNotFound("/p/f".to_string());
    assert_eq!(error.clone().message(), error.message());
    assert!(matches!(DocumentError::VideosDirNotFound.clone(), DocumentError::VideosDirNotFound));
}
