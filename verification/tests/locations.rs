use spidey::document::{Create, Document, FileSystemEntity};
use spidey::error::DocumentError;
use spidey::location::{Answers, Folder, Lookup, Project, ProjectFolders, User, UserFolders};
use spidey::setup::Request;

fn found(base: &str) -> Lookup {
    Lookup::Found(base.to_string())
}

#[test]
fn a_file_in_a_user_folder() {
    let pictures = Folder::User(User::Pictures(&["Screenshots"]));
    assert_eq!(
        pictures.locate(&found("/home/alice/Pictures"), "Screenshot.png").unwrap(),
        "/home/alice/Pictures/Screenshots/Screenshot.png"
    );
    let downloads = Folder::User(User::Downloads(&[]));
    assert_eq!(
        downloads.locate(&found("/home/alice/Downloads"), "file.zip").unwrap(),
        "/home/alice/Downloads/file.zip"
    );
    let home = Folder::User(User::Home(&["a", "b", "c"]));
    assert_eq!(home.locate(&found("/home/alice"), "d").unwrap(), "/home/alice/a/b/c/d");
    let videos = Folder::User(User::Videos(&["x"]));
    assert_eq!(videos.locate(&found("/v/"), "y.mkv").unwrap(), "/v/x/y.mkv");
    let documents = Folder::User(User::Documents(&[]));
    assert_eq!(documents.locate(&found("/d"), "").unwrap(), "/d/");
}

#[test]
fn a_file_in_a_project_folder() {
    let data = Folder::Project(Project::Data(&[]).with_id("com", "example", "App"));
    assert_eq!(
        data.locate(&found("/home/alice/.local/share/app"), "state.json").unwrap(),
        "/home/alice/.local/share/app/state.json"
    );
    let config = Folder::Project(Project::Config(&["profiles", "default"]).with_id("com", "example", "App"));
    assert_eq!(
        config.locate(&found("/home/alice/.config/app"), "settings.toml").unwrap(),
        "/home/alice/.config/app/profiles/default/settings.toml"
    );
}

#[test]
fn with_id_keeps_what_it_is_given() {
    let (project, qualifier, organization, application) =
        Project::Config(&["a"]).with_id("com", "example", "App");
    assert!(matches!(project, Project::Config(subdirs) if subdirs == ["a"]));
    assert_eq!((qualifier, organization, application), ("com", "example", "App"));
}

#[test]
fn a_platform_without_folders() {
    for user in [
        User::Documents(&[]),
        User::Pictures(&[]),
        User::Videos(&[]),
        User::Downloads(&[]),
        User::Home(&[]),
    ] {
        let error = Folder::User(user).locate(&Lookup::Unavailable, "f").unwrap_err();
        assert!(matches!(error, DocumentError::UserDirsNotFound));
    }
    for project in [Project::Config(&[]), Project::Data(&[])] {
        let folder = Folder::Project(project.with_id("com", "example", "App"));
        let error = folder.locate(&Lookup::Unavailable, "f").unwrap_err();
        assert!(matches!(error, DocumentError::ProjectDirsNotFound));
    }
}

#[test]
fn a_folder_that_the_platform_does_not_know() {
    let missing = |folder: Folder| folder.locate(&Lookup::Missing, "f").unwrap_err();
    assert!(matches!(
        missing(Folder::User(User::Documents(&[]))),
        DocumentError::DocumentsDirNotFound
    ));
    assert!(matches!(
        missing(Folder::User(User::Pictures(&[]))),
        DocumentError::PicturesDirNotFound
    ));
    assert!(matches!(missing(Folder::User(User::Videos(&[]))), DocumentError::VideosDirNotFound));
    assert!(matches!(
        missing(Folder::User(User::Downloads(&[]))),
        DocumentError::DownloadsDirNotFound
    ));
    assert!(matches!(missing(Folder::User(User::Home(&[]))), DocumentError::UserDirsNotFound));
    assert!(matches!(
        missing(Folder::Project(Project::Data(&[]).with_id("a", "b", "c"))),
        DocumentError::ProjectDirsNotFound
    ));
    assert!(matches!(
        missing(Folder::Project(Project::Config(&[]).with_id("a", "b", "c"))),
        DocumentError::ProjectDirsNotFound
    ));
}

#[test]
fn the_answers_of_the_platform_are_read() {
    assert!(matches!(Lookup::of(false, None), Lookup::Unavailable));
    assert!(matches!(Lookup::of(false, Some("/home/alice".to_string())), Lookup::Unavailable));
    assert!(matches!(Lookup::of(true, None), Lookup::Missing));
    assert!(matches!(
        Lookup::of(true, Some("/home/alice/Pictures".to_string())),
        Lookup::Found(base) if base == "/home/alice/Pictures"
    ));
    assert!(matches!(Lookup::of(true, Some(String::new())), Lookup::Found(base) if base.is_empty()));
}

fn some(path: &str) -> Option<String> {
    Some(path.to_string())
}

fn alice() -> Answers {
    Answers {
        user: Some(UserFolders {
            home: some("/h"),
            documents: some("/h/Documents"),
            downloads: some("/h/Downloads"),
            pictures: some("/h/Pictures"),
            videos: some("/h/Videos"),
        }),
        project: Some(ProjectFolders { config: some("/h/.config/app"), data: some("/h/.local/share/app") }),
        asked: None,
    }
}

#[test]
fn documents_are_in_the_documents_folder() {
    let place = Folder::User(User::Documents(&["a", "b"]));
    assert_eq!(place.resolve(&alice(), "f.txt").unwrap(), "/h/Documents/a/b/f.txt");
}

#[test]
fn each_place_of_the_user_has_its_own_folder() {
    let answers = alice();
    let path = |user: User| Folder::User(user).resolve(&answers, "f").unwrap();
    assert_eq!(path(User::Home(&[])), "/h/f");
    assert_eq!(path(User::Documents(&[])), "/h/Documents/f");
    assert_eq!(path(User::Downloads(&[])), "/h/Downloads/f");
    assert_eq!(path(User::Pictures(&[])), "/h/Pictures/f");
    assert_eq!(path(User::Videos(&[])), "/h/Videos/f");
    assert!(matches!(
        Folder::User(User::Pictures(&[])).pick(&answers),
        Lookup::Found(base) if base == "/h/Pictures"
    ));
}

#[test]
fn each_place_of_an_application_has_its_own_folder() {
    let answers = alice();
    let config = Folder::Project(Project::Config(&["x"]).with_id("com", "example", "App"));
    let data = Folder::Project(Project::Data(&["x"]).with_id("com", "example", "App"));
    assert_eq!(config.resolve(&answers, "f").unwrap(), "/h/.config/app/x/f");
    assert_eq!(data.resolve(&answers, "f").unwrap(), "/h/.local/share/app/x/f");
}

#[test]
fn a_platform_that_knows_no_folders_of_the_kind() {
    let only_project = Answers { user: None, ..alice() };
    let only_user = Answers { project: None, ..alice() };
    let pictures = Folder::User(User::Pictures(&[]));
    let data = Folder::Project(Project::Data(&[]).with_id("com", "example", "App"));
    assert!(matches!(pictures.pick(&only_project), Lookup::Unavailable));
    assert!(matches!(
        pictures.resolve(&only_project, "f"),
        Err(DocumentError::UserDirsNotFound)
    ));
    assert!(matches!(data.pick(&only_user), Lookup::Unavailable));
    assert!(matches!(data.resolve(&only_user, "f"), Err(DocumentError::ProjectDirsNotFound)));
    assert_eq!(pictures.resolve(&only_user, "f").unwrap(), "/h/Pictures/f");
    assert_eq!(data.resolve(&only_project, "f").unwrap(), "/h/.local/share/app/f");
}

#[test]
fn a_platform_that_lacks_one_folder() {
    let mut answers = alice();
    answers.user.as_mut().unwrap().videos = None;
    answers.user.as_mut().unwrap().home = None;
    answers.project.as_mut().unwrap().config = None;
    assert!(matches!(Folder::User(User::Videos(&[])).pick(&answers), Lookup::Missing));
    assert!(matches!(
        Folder::User(User::Videos(&[])).resolve(&answers, "f"),
        Err(DocumentError::VideosDirNotFound)
    ));
    assert!(matches!(
        Folder::User(User::Home(&[])).resolve(&answers, "f"),
        Err(DocumentError::UserDirsNotFound)
    ));
    assert!(matches!(
        Folder::Project(Project::Config(&[]).with_id("a", "b", "c")).resolve(&answers, "f"),
        Err(DocumentError::ProjectDirsNotFound)
    ));
    assert_eq!(Folder::User(User::Pictures(&[])).resolve(&answers, "f").unwrap(), "/h/Pictures/f");
    assert_eq!(
        Folder::Project(Project::Data(&[]).with_id("a", "b", "c")).resolve(&answers, "f").unwrap(),
        "/h/.local/share/app/f"
    );
}

#[test]
fn ask_hands_on_the_folders_of_the_user() {
    let place = Folder::User(User::Downloads(&[]));
    assert!(place.is_user());
    let answers = place.ask(alice().user);
    assert!(answers.project.is_none());
    assert_eq!(answers.user.as_ref().unwrap().downloads, some("/h/Downloads"));
    assert_eq!(place.resolve(&answers, "file.zip").unwrap(), "/h/Downloads/file.zip");
    assert!(answers.asked.is_none());
    assert_eq!(place.identity(), None);
    let answers = place.ask(None);
    assert!(answers.user.is_none() && answers.project.is_none() && answers.asked.is_none());
    assert!(matches!(place.resolve(&answers, "f"), Err(DocumentError::UserDirsNotFound)));
}

#[test]
fn ask_asks_for_the_folders_of_the_application() {
    let data = Folder::Project(Project::Data(&["sub"]).with_id("com", "example", "App"));
    let config = Folder::Project(Project::Config(&["sub"]).with_id("com", "example", "App"));
    assert!(!data.is_user());
    assert_eq!(data.identity(), Some(("com", "example", "App")));
    let answers = data.ask(None);
    assert!(answers.user.is_none());
    let asked = answers.asked.as_ref().unwrap();
    assert_eq!(asked.qualifier, "com");
    assert_eq!(asked.organization, "example");
    assert_eq!(asked.application, "App");
    match &answers.project {
        Some(folders) => {
            let expected = directories::ProjectDirs::from("com", "example", "App").unwrap();
            assert_eq!(folders.data.as_deref(), expected.data_dir().to_str());
            assert_eq!(folders.config.as_deref(), expected.config_dir().to_str());
            let path = data.resolve(&answers, "state.json").unwrap();
            assert_eq!(path, format!("{}/sub/state.json", expected.data_dir().to_str().unwrap()));
            let path = config.resolve(&answers, "state.json").unwrap();
            assert_eq!(path, format!("{}/sub/state.json", expected.config_dir().to_str().unwrap()));
        }
        None => {
            assert!(directories::ProjectDirs::from("com", "example", "App").is_none());
            assert!(matches!(
                data.resolve(&answers, "state.json"),
                Err(DocumentError::ProjectDirsNotFound)
            ));
        }
    }
}

#[test]
fn the_identity_of_a_place() {
    let config = Folder::Project(Project::Config(&[]).with_id("org", "Foo Corp", "Bar App"));
    assert_eq!(config.identity(), Some(("org", "Foo Corp", "Bar App")));
    let asked = config.ask(None).asked.unwrap();
    assert_eq!(
        (asked.qualifier.as_str(), asked.organization.as_str(), asked.application.as_str()),
        ("org", "Foo Corp", "Bar App")
    );
    assert_eq!(Folder::User(User::Videos(&[])).identity(), None);
}

#[test]
fn the_folders_of_an_application_go_by_its_name() {
    let one = Folder::Project(Project::Data(&[]).with_id("com", "example", "One App"));
    let other = Folder::Project(Project::Data(&[]).with_id("One App", "com", "example"));
    let (first, second) = (one.ask(None), other.ask(None));
    if let (Some(first), Some(second)) = (first.project, second.project) {
        assert_ne!(first.data, second.data);
        let expected = directories::ProjectDirs::from("com", "example", "One App").unwrap();
        assert_eq!(first.data.as_deref(), expected.data_dir().to_str());
    }
}

#[test]
fn the_path_and_name_of_a_folder() {
    let answers = alice();
    let folder = Folder::Project(Project::Data(&["UserContentFilterStore"]).with_id("com", "example", "App"));
    assert_eq!(folder.path(&answers), "/h/.local/share/app/UserContentFilterStore/");
    assert_eq!(folder.name(&answers), "UserContentFilterStore");
    let nowhere = Answers { user: None, project: None, asked: None };
    assert_eq!(folder.path(&nowhere), "");
    assert_eq!(folder.name(&nowhere), "");
    assert_eq!(Folder::User(User::Home(&[])).path(&answers), "/h/");
    assert_eq!(Folder::User(User::Home(&[])).name(&answers), "h");
}

#[test]
fn at_begins_with_the_resolved_path() {
    let answers = alice();
    let folder = Folder::Project(Project::Data(&[]).with_id("com", "example", "App"));
    let setup = Document::at(&folder, &answers, "state.json", Create::No).unwrap();
    assert!(matches!(
        setup.request(),
        Request::Exists(asked) if asked == "/h/.local/share/app/state.json"
    ));
    let document = setup.step(true).finish().unwrap().unwrap();
    assert_eq!(document.path(), "/h/.local/share/app/state.json");
    assert_eq!(document.alias(), "state.json");
    assert_eq!(document.create_policy(), Create::No);
    let pictures = Folder::User(User::Pictures(&["Screenshots"]));
    let setup = Document::at(&pictures, &answers, "Screenshot.png", Create::AutoRenameIfExists).unwrap();
    assert!(matches!(
        setup.request(),
        Request::CreateFolders(asked) if asked == "/h/Pictures/Screenshots"
    ));
    let nowhere = Answers { user: None, project: None, asked: None };
    assert!(matches!(
        Document::at(&pictures, &nowhere, "Screenshot.png", Create::No),
        Err(DocumentError::UserDirsNotFound)
    ));
    assert!(matches!(
        Document::at(&folder, &nowhere, "state.json", Create::No),
        Err(DocumentError::ProjectDirsNotFound)
    ));
}

#[test]
fn the_path_and_name_of_a_path() {
    let path = "/home/alice/Pictures/Screenshot.png".to_string();
    assert_eq!(FileSystemEntity::path(&path), "/home/alice/Pictures/Screenshot.png");
    assert_eq!(FileSystemEntity::name(&path), "Screenshot.png");
    assert_eq!(FileSystemEntity::name(&"/".to_string()), "");
}
