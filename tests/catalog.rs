use aoska::packages::{select_category, Category, CategoryIndex, PackageBrief};
use aoska::repo_mgr::{deb_file_name, extract_name, is_deb, RepoError, RepoManager};
use aoska::utils::build_url;
use std::path::PathBuf;

fn listing(category: Category, names: &[&str]) -> CategoryIndex {
    CategoryIndex {
        category,
        packages: names
            .iter()
            .map(|n| PackageBrief {
                name: n.to_string(),
                intro: String::new(),
                icon: PathBuf::from(format!("{n}.png")),
            })
            .collect(),
    }
}

#[test]
fn category_names() {
    assert_eq!(Category::parse("games"), Some(Category::Games));
    assert_eq!(Category::parse("observing"), Some(Category::Observing));
    assert_eq!(Category::parse("Games"), None);
    assert_eq!(Category::parse(""), None);
    assert_eq!(Category::Creating.name(), "creating");
}

#[test]
fn selects_first_listing_of_category() {
    let index = vec![
        listing(Category::Working, &["libreoffice"]),
        listing(Category::Games, &["supertux"]),
        listing(Category::Games, &["other"]),
    ];
    let found = select_category(index, "games").unwrap();
    assert_eq!(found.category, Category::Games);
    assert_eq!(found.packages[0].name, "supertux");
}

#[test]
fn unknown_category_name() {
    let index = vec![listing(Category::Working, &[])];
    assert_eq!(select_category(index, "toys").unwrap_err(), "Unknown Category: toys");
}

#[test]
fn category_missing_from_index() {
    let index = vec![listing(Category::Working, &[])];
    assert_eq!(select_category(index, "video").unwrap_err(), "Category video not found");
}

#[test]
fn url_joins_without_doubled_slashes() {
    assert_eq!(build_url("https://example.org/repo/", "index.json"), "https://example.org/repo/index.json");
    assert_eq!(build_url("https://e//", "packages/x/meta.json/"), "https://e/packages/x/meta.json");
    assert_eq!(build_url("", ""), "/");
}

#[test]
fn deb_extension() {
    assert!(is_deb("foo.deb"));
    assert!(is_deb("FOO.DEB"));
    assert!(!is_deb(".deb"));
    assert!(!is_deb("deb"));
    assert!(!is_deb("foo.debx"));
    assert!(!is_deb("foo.tar.gz"));
}

#[test]
fn package_file_name() {
    assert_eq!(deb_file_name("hello"), "hello.deb");
}

#[test]
fn name_pattern_captures() {
    assert_eq!(extract_name("hello.deb"), Some("b".to_string()));
    assert_eq!(extract_name("a"), Some("a".to_string()));
    assert_eq!(extract_name("bad_name.deb"), None);
    assert_eq!(extract_name(""), None);
}

#[test]
fn index_of_repository_files() {
    let files = vec![
        ("tool.deb".to_string(), PathBuf::from("/repo/tool.deb")),
        ("notes.txt".to_string(), PathBuf::from("/repo/notes.txt")),
        ("bad_name.deb".to_string(), PathBuf::from("/repo/bad_name.deb")),
    ];
    let repo = RepoManager::from_files(files);
    assert!(repo.contains_package("b"));
    assert!(!repo.contains_package("t"));
}

#[test]
fn remove_unknown_package_is_not_found() {
    let mut repo = RepoManager::from_files(vec![]);
    match repo.remove_package("ghost") {
        Err(RepoError::NotFound(n)) => assert_eq!(n, "ghost"),
        other => panic!("unexpected {other:?}"),
    }
}

#[test]
fn inserted_package_can_be_removed() {
    let mut repo = RepoManager::from_files(vec![]);
    assert!(repo.insert_package("hello.deb", PathBuf::from("/repo/hello.deb")).is_none());
    let old = repo.insert_package("hello.deb", PathBuf::from("/repo/hello2.deb"));
    assert_eq!(old, Some(PathBuf::from("/repo/hello.deb")));
    assert_eq!(repo.remove_package("hello.deb").unwrap(), PathBuf::from("/repo/hello2.deb"));
    assert!(!repo.contains_package("hello.deb"));
}
