use pagestore::routes::articles::{get_paths, validate_path};
use pagestore::routes::discovery::DirectoryNode;

fn config_with_root(root: &str) -> pagestore::config::Config {
    pagestore::config::Config {
        address: String::new(),
        secret_key: Vec::new(),
        auth_mode: pagestore::auth::AuthenticationMode::Anonymous,
        create_access: pagestore::auth::Access::Anonymous,
        administrator_access: pagestore::auth::Access::Anonymous,
        discovery_access: pagestore::auth::Access::Anonymous,
        articles: String::from(root),
        assets: String::new(),
        templates: String::new(),
    }
}

#[test]
fn accepts_ordinary_paths() {
    assert_eq!(validate_path("notes/today").as_deref(), Some("notes/today"));
    assert_eq!(validate_path("/notes/today").as_deref(), Some("notes/today"));
    assert_eq!(validate_path("///a").as_deref(), Some("a"));
    assert_eq!(validate_path("").as_deref(), Some(""));
    assert_eq!(validate_path("a//b").as_deref(), Some("a//b"));
    assert_eq!(validate_path("a/./b").as_deref(), Some("a/./b"));
    assert_eq!(validate_path("a/").as_deref(), Some("a/"));
    assert_eq!(validate_path(".hidden").as_deref(), Some(".hidden"));
}

#[test]
fn rejects_escapes_and_reserved_routes() {
    assert!(validate_path("..").is_none());
    assert!(validate_path("a/../b").is_none());
    assert!(validate_path("/..").is_none());
    assert!(validate_path("a/..").is_none());
    assert!(validate_path(".").is_none());
    assert!(validate_path("./a").is_none());
    assert!(validate_path("special:admin").is_none());
    assert!(validate_path("/special:tree").is_none());
}

#[test]
fn resolves_files_and_directories() {
    let config = config_with_root("articles");

    let p = get_paths(&config, "notes/today", false).expect("a plain path resolves");
    assert_eq!(p.url, "/notes/today");
    assert_eq!(p.md, "articles/notes/today.md");

    let p = get_paths(&config, "/notes/", false).expect("a trailing slash names a directory");
    assert_eq!(p.url, "/notes/index");
    assert_eq!(p.md, "articles/notes/index.md");

    let p = get_paths(&config, "notes", true).expect("a directory resolves to its index");
    assert_eq!(p.url, "/notes/index");
    assert_eq!(p.md, "articles/notes/index.md");

    let p = get_paths(&config, "", true).expect("the root resolves to its index");
    assert_eq!(p.url, "/index");
    assert_eq!(p.md, "articles/index.md");

    assert!(get_paths(&config, "../etc", false).is_none());
}

#[test]
fn replaces_an_existing_extension() {
    let config = config_with_root("articles");
    let p = get_paths(&config, "file.txt", false).expect("resolves");
    assert_eq!(p.md, "articles/file.md");

    let p = get_paths(&config, ".hidden", false).expect("resolves");
    assert_eq!(p.md, "articles/.hidden.md");
}

#[test]
fn fresh_directory_nodes_are_empty() {
    let node = DirectoryNode::new(
        String::from("articles/notes"),
        String::from("notes"),
        String::from("notes"),
    );
    assert_eq!(node.file_path, "articles/notes");
    assert_eq!(node.url_path, "notes");
    assert_eq!(node.name, "notes");
    assert!(node.files.is_empty());
    assert!(node.directories.is_empty());
    assert!(!node.has_index);
}
