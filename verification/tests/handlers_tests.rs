use pagestore::article::{ArticleReadError, RawArticle};
use pagestore::auth::{Access, Authorization, User};
use pagestore::filesystem::{FileStore, WritableFile};
use pagestore::metadata::Metadata;
use pagestore::routes::articles::{
    create_post_handler, get_handler, post_handler, CreateForm, EditForm, RouteError,
};

fn config_with_root(root: &str) -> pagestore::config::Config {
    pagestore::config::Config {
        address: String::new(),
        secret_key: Vec::new(),
        auth_mode: pagestore::auth::AuthenticationMode::Multi,
        create_access: Access::Authenticated,
        administrator_access: Access::Authenticated,
        discovery_access: Access::Anonymous,
        articles: String::from(root),
        assets: String::new(),
        templates: String::new(),
    }
}

fn store_with_note(root: &str) -> FileStore {
    let mut fs = FileStore::new();
    let article = RawArticle {
        metadata: Metadata {
            title: String::from("Today"),
            view_access: Access::Anonymous,
            edit_access: Access::Authenticated,
        },
        markdown: String::from("hello"),
    };
    let path = format!("{}/notes/today.md", root);
    article.write_to_path(&mut fs, &path, "/notes/today").expect("seed article saves");
    fs
}

#[test]
fn reading_an_article_checks_its_view_rule() {
    let config = config_with_root("articles");
    let fs = store_with_note("articles");

    let (article, template) =
        get_handler(&fs, &config, "notes/today", &User::Anonymous, false, false)
            .expect("an anonymous-view article serves anyone");
    assert_eq!(article.metadata.title, "Today");
    assert_eq!(article.markdown, "hello");
    assert_eq!(template, "article.tera");

    match get_handler(&fs, &config, "notes/today", &User::Anonymous, true, false) {
        Err(RouteError::Denied(Authorization::AuthenticationRequired)) => {},
        _ => panic!("the editing view demands authentication"),
    }

    let (_, template) =
        get_handler(&fs, &config, "notes/today", &User::SingleUser, true, false)
            .expect("an authenticated caller may edit");
    assert_eq!(template, "article_edit.tera");
}

#[test]
fn reading_rejects_bad_and_absent_paths() {
    let config = config_with_root("articles");
    let fs = store_with_note("articles");

    assert!(matches!(
        get_handler(&fs, &config, "../secrets", &User::Anonymous, false, false),
        Err(RouteError::InvalidPath)
    ));
    assert!(matches!(
        get_handler(&fs, &config, "notes/missing", &User::Anonymous, false, false),
        Err(RouteError::Read(ArticleReadError::NotFound { .. }))
    ));
}

#[test]
fn editing_replaces_the_article_atomically() {
    let config = config_with_root("articles");
    let mut fs = store_with_note("articles");

    let form = EditForm {
        title: String::from("Today, revised"),
        view_access: Access::Anonymous,
        edit_access: Access::Authenticated,
        cmark: String::from("world"),
    };
    let url = post_handler(&mut fs, &config, "notes/today", &User::SingleUser, form, false)
        .expect("an authenticated caller edits");
    assert_eq!(url, "/notes/today");

    let (article, _) = get_handler(&fs, &config, "notes/today", &User::Anonymous, false, false)
        .expect("the replacement serves");
    assert_eq!(article.metadata.title, "Today, revised");
    assert_eq!(article.markdown, "world");
}

#[test]
fn editing_checks_the_stored_edit_rule() {
    let config = config_with_root("articles");
    let mut fs = store_with_note("articles");

    let form = EditForm {
        title: String::from("sneaky"),
        view_access: Access::Anonymous,
        edit_access: Access::Anonymous,
        cmark: String::from("defaced"),
    };
    match post_handler(&mut fs, &config, "notes/today", &User::Anonymous, form, false) {
        Err(RouteError::Denied(Authorization::AuthenticationRequired)) => {},
        _ => panic!("an unauthenticated edit is refused"),
    }
    let (article, _) = get_handler(&fs, &config, "notes/today", &User::Anonymous, false, false)
        .expect("the article still serves");
    assert_eq!(article.markdown, "hello");
}

#[test]
fn editing_surfaces_a_conflicting_writer() {
    let config = config_with_root("articles");
    let mut fs = store_with_note("articles");
    let pending =
        WritableFile::open(&mut fs, "articles/notes/today.md").expect("the first writer opens");

    let form = EditForm {
        title: String::from("Today"),
        view_access: Access::Anonymous,
        edit_access: Access::Authenticated,
        cmark: String::from("late edit"),
    };
    assert!(matches!(
        post_handler(&mut fs, &config, "notes/today", &User::SingleUser, form, false),
        Err(RouteError::Write(_))
    ));
    pending.abandon(&mut fs);
}

#[test]
fn titles_the_grammar_cannot_carry_are_rejected() {
    let config = config_with_root("articles");
    let mut fs = store_with_note("articles");

    let form = EditForm {
        title: String::from("a\"b"),
        view_access: Access::Anonymous,
        edit_access: Access::Authenticated,
        cmark: String::from("quote in the title"),
    };
    assert!(matches!(
        post_handler(&mut fs, &config, "notes/today", &User::SingleUser, form, false),
        Err(RouteError::UnencodableMetadata)
    ));

    let form = CreateForm {
        path: String::from("fresh"),
        title: String::from("line\nbreak"),
        view_access: Access::Anonymous,
        edit_access: Access::Authenticated,
        cmark: String::new(),
    };
    assert!(matches!(
        create_post_handler(&mut fs, &config, &User::SingleUser, form, false),
        Err(RouteError::UnencodableMetadata)
    ));

    // The store is untouched: the stored article still reads back intact.
    let (article, _) = get_handler(&fs, &config, "notes/today", &User::Anonymous, false, false)
        .expect("the article still serves");
    assert_eq!(article.markdown, "hello");
}

#[test]
fn creation_checks_the_creation_rule() {
    let config = config_with_root("articles");
    let mut fs = FileStore::new();

    let form = || CreateForm {
        path: String::from("fresh/page"),
        title: String::from("Fresh"),
        view_access: Access::Anonymous,
        edit_access: Access::Authenticated,
        cmark: String::from("new body"),
    };
    match create_post_handler(&mut fs, &config, &User::Anonymous, form(), false) {
        Err(RouteError::Denied(Authorization::AuthenticationRequired)) => {},
        _ => panic!("creation demands the creation rule"),
    }

    let url = create_post_handler(&mut fs, &config, &User::SingleUser, form(), false)
        .expect("an authenticated caller creates");
    assert_eq!(url, "/fresh/page");
    let (article, _) = get_handler(&fs, &config, "fresh/page", &User::Anonymous, false, false)
        .expect("the fresh article serves");
    assert_eq!(article.metadata.title, "Fresh");
    assert_eq!(article.markdown, "new body");
}
