use pagestore::article::{ArticleReadError, ArticleWriteError, RawArticle};
use pagestore::auth::Access;
use pagestore::filesystem::{FileStore, FileWriteError, IoErrorKind, ReadableFile, WritableFile};
use pagestore::metadata::Metadata;
use pagestore::page::{PageReadError, PageWriteError};

#[test]
fn write_read() {
    let mut fs = FileStore::new();
    let mut file = WritableFile::open(&mut fs, "file.txt").expect("Couldn't open the file for write.");
    file.write("Write/Read Test");
    file.close(&mut fs).expect("Failed to flush and closed file.");
    let file = ReadableFile::open(&fs, "file.txt").expect("Couldn't open the file for read.");
    let content = file.read_to_string();

    assert_eq!(content, "Write/Read Test");
    assert!(fs.contains("file.txt"));
    assert!(!fs.contains("file.txt.tmp"));
}

#[test]
fn conflicting_write() {
    let mut fs = FileStore::new();
    let mut file = WritableFile::open(&mut fs, "file.txt").expect("Couldn't open the file for write.");
    file.write("Conflicting Write Test");

    assert!(matches!(
        WritableFile::open(&mut fs, "file.txt"),
        Err(FileWriteError::ConflictingWriteInProgress { .. })
    ));

    file.close(&mut fs).expect("Couldn't close the file.");

    assert!(fs.contains("file.txt"));
    assert!(!fs.contains("file.txt.tmp"));
    // After the first writer closed, a new open succeeds.
    let again = WritableFile::open(&mut fs, "file.txt").expect("a later writer may open");
    again.abandon(&mut fs);
}

#[test]
fn cancelled_update() {
    let mut fs = FileStore::new();
    let mut file = WritableFile::open(&mut fs, "file.txt").expect("Couldn't open the file for write.");
    file.write("File Version 1");
    file.close(&mut fs).expect("Couldn't close the file.");

    let mut file = WritableFile::open(&mut fs, "file.txt").expect("Couldn't open the file for write, 2.");
    file.write("File Version 2");
    file.abandon(&mut fs);

    let file = ReadableFile::open(&fs, "file.txt").expect("Couldn't open the file for read.");
    let content = file.read_to_string();

    assert!(fs.contains("file.txt"));
    assert!(!fs.contains("file.txt.tmp"));
    assert_eq!(content, "File Version 1");
}

#[test]
fn cancelled_create() {
    let mut fs = FileStore::new();
    let mut file = WritableFile::open(&mut fs, "file.txt").expect("Couldn't open the file for write.");
    file.write("File Version 1");
    file.abandon(&mut fs);

    assert!(!fs.contains("file.txt"));
    assert!(!fs.contains("file.txt.tmp"));
}

fn titled(title: &str, body: &str) -> RawArticle {
    RawArticle {
        metadata: Metadata {
            title: String::from(title),
            view_access: Access::Anonymous,
            edit_access: Access::Authenticated,
        },
        markdown: String::from(body),
    }
}

#[test]
fn save_then_load_roundtrips() {
    let mut fs = FileStore::new();
    let article = titled("T", "hello");
    article.write_to_path(&mut fs, "articles/page.md", "/page").expect("a fresh path saves");

    let loaded = RawArticle::read_from_path(&fs, "articles/page.md", "/page").expect("it loads back");
    assert_eq!(loaded.metadata.title, "T");
    assert_eq!(loaded.markdown, "hello");

    let updated = titled("T", "world");
    updated.write_to_path(&mut fs, "articles/page.md", "/page").expect("an update saves");
    let loaded = RawArticle::read_from_path(&fs, "articles/page.md", "/page").expect("it loads back");
    assert_eq!(loaded.markdown, "world");
    assert!(!fs.contains("articles/page.md.tmp"));
}

#[test]
fn conflicting_article_saves_are_reported() {
    let mut fs = FileStore::new();
    let pending = WritableFile::open(&mut fs, "articles/page.md").expect("the first writer opens");

    let article = titled("T", "hello");
    let r = article.write_to_path(&mut fs, "articles/page.md", "/page");
    match r {
        Err(ArticleWriteError::ConflictingWriteInProgress { path }) => assert_eq!(path, "/page"),
        _ => panic!("a pending writer makes a later save conflict"),
    }

    pending.abandon(&mut fs);
    article.write_to_path(&mut fs, "articles/page.md", "/page").expect("saves once abandoned");
}

#[test]
fn loading_distinguishes_absent_from_corrupt() {
    let mut fs = FileStore::new();
    match RawArticle::read_from_path(&fs, "articles/a.md", "/a") {
        Err(ArticleReadError::NotFound { path }) => assert_eq!(path, "/a"),
        _ => panic!("an absent path is NotFound"),
    }

    fs.write("articles/a.md", String::from("not a document"));
    match RawArticle::read_from_path(&fs, "articles/a.md", "/a") {
        Err(ArticleReadError::MissingMetadataStart { path, first_line }) => {
            assert_eq!(path, "/a");
            assert_eq!(first_line, "not a document");
        },
        _ => panic!("a malformed file is reported as such"),
    }

    fs.write("articles/a.md", String::from("+++\ntitle = broken\n+++\n"));
    assert!(matches!(
        RawArticle::read_from_path(&fs, "articles/a.md", "/a"),
        Err(ArticleReadError::InvalidMetadata { .. })
    ));

    fs.write("articles/a.md", String::from("+++\ntitle = \"T\"\n"));
    assert!(matches!(
        RawArticle::read_from_path(&fs, "articles/a.md", "/a"),
        Err(ArticleReadError::MissingMetadataEnd { .. })
    ));
}

#[test]
fn page_saves_are_atomic_and_detect_conflicts() {
    let mut fs = FileStore::new();
    let page = pagestore::page::RawPage {
        metadata: Metadata {
            title: String::from("P"),
            view_access: Access::Anonymous,
            edit_access: Access::Authenticated,
        },
        markdown: String::from("one"),
    };
    page.write_to_path(&mut fs, "p.md").expect("a fresh path saves");
    let back = pagestore::page::RawPage::read_from_path(&fs, "p.md").expect("it loads");
    assert_eq!(back.markdown, "one");
    assert!(!fs.contains("p.md.tmp"));

    let pending = WritableFile::open(&mut fs, "p.md").expect("a writer opens");
    match page.write_to_path(&mut fs, "p.md") {
        Err(pagestore::page::PageWriteError::ConflictingWriteInProgress { path }) => {
            assert_eq!(path, "p.md");
        },
        _ => panic!("a pending writer makes a page save conflict"),
    }
    let back = pagestore::page::RawPage::read_from_path(&fs, "p.md").expect("still loads");
    assert_eq!(back.markdown, "one");

    pending.abandon(&mut fs);
    page.write_to_path(&mut fs, "p.md").expect("saves once abandoned");
}

#[test]
fn io_failures_classify_by_kind() {
    for kind in [
        IoErrorKind::NotFound,
        IoErrorKind::IsADirectory,
        IoErrorKind::InvalidInput,
        IoErrorKind::InvalidFilename,
    ] {
        assert!(matches!(
            PageReadError::from_io_kind(kind, String::from("detail")),
            PageReadError::NotFound
        ));
        assert!(matches!(
            ArticleReadError::from_io_kind(kind, String::from("detail"), String::from("/a")),
            ArticleReadError::NotFound { .. }
        ));
    }
    assert!(matches!(
        PageReadError::from_io_kind(IoErrorKind::Other, String::from("disk full")),
        PageReadError::IoError { kind: IoErrorKind::Other, .. }
    ));
    assert!(matches!(
        ArticleReadError::from_io_kind(IoErrorKind::Other, String::from("d"), String::from("/a")),
        ArticleReadError::IoError { kind: IoErrorKind::Other, .. }
    ));

    assert!(matches!(
        PageWriteError::from_io_kind(IoErrorKind::IsADirectory, String::from("d")),
        PageWriteError::InvalidPath
    ));
    assert!(matches!(
        PageWriteError::from_io_kind(IoErrorKind::NotFound, String::from("d")),
        PageWriteError::IoError { kind: IoErrorKind::NotFound, .. }
    ));
    assert!(matches!(
        FileWriteError::from_io_error_tmp("f", IoErrorKind::AlreadyExists, String::from("d"), "f.tmp"),
        FileWriteError::ConflictingWriteInProgress { .. }
    ));
    assert!(matches!(
        FileWriteError::from_io_error_tmp("f", IoErrorKind::Other, String::from("d"), "f.tmp"),
        FileWriteError::UnhandlableWriteError { .. }
    ));
}
