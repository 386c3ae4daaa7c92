use pagestore::auth::Access;
use pagestore::metadata::Metadata;
use pagestore::page::{PageReadError, RawPage};

fn sample_metadata() -> Metadata {
    Metadata {
        title: String::from("T"),
        view_access: Access::Anonymous,
        edit_access: Access::Accounts(vec!["a".into(), "b".into()]),
    }
}

#[test]
fn serializes_the_canonical_form() {
    let page = RawPage { metadata: sample_metadata(), markdown: String::from("body text\n") };
    let expected = "+++\ntitle = \"T\"\nview_rule = \"Anonymous\"\nedit_rule = { Accounts = [\"a\", \"b\"] }\n+++\nbody text\n";
    assert_eq!(page.write(), expected);
}

#[test]
fn parses_what_it_serializes() {
    let page = RawPage { metadata: sample_metadata(), markdown: String::from("hello *world*\n") };
    let out = page.write();
    let back = RawPage::from_reader(&out).expect("a serialized page parses");
    assert_eq!(back.metadata.title, "T");
    assert!(matches!(back.metadata.view_access, Access::Anonymous));
    match &back.metadata.edit_access {
        Access::Accounts(names) => {
            assert_eq!(names.len(), 2);
            assert_eq!(names[0].as_str(), "a");
            assert_eq!(names[1].as_str(), "b");
        },
        _ => panic!("the edit rule round-trips"),
    }
    assert_eq!(back.markdown, "hello *world*\n");
}

#[test]
fn roundtrips_every_rule_shape() {
    for (view, edit) in [
        (Access::Anonymous, Access::Authenticated),
        (Access::Authenticated, Access::Accounts(vec![])),
        (Access::Accounts(vec!["solo".into()]), Access::Anonymous),
    ] {
        let page = RawPage {
            metadata: Metadata { title: String::from("x & y"), view_access: view, edit_access: edit },
            markdown: String::from(""),
        };
        let back = RawPage::from_reader(&page.write()).expect("round trip");
        assert_eq!(back.metadata.title, "x & y");
        assert_eq!(back.write(), page.write());
    }
}

#[test]
fn tolerates_either_terminator() {
    let unix = "+++\ntitle = \"T\"\nview_rule = \"Anonymous\"\nedit_rule = \"Authenticated\"\n+++\nbody";
    let windows =
        "+++\r\ntitle = \"T\"\r\nview_rule = \"Anonymous\"\r\nedit_rule = \"Authenticated\"\r\n+++\r\nbody";
    let a = RawPage::from_reader(unix).expect("line feeds parse");
    let b = RawPage::from_reader(windows).expect("carriage returns parse");
    assert_eq!(a.metadata.title, b.metadata.title);
    assert_eq!(a.markdown, b.markdown);
    assert_eq!(a.markdown, "body");
}

#[test]
fn keeps_the_body_verbatim() {
    let body = "line one\n+++\nlooks like a delimiter but is body\r\n";
    let page = RawPage { metadata: sample_metadata(), markdown: String::from(body) };
    let back = RawPage::from_reader(&page.write()).expect("round trip");
    assert_eq!(back.markdown, body);
}

#[test]
fn truncated_stream_is_missing_metadata_end() {
    let full = "+++\ntitle = \"T\"\nview_rule = \"Anonymous\"\nedit_rule = \"Authenticated\"\n+++\nbody";
    // Cut anywhere after the opening delimiter but before the closing one.
    for cut in [4, 10, 30, full.find("+++\nbody").unwrap() + 3] {
        let r = RawPage::from_reader(&full[..cut]);
        assert!(matches!(r, Err(PageReadError::MissingMetadataEnd)), "cut at {}", cut);
    }
    assert!(matches!(RawPage::from_reader("+++\n"), Err(PageReadError::MissingMetadataEnd)));
}

#[test]
fn bad_first_line_is_missing_metadata_start() {
    for s in ["", "+", "++", "+++", "++++\n", "title = \"T\"\n+++\n", " +++\n", "+++x\n+++\n"] {
        let r = RawPage::from_reader(s);
        assert!(matches!(r, Err(PageReadError::MissingMetadataStart)), "input {:?}", s);
    }
}

#[test]
fn malformed_metadata_is_invalid_metadata() {
    for meta in [
        "",
        "title = T\n",
        "title = \"T\"\n",
        "title = \"T\"\nview_rule = \"Anonymous\"\n",
        "view_rule = \"Anonymous\"\ntitle = \"T\"\nedit_rule = \"Anonymous\"\n",
        "title = \"T\"\nview_rule = \"anonymous\"\nedit_rule = \"Anonymous\"\n",
        "title = \"T\"\nview_rule = \"Anonymous\"\nedit_rule = { Accounts = [] }\nextra = 1\n",
        "title = \"T\"\nview_rule = { Accounts = [\"\"unquoted] }\nedit_rule = \"Anonymous\"\n",
    ] {
        let doc = format!("+++\n{}+++\n", meta);
        let r = RawPage::from_reader(&doc);
        assert!(matches!(r, Err(PageReadError::InvalidMetadata { .. })), "metadata {:?}", meta);
    }
}

#[test]
fn invalid_metadata_carries_the_failing_block() {
    let doc = "+++\ntitle = broken\nview_rule = \"Anonymous\"\nedit_rule = \"Anonymous\"\n+++\nbody";
    match RawPage::from_reader(doc) {
        Err(PageReadError::InvalidMetadata { detail }) => {
            assert_eq!(detail, "title = broken\nview_rule = \"Anonymous\"\nedit_rule = \"Anonymous\"\n");
        },
        _ => panic!("the malformed block is handed back as the cause"),
    }
}

#[test]
fn empty_account_list_parses() {
    let doc = "+++\ntitle = \"T\"\nview_rule = { Accounts = [] }\nedit_rule = \"Anonymous\"\n+++\n";
    let page = RawPage::from_reader(doc).expect("empty list parses");
    match &page.metadata.view_access {
        Access::Accounts(names) => assert!(names.is_empty()),
        _ => panic!("an empty account list stays an account list"),
    }
}

#[test]
fn metadata_constructors_carry_their_titles() {
    assert_eq!(Metadata::bad_request().title, "Bad request");
    assert_eq!(Metadata::not_found().title, "Article not found");
    assert_eq!(
        Metadata::internal_error().title,
        "An error occurred when opening this article."
    );
    let d = Metadata::default();
    assert_eq!(d.title, "");
    assert!(matches!(d.view_access, Access::Anonymous));
    assert!(matches!(d.edit_access, Access::Authenticated));
}
