use notion_to_obsidian::frontmatter::format_datetime;
use notion_to_obsidian::fetch::{next_cursor, should_fetch_children};
use notion_to_obsidian::converter::{document, file_name_for, title_or_untitled};
use notion_to_obsidian::{
    extract_page_title, sanitize_filename, DatabasePageProvider, DefaultFrontmatterGenerator,
    DefaultPostProcessor, MyFrontmatterGenerator, MyPostProcessor, NotionToObsidianError,
    SinglePageProvider,
};

#[test]
fn error_messages() {
    assert_eq!(NotionToObsidianError::NoToken.message(), "APIトークンが設定されていません");
    assert_eq!(
        NotionToObsidianError::BlockRetrievalError("x".to_string()).message(),
        "Notionのブロックの取得に失敗しました: x"
    );
    assert_eq!(
        NotionToObsidianError::PageRetrievalError("404".to_string()).message(),
        "Notionのページの取得に失敗しました: 404"
    );
    assert_eq!(
        NotionToObsidianError::ConversionError("bad".to_string()).message(),
        "変換処理に失敗しました: bad"
    );
    assert_eq!(
        NotionToObsidianError::FileWriteError("disk".to_string()).message(),
        "ファイルの書き込みに失敗しました: disk"
    );
    assert_eq!(
        NotionToObsidianError::EnvVarError("TOKEN".to_string()).message(),
        "環境変数が設定されていません: TOKEN"
    );
}

#[test]
fn default_frontmatter_has_created_only() {
    let g = DefaultFrontmatterGenerator;
    assert_eq!(g.generate("2024-01-02 03:04"), "---\ncreated: 2024-01-02 03:04\n---\n");
}

#[test]
fn typed_frontmatter_lists_known_tags() {
    let mut g = MyFrontmatterGenerator::new(vec![("t1".to_string(), "Old".to_string())]);
    g.insert_tag("t1".to_string(), "Book".to_string());
    g.insert_tag("t2".to_string(), "Idea".to_string());
    let ids = vec!["t2".to_string(), "zz".to_string(), "t1".to_string()];
    let url = "https://x".to_string();
    assert_eq!(
        g.generate(Some(&ids), Some(&url), "2024-01-02 03:04"),
        "---\ntypes:\n  - \"[[Idea]]\"\n  - \"[[Book]]\"\nURL: https://x\ncreated: 2024-01-02 03:04\n---\n"
    );
    assert_eq!(g.generate(None, None, "c"), "---\ntypes:\ncreated: c\n---\n");
    assert_eq!(g.extract_types(None), None);
    assert_eq!(g.tag_name(&"zz".to_string()), None);
}

#[test]
fn sanitize_removes_invalid_chars_and_collapses_spaces() {
    assert_eq!(sanitize_filename("  a/b:c*?  d\t\te<>|\" "), "abc d e");
    assert_eq!(sanitize_filename("back\\slash"), "backslash");
    assert_eq!(sanitize_filename("wide\u{3000}\u{3000}gap\n"), "wide gap");
    assert_eq!(sanitize_filename("plain"), "plain");
    assert_eq!(sanitize_filename("   "), "");
    assert_eq!(file_name_for("my: note"), "my note.md");
}

#[test]
fn page_title_is_first_nonempty_title() {
    let props = vec![vec![], vec!["".to_string()], vec!["Hello".to_string(), " world".to_string()], vec!["Other".to_string()]];
    assert_eq!(extract_page_title(&props), Some("Hello world".to_string()));
    assert_eq!(extract_page_title(&vec![vec![]]), None);
    assert_eq!(title_or_untitled(None), "Untitled");
    assert_eq!(title_or_untitled(Some("T".to_string())), "T");
}

#[test]
fn document_is_header_then_body() {
    assert_eq!(document("---\n---\n", "# A\n"), "---\n---\n# A\n");
}

#[test]
fn database_query_selects_unmigrated_pages() {
    let p = DatabasePageProvider::new("db".to_string(), 5);
    assert_eq!(p.database_id(), "db");
    assert_eq!(p.limit(), 5);
    let q = p.build_query();
    assert_eq!(q.filter_property, "移行済み");
    assert!(!q.filter_checked);
    assert_eq!(q.sort_property, "作成日時");
    assert!(q.descending);
    assert_eq!(q.page_size, 5);
}

#[test]
fn single_page_provider_keeps_id() {
    assert_eq!(SinglePageProvider::new("abc".to_string()).page_id(), "abc");
}

#[test]
fn post_processors() {
    assert!(DefaultPostProcessor.update().is_none());
    let u = MyPostProcessor.update().unwrap();
    assert_eq!(u.property, "移行済み");
    assert!(u.checked);
}

#[test]
fn pagination_continues_only_while_more_pages() {
    assert_eq!(next_cursor(true, Some("c2".to_string())), Some("c2".to_string()));
    assert_eq!(next_cursor(false, Some("c2".to_string())), None);
    assert_eq!(next_cursor(true, None), None);
    assert!(should_fetch_children(Some(true), true));
    assert!(!should_fetch_children(Some(true), false));
    assert!(!should_fetch_children(Some(false), true));
    assert!(!should_fetch_children(None, true));
}

#[test]
fn creation_time_is_written_to_the_minute() {
    assert_eq!(format_datetime(2024, 1, 2, 3, 4), "2024-01-02 03:04");
    assert_eq!(format_datetime(987, 12, 31, 23, 59), "0987-12-31 23:59");
}

#[test]
fn tag_pages_are_named_by_their_first_run() {
    let mut g = MyFrontmatterGenerator::new(Vec::new());
    g.load_tag("a".to_string(), &vec![Some("Alpha".to_string()), Some("x".to_string())]);
    g.load_tag("b".to_string(), &vec![]);
    g.load_tag("c".to_string(), &vec![None, Some("Gamma".to_string())]);
    assert_eq!(g.tag_name(&"a".to_string()), Some("Alpha".to_string()));
    assert_eq!(g.tag_name(&"b".to_string()), None);
    assert_eq!(g.tag_name(&"c".to_string()), None);
}
