use smarthub::clipboard::{
    classify, hex_sha256, is_css_color, looks_like_code, page_title, preview_of,
    trim_plan, wants_link_title, ClipboardError, ClipboardService, Observation, StoredItem, PREVIEW_LEN,
};
use smarthub::crypto::{Crypto, CryptoError};
use smarthub::db::ClipboardRow;

const T0: i64 = 1_700_000_000;

fn cipher() -> Crypto {
    Crypto::generate().0
}

fn row_with(crypto: &Crypto, text: &str) -> ClipboardRow {
    ClipboardService::new_row(crypto, text, hex_sha256(text.as_bytes()), None, T0).unwrap()
}

#[test]
fn sha256_known_vectors() {
    assert_eq!(
        hex_sha256(b"abc"),
        "ba7816bf8f01cfea414140de5dae2223b00361a396177a9cb410ff61f20015ad"
    );
    assert_eq!(
        hex_sha256(b"hello"),
        "2cf24dba5fb0a30e26e83b2ac5b9e29e1b161e5c1fa7425e73043362938b9824"
    );
    assert_eq!(
        hex_sha256(b""),
        "e3b0c44298fc1c149afbf4c8996fb92427ae41e4649b934ca495991b7852b855"
    );
}

#[test]
fn classify_links() {
    assert_eq!(classify("https://example.com/page"), "link");
    assert_eq!(classify("  http://example.com  "), "link");
    assert_eq!(classify("https://example.com/a b"), "text");
    assert_eq!(classify("ftp://example.com"), "text");
}

#[test]
fn classify_colors() {
    assert_eq!(classify("#FFAA00"), "color");
    assert_eq!(classify("  #abc \n"), "color");
    assert_eq!(classify("#11223344"), "color");
    assert_eq!(classify("#abcd"), "text");
    assert_eq!(classify("FFAA00"), "text");
}

#[test]
fn classify_code_and_text() {
    assert_eq!(classify("fn main() {\n    let x = 1;\n}"), "code");
    assert_eq!(classify("let x = 1;"), "text");
    assert_eq!(classify("hello world"), "text");
    assert_eq!(classify(""), "text");
}

#[test]
fn titles_only_for_links() {
    assert!(wants_link_title(" https://example.com "));
    assert!(!wants_link_title("#fff"));
    assert!(!wants_link_title("see https://example.com"));
}

#[test]
fn css_color_rules() {
    assert!(is_css_color("#fff"));
    assert!(is_css_color("#00ff00"));
    assert!(is_css_color("#00ff00cc"));
    assert!(!is_css_color("#00ff0"));
    assert!(!is_css_color("#ggg"));
    assert!(!is_css_color("##fff"));
    assert!(!is_css_color(""));
}

#[test]
fn code_needs_two_lines_and_a_marker() {
    assert!(looks_like_code("a\nb -> c"));
    assert!(looks_like_code("import os\nprint(os)"));
    assert!(!looks_like_code("a -> b"));
    assert!(!looks_like_code("a -> b\n"));
    assert!(!looks_like_code("plain\ntext"));
}

#[test]
fn preview_collapses_whitespace() {
    assert_eq!(preview_of("  hello \n\t world  ", 90), "hello world");
    assert_eq!(preview_of("abcdefgh", 5), "abcde");
    assert_eq!(preview_of("", 5), "");
    assert_eq!(preview_of("   ", 5), "");
    let long = "word ".repeat(40);
    assert_eq!(preview_of(&long, PREVIEW_LEN).chars().count(), PREVIEW_LEN);
}

#[test]
fn watcher_sequence() {
    let mut svc = ClipboardService::new();
    assert!(matches!(svc.observe(None), Observation::Unchanged));
    assert!(matches!(svc.observe(Some("   ".to_string())), Observation::Unchanged));
    match svc.observe(Some("hello".to_string())) {
        Observation::Fresh { text, hash } => {
            assert_eq!(text, "hello");
            assert_eq!(hash, hex_sha256(b"hello"));
        }
        other => panic!("expected a fresh read, got {:?}", other),
    }
    assert_eq!(svc.last_seen_hash, Some(hex_sha256(b"hello")));
    // The same text again is ignored.
    assert!(matches!(svc.observe(Some("hello".to_string())), Observation::Unchanged));
    assert!(svc.self_hash.is_none());
}

#[test]
fn recalled_item_is_not_recorded_again() {
    let crypto = cipher();
    let mut svc = ClipboardService::new();
    assert!(matches!(svc.observe(Some("hello".to_string())), Observation::Fresh { .. }));
    let row = row_with(&crypto, "world");
    let text = svc.copy(&crypto, Some(row)).unwrap();
    assert_eq!(text, "world");
    assert_eq!(svc.self_hash, Some(hex_sha256(b"world")));
    assert!(matches!(svc.observe(Some("world".to_string())), Observation::SelfCopy));
    assert!(svc.self_hash.is_none());
    assert!(matches!(svc.observe(Some("world".to_string())), Observation::Unchanged));
    // Something else copied afterwards is new again.
    assert!(matches!(svc.observe(Some("hello".to_string())), Observation::Fresh { .. }));
}

#[test]
fn copy_errors() {
    let crypto = cipher();
    let mut svc = ClipboardService::new();
    assert_eq!(svc.copy(&crypto, None), Err(ClipboardError::NotFound));
    let mut row = row_with(&crypto, "secret");
    row.content = vec![1, 2, 3];
    assert_eq!(
        svc.copy(&crypto, Some(row)),
        Err(ClipboardError::Crypto(CryptoError::CiphertextTooShort))
    );
    assert!(svc.self_hash.is_none());
    assert_eq!(ClipboardError::NotFound.message(), "clipboard item not found");
}

#[test]
fn new_row_fields() {
    let crypto = cipher();
    let text = "https://example.com";
    let row = ClipboardService::new_row(
        &crypto,
        text,
        hex_sha256(text.as_bytes()),
        Some("Example Domain".to_string()),
        T0,
    )
    .unwrap();
    assert_eq!(row.id.len(), 36);
    assert_eq!(row.kind, "link");
    assert_eq!(row.preview, "https://example.com");
    assert_eq!(row.link_title.as_deref(), Some("Example Domain"));
    assert_eq!(row.hash, hex_sha256(text.as_bytes()));
    assert!(!row.pinned);
    assert_eq!(row.use_count, 1);
    assert_eq!(row.created_at, T0);
    assert_ne!(row.content, text.as_bytes().to_vec());
    assert_eq!(crypto.decrypt_str(&row.content).unwrap(), text);
    let other = ClipboardService::new_row(&crypto, text, String::new(), None, T0).unwrap();
    assert_ne!(row.id, other.id);
}

#[test]
fn history_lists_rows_in_order() {
    let crypto = cipher();
    let rows = vec![row_with(&crypto, "first"), row_with(&crypto, "fn x() {}\nlet y = 2;")];
    let items = ClipboardService::history(&crypto, &rows).unwrap();
    assert_eq!(items.len(), 2);
    assert_eq!(items[0].content, "first");
    assert_eq!(items[0].kind, "text");
    assert_eq!(items[1].kind, "code");
    assert_eq!(items[1].preview, "fn x() {} let y = 2;");
    assert_eq!(items[1].id, rows[1].id);
}

#[test]
fn history_fails_on_undecryptable_row() {
    let crypto = cipher();
    let other = cipher();
    let rows = vec![row_with(&crypto, "one"), row_with(&other, "two")];
    assert_eq!(
        ClipboardService::history(&crypto, &rows).unwrap_err(),
        CryptoError::DecryptionFailed
    );
}

#[test]
fn set_pinned_shows_reread_row() {
    let crypto = cipher();
    assert!(ClipboardService::set_pinned(&crypto, None).unwrap().is_none());
    let mut row = row_with(&crypto, "pin me");
    row.pinned = true;
    let item = ClipboardService::set_pinned(&crypto, Some(row)).unwrap().unwrap();
    assert!(item.pinned);
    assert_eq!(item.content, "pin me");
}

#[test]
fn page_title_extraction() {
    assert_eq!(
        page_title("<html><head><TITLE>  Hello World </TITLE></head></html>").as_deref(),
        Some("Hello World")
    );
    assert_eq!(page_title("<html>no title here</html>"), None);
    assert_eq!(page_title("<title></title>"), None);
    assert_eq!(page_title("<title>   </title>"), None);
    assert_eq!(page_title("</title><title>late</title>").as_deref(), Some("late"));
    assert_eq!(page_title("<title>open only"), None);
    let long = format!("<title>{}</title>", "a".repeat(200));
    assert_eq!(page_title(&long).unwrap().chars().count(), 140);
}

#[test]
fn page_title_with_non_ascii_text() {
    assert_eq!(page_title("\u{130}\u{130}<title>Hi</title>").as_deref(), Some("Hi"));
    assert_eq!(page_title("\u{130}<title>\u{e9}t\u{e9}</title>").as_deref(), Some("\u{e9}t\u{e9}"));
    assert_eq!(page_title("<TiTlE>\u{130}stanbul</tItLe>").as_deref(), Some("\u{130}stanbul"));
}

fn stored(id: &str, pinned: bool, created_at: i64) -> StoredItem {
    StoredItem { id: id.to_string(), pinned, created_at }
}

#[test]
fn trimming_keeps_pinned_and_newest() {
    let items = vec![
        stored("old-pinned", true, 1),
        stored("a", false, 10),
        stored("b", false, 30),
        stored("c", false, 20),
        stored("d", false, 5),
    ];
    assert_eq!(trim_plan(&items, 2), vec!["a".to_string(), "d".to_string()]);
    assert_eq!(trim_plan(&items, 0), vec!["a", "b", "c", "d"]);
    assert!(trim_plan(&items, 4).is_empty());
    assert!(trim_plan(&items, 20).is_empty());
    assert!(trim_plan(&items, -1).is_empty());
}

#[test]
fn trimming_ties_keep_the_earlier_stored() {
    let items = vec![stored("x", false, 7), stored("y", false, 7), stored("z", false, 7)];
    assert_eq!(trim_plan(&items, 1), vec!["y".to_string(), "z".to_string()]);
}
