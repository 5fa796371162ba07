use smarthub::crypto::Crypto;
use smarthub::text_saver::{FocusedText, TextSaver, TextSaverError, PREVIEW_LEN};

const T0: i64 = 1_700_000_000;

fn focused(app: &str, title: &str, text: &str, is_password: bool) -> FocusedText {
    FocusedText {
        app: app.to_string(),
        window_title: title.to_string(),
        text: text.to_string(),
        is_password,
    }
}

#[test]
fn capture_rules() {
    let (crypto, _) = Crypto::generate();
    let mut saver = TextSaver::new();
    assert!(saver.capture(&crypto, None, T0).unwrap().is_none());
    assert!(saver
        .capture(&crypto, Some(focused("a.exe", "t", "hunter2 secret", true)), T0)
        .unwrap()
        .is_none());
    assert!(saver.capture(&crypto, Some(focused("a.exe", "t", "hi", false)), T0).unwrap().is_none());
    assert!(saver.capture(&crypto, Some(focused("a.exe", "t", "   \n\t  ", false)), T0).unwrap().is_none());
    assert!(saver.last_signature.is_none());

    let text = "Hello   world\nagain";
    let row = saver
        .capture(&crypto, Some(focused("Notepad", "Untitled", text, false)), T0)
        .unwrap()
        .expect("a snapshot");
    let sig = saver.last_signature.as_ref().unwrap();
    assert_eq!((sig.app.as_str(), sig.title.as_str(), sig.text.as_str()), ("Notepad", "Untitled", text));
    assert_eq!(row.id.len(), 36);
    assert_eq!(row.app, "Notepad");
    assert_eq!(row.title, "Untitled");
    assert_eq!(row.preview, "Hello world again");
    assert_eq!(row.created_at, T0);
    assert_eq!(crypto.decrypt_str(&row.content).unwrap(), text);

    // Settled: the same field is not recorded twice.
    assert!(saver
        .capture(&crypto, Some(focused("Notepad", "Untitled", text, false)), T0)
        .unwrap()
        .is_none());
    // Same length, different text: a change, so it is recorded.
    assert!(saver
        .capture(&crypto, Some(focused("Notepad", "Untitled", "Hello   world\nAGAIN", false)), T0)
        .unwrap()
        .is_some());
    // A change in length is recorded.
    assert!(saver
        .capture(&crypto, Some(focused("Notepad", "Untitled", "Hello world again!", false)), T0)
        .unwrap()
        .is_some());
}

#[test]
fn length_counts_bytes() {
    let (crypto, _) = Crypto::generate();
    let mut saver = TextSaver::new();
    // Two characters, four bytes: long enough.
    let row = saver.capture(&crypto, Some(focused("a", "b", "éé", false)), T0).unwrap();
    assert!(row.is_some());
    assert_eq!(saver.last_signature.as_ref().unwrap().text, "éé");
}

#[test]
fn preview_is_capped() {
    let (crypto, _) = Crypto::generate();
    let mut saver = TextSaver::new();
    let long = "x".repeat(500);
    let row = saver.capture(&crypto, Some(focused("a", "b", &long, false)), T0).unwrap().unwrap();
    assert_eq!(row.preview.chars().count(), PREVIEW_LEN);
}

#[test]
fn listing_and_recovery() {
    let (crypto, _) = Crypto::generate();
    let mut saver = TextSaver::new();
    let row = saver
        .capture(&crypto, Some(focused("Mail", "Draft", "Dear team, ...", false)), T0)
        .unwrap()
        .unwrap();
    let id = row.id.clone();
    let entries = TextSaver::list(&crypto, &vec![row]).unwrap();
    assert_eq!(entries.len(), 1);
    assert_eq!(entries[0].id, id);
    assert_eq!(entries[0].content, "Dear team, ...");
    assert_eq!(entries[0].app, "Mail");

    let row = saver
        .capture(&crypto, Some(focused("Mail", "Draft 2", "Another message", false)), T0)
        .unwrap()
        .unwrap();
    assert_eq!(TextSaver::recover(&crypto, Some(row)).unwrap(), "Another message");
    assert_eq!(TextSaver::recover(&crypto, None), Err(TextSaverError::NotFound));
    assert_eq!(TextSaverError::NotFound.message(), "snapshot not found");
}
