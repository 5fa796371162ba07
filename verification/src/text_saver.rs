//! Text Time Machine (Free tier).
//!
//! Every ~1.5 s the caller reads the text of the focused editable control
//! and hands it to `TextSaver::capture`, which decides whether to snapshot
//! it: password fields, blank and tiny texts are never kept, and a field
//! whose application, window title and text did not change since the last
//! snapshot is not recorded twice; any change to the text is recorded. Snapshots are encrypted and kept for one
//! hour.

use vstd::prelude::*;
use vstd::string::{StringExecFns, StringSliceAdditionalSpecFns};

use crate::clipboard::{new_uuid, preview_spec};
use crate::crypto::{crypto_message, open_blob_text, Crypto, CryptoError, MAX_PLAINTEXT};
use crate::db::TextRow;
use crate::text::{collapsed_prefix, is_blank, trim_seq};

verus! {

/// Snapshots are kept for one hour.
pub const RETENTION_SECS: i64 = 60 * 60;

/// Polling period of the capture loop, in milliseconds.
pub const POLL_INTERVAL_MS: u64 = 1500;

/// Characters kept in a snapshot preview.
pub const PREVIEW_LEN: usize = 140;

/// Texts shorter than this many bytes are transient and never kept.
pub const MIN_CONTENT_LEN: usize = 3;

#[derive(Debug)]
pub struct RecoveryEntryDto {
    pub id: String,
    pub app: String,
    pub title: String,
    pub content: String,
    pub preview: String,
    pub created_at: i64,
}

/// The focused control's text, as captured.
#[derive(Debug)]
pub struct FocusedText {
    pub app: String,
    pub window_title: String,
    pub text: String,
    /// True when the focused control is a password field.
    pub is_password: bool,
}

#[derive(Clone, Copy, Debug, PartialEq, Eq, Structural)]
pub enum TextSaverError {
    NotFound,
    Crypto(CryptoError),
}

impl TextSaverError {
    pub fn message(&self) -> (s: &'static str)
        ensures
            s@ == match *self {
                TextSaverError::NotFound => "snapshot not found"@,
                TextSaverError::Crypto(e) => crypto_message(e),
            },
    {
        match self {
            TextSaverError::NotFound => "snapshot not found",
            TextSaverError::Crypto(e) => e.message(),
        }
    }
}

/// What identifies a snapshot: the application, the window title and the
/// text itself.
#[derive(Debug)]
pub struct Signature {
    pub app: String,
    pub title: String,
    pub text: String,
}

/// The capture loop's memory: the signature of the last snapshot.
pub struct TextSaver {
    pub last_signature: Option<Signature>,
}

pub open spec fn sig_view(o: Option<Signature>) -> Option<(Seq<char>, Seq<char>, Seq<char>)> {
    match o {
        Some(s) => Some((s.app@, s.title@, s.text@)),
        None => None,
    }
}

pub open spec fn byte_len(s: Seq<char>) -> nat {
    vstd::utf8::encode_utf8(s).len()
}

/// The snapshot signature of a capture.
pub open spec fn signature_of(f: FocusedText) -> (Seq<char>, Seq<char>, Seq<char>) {
    (f.app@, f.window_title@, f.text@)
}

/// A captured text worth a snapshot: not a password field, not blank, at
/// least 3 bytes.
pub open spec fn keeps(f: FocusedText) -> bool {
    !f.is_password && byte_len(f.text@) >= MIN_CONTENT_LEN && trim_seq(f.text@).len() != 0
}

/// The capture is recorded: a text worth keeping whose signature differs
/// from the last snapshot's.
pub open spec fn records(
    last: Option<(Seq<char>, Seq<char>, Seq<char>)>,
    captured: Option<FocusedText>,
) -> bool {
    captured matches Some(f) && keeps(f) && last != Some(signature_of(f))
}

/// The remembered signature after a capture.
pub open spec fn next_signature(
    last: Option<(Seq<char>, Seq<char>, Seq<char>)>,
    captured: Option<FocusedText>,
) -> Option<(Seq<char>, Seq<char>, Seq<char>)> {
    if records(last, captured) {
        Some(signature_of(captured->0))
    } else {
        last
    }
}

/// `e` is the listing entry for `row`, whose content decrypts under `key`.
pub open spec fn entry_of(key: Seq<u8>, e: RecoveryEntryDto, row: TextRow) -> bool {
    open_blob_text(key, row.content@) matches Ok(c) && {
        &&& e.id@ == row.id@
        &&& e.app@ == row.app@
        &&& e.title@ == row.title@
        &&& e.content@ == c
        &&& e.preview@ == row.preview@
        &&& e.created_at == row.created_at
    }
}

impl TextSaver {
    pub fn new() -> (s: Self)
        ensures
            s.last_signature is None,
    {
        TextSaver { last_signature: None }
    }

    /// One capture. Nothing is recorded for no text, a password field, a blank
    /// text or one under 3 bytes, or the same application, window title and
    /// text as the last snapshot; otherwise
    /// the signature is remembered and a snapshot row is built (random id,
    /// encrypted text, 140-character preview, created at `now`).
    pub fn capture(&mut self, crypto: &Crypto, captured: Option<FocusedText>, now: i64) -> (r: Result<
        Option<TextRow>,
        CryptoError,
    >)
        ensures
            sig_view(final(self).last_signature) == next_signature(
                sig_view(old(self).last_signature),
                captured,
            ),
            !records(sig_view(old(self).last_signature), captured) ==> r matches Ok(None),
            records(sig_view(old(self).last_signature), captured) ==> ({
                let f = captured->0;
                &&& r is Ok <==> byte_len(f.text@) <= MAX_PLAINTEXT
                &&& r is Err ==> r == Err::<Option<TextRow>, CryptoError>(
                    CryptoError::EncryptionFailed,
                )
                &&& r matches Ok(o) ==> (o matches Some(row) && {
                    &&& row.id@.len() == 36
                    &&& row.app@ == f.app@
                    &&& row.title@ == f.window_title@
                    &&& open_blob_text(crypto@, row.content@) == Ok::<Seq<char>, CryptoError>(
                        f.text@,
                    )
                    &&& row.preview@ == preview_spec(f.text@, PREVIEW_LEN as nat)
                    &&& row.created_at == now
                })
            }),
    {
        let f = match captured {
            None => return Ok(None),
            Some(f) => f,
        };
        let len = f.text.as_str().as_bytes().len();
        if f.is_password || len < MIN_CONTENT_LEN || is_blank(f.text.as_str()) {
            return Ok(None);
        }
        let same = match &self.last_signature {
            Some(s) => s.app.eq(&f.app) && s.title.eq(&f.window_title) && s.text.eq(&f.text),
            None => false,
        };
        if same {
            return Ok(None);
        }
        self.last_signature = Some(
            Signature { app: f.app.clone(), title: f.window_title.clone(), text: f.text.clone() },
        );
        let content = match crypto.encrypt_str(f.text.as_str()) {
            Ok(c) => c,
            Err(e) => return Err(e),
        };
        let preview = collapsed_prefix(f.text.as_str(), PREVIEW_LEN);
        Ok(
            Some(
                TextRow {
                    id: new_uuid(),
                    app: f.app,
                    title: f.window_title,
                    content,
                    preview,
                    created_at: now,
                },
            ),
        )
    }

    /// The recovery listing for the stored snapshots (already filtered and
    /// ordered), in the same order; the first snapshot that fails to decrypt
    /// fails the whole listing.
    pub fn list(crypto: &Crypto, rows: &Vec<TextRow>) -> (r: Result<
        Vec<RecoveryEntryDto>,
        CryptoError,
    >)
        ensures
            match r {
                Ok(items) => items.len() == rows.len() && forall|i: int|
                    0 <= i < rows.len() ==> #[trigger] entry_of(crypto@, items@[i], rows@[i]),
                Err(e) => exists|k: int|
                    0 <= k < rows.len() && open_blob_text(crypto@, #[trigger] rows@[k].content@)
                        == Err::<Seq<char>, CryptoError>(e) && forall|i: int|
                        0 <= i < k ==> open_blob_text(crypto@, #[trigger] rows@[i].content@) is Ok,
            },
    {
        let mut items: Vec<RecoveryEntryDto> = Vec::new();
        let mut i: usize = 0;
        while i < rows.len()
            invariant
                i <= rows.len(),
                items.len() == i,
                forall|j: int| 0 <= j < i ==> #[trigger] entry_of(crypto@, items@[j], rows@[j]),
            decreases rows.len() - i,
        {
            let row = &rows[i];
            match crypto.decrypt_str(row.content.as_slice()) {
                Ok(content) => {
                    let e = RecoveryEntryDto {
                        id: row.id.clone(),
                        app: row.app.clone(),
                        title: row.title.clone(),
                        content,
                        preview: row.preview.clone(),
                        created_at: row.created_at,
                    };
                    assert(entry_of(crypto@, e, rows@[i as int]));
                    items.push(e);
                },
                Err(e) => {
                    assert forall|j: int| 0 <= j < i implies open_blob_text(
                        crypto@,
                        #[trigger] rows@[j].content@,
                    ) is Ok by {
                        assert(entry_of(crypto@, items@[j], rows@[j]));
                    }
                    return Err(e);
                },
            }
            i = i + 1;
        }
        Ok(items)
    }

    /// The rescued text of a snapshot, to be put back on the clipboard.
    pub fn recover(crypto: &Crypto, row: Option<TextRow>) -> (r: Result<String, TextSaverError>)
        ensures
            match row {
                None => r == Err::<String, TextSaverError>(TextSaverError::NotFound),
                Some(row) => match open_blob_text(crypto@, row.content@) {
                    Ok(c) => r matches Ok(s) && s@ == c,
                    Err(e) => r == Err::<String, TextSaverError>(TextSaverError::Crypto(e)),
                },
            },
    {
        match row {
            None => Err(TextSaverError::NotFound),
            Some(row) => match crypto.decrypt_str(row.content.as_slice()) {
                Ok(t) => Ok(t),
                Err(e) => Err(TextSaverError::Crypto(e)),
            },
        }
    }
}

/// A settled field is recorded once: right after a capture, the very same
/// capture records nothing.
pub proof fn lemma_settled_field_recorded_once(
    last: Option<(Seq<char>, Seq<char>, Seq<char>)>,
    captured: Option<FocusedText>,
)
    ensures
        !records(next_signature(last, captured), captured),
        next_signature(next_signature(last, captured), captured) == next_signature(last, captured),
{
}

/// Password fields, blank texts and texts under three bytes are never recorded, whatever
/// was captured before, and leave the remembered signature alone.
pub proof fn lemma_password_fields_never_recorded(
    last: Option<(Seq<char>, Seq<char>, Seq<char>)>,
    f: FocusedText,
)
    requires
        f.is_password || byte_len(f.text@) < 3 || trim_seq(f.text@).len() == 0,
    ensures
        !records(last, Some(f)),
        next_signature(last, Some(f)) == last,
{
}

/// After a snapshot of one capture, a later capture that is not a password
/// field, not blank and at least 3 bytes long is recorded
/// exactly when its application, window title or text differs: any edit of
/// the text is recorded, even one that keeps its length.
pub proof fn lemma_changed_text_recorded(before: FocusedText, after: FocusedText)
    requires
        !after.is_password,
        byte_len(after.text@) >= 3,
        trim_seq(after.text@).len() != 0,
    ensures
        records(Some(signature_of(before)), Some(after)) <==> (before.app@ != after.app@
            || before.window_title@ != after.window_title@ || before.text@ != after.text@),
{
}

} // verus!
