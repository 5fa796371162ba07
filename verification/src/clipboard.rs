//! Smart Clipboard (Free tier).
//!
//! The watcher reads the clipboard text every 300 ms (caller side) and hands
//! it to `ClipboardService::observe`, which decides whether the text is new:
//! unchanged text and text the app put there itself are skipped. New text is
//! classified (link / color / code / text), previewed, encrypted and turned
//! into a history row by `ClipboardService::new_row`. A link's page title is
//! read from the fetched page by `page_title`.

use sha2::{Digest, Sha256};
use vstd::prelude::*;
use vstd::string::StringSliceAdditionalSpecFns;

use crate::crypto::{crypto_message, open_blob_text, Crypto, CryptoError, MAX_PLAINTEXT};
use crate::db::ClipboardRow;
use crate::text::{
    ascii_lower, chars_of, collapse_ws, collapsed_prefix, contains_chars, contains_seq, hex_lower,
    hex_string, is_blank, is_whitespace, is_ws, slice_chars, starts_with_chars, starts_with_seq,
    same_text, string_from_range, to_ascii_lower, trim_chars, trim_seq,
};

verus! {

/// Characters kept in a history preview.
pub const PREVIEW_LEN: usize = 90;

/// Polling period of the watcher, in milliseconds.
pub const POLL_INTERVAL_MS: u64 = 300;

#[derive(Debug)]
pub struct ClipboardItemDto {
    pub id: String,
    /// "text" | "link" | "code" | "color"
    pub kind: String,
    pub content: String,
    pub preview: String,
    pub link_title: Option<String>,
    pub pinned: bool,
    pub created_at: i64,
    pub use_count: i64,
}

// ---------------------------------------------------------------------------
// Hashing
// ---------------------------------------------------------------------------

/// SHA-256 digest of `data`.
pub uninterp spec fn sha256_digest(data: Seq<u8>) -> Seq<u8>;

/// `Sha256::digest(data)` (sha2). Claimed: the result is the SHA-256 digest
/// of `data` (named `sha256_digest`), 32 bytes long.
#[verifier::external_body]
fn sha256(data: &[u8]) -> (d: Vec<u8>)
    ensures
        d@ == sha256_digest(data@),
        d.len() == 32,
{
    Sha256::digest(data).to_vec()
}

/// Lower-case hex SHA-256 of a text's UTF-8 bytes.
pub open spec fn text_hash(text: Seq<char>) -> Seq<char> {
    hex_lower(sha256_digest(vstd::utf8::encode_utf8(text)))
}

/// Lower-case hex of the SHA-256 digest of `bytes`.
pub fn hex_sha256(bytes: &[u8]) -> (s: String)
    ensures
        s@ == hex_lower(sha256_digest(bytes@)),
{
    let d = sha256(bytes);
    hex_string(&d)
}

// ---------------------------------------------------------------------------
// Classification
// ---------------------------------------------------------------------------

pub open spec fn has_ws(t: Seq<char>) -> bool {
    exists|i: int| 0 <= i < t.len() && is_ws(#[trigger] t[i])
}

/// A `#` followed by 3, 6 or 8 hex digits.
pub open spec fn css_color_spec(t: Seq<char>) -> bool {
    let hex = t.skip(1);
    &&& t.len() > 0
    &&& t[0] == '#'
    &&& hex.len() == 3 || hex.len() == 6 || hex.len() == 8
    &&& forall|i: int| 0 <= i < hex.len() ==> crate::text::is_ascii_hex(#[trigger] hex[i])
}

/// `t.lines().count() >= 2`: a line break that is not the last character.
pub open spec fn two_lines(t: Seq<char>) -> bool {
    exists|i: int| 0 <= i < t.len() - 1 && #[trigger] t[i] == '\n'
}

/// Mentions one of the code markers.
pub open spec fn has_code_marker(t: Seq<char>) -> bool {
    ||| contains_seq(t, "->"@)
    ||| contains_seq(t, "=>"@)
    ||| contains_seq(t, "::"@)
    ||| contains_seq(t, "fn "@)
    ||| contains_seq(t, "let "@)
    ||| contains_seq(t, "const "@)
    ||| contains_seq(t, "import "@)
    ||| contains_seq(t, "def "@)
    ||| contains_seq(t, "<?php"@)
    ||| contains_seq(t, "#!/"@)
    ||| contains_seq(t, "};"@)
}

pub open spec fn code_spec(t: Seq<char>) -> bool {
    two_lines(t) && has_code_marker(t)
}

/// The kind of a clipboard text, decided on the trimmed text.
pub open spec fn classify_spec(text: Seq<char>) -> Seq<char> {
    let t = trim_seq(text);
    if (starts_with_seq(t, "http://"@) || starts_with_seq(t, "https://"@)) && !has_ws(t) {
        "link"@
    } else if css_color_spec(t) {
        "color"@
    } else if code_spec(t) {
        "code"@
    } else {
        "text"@
    }
}

fn any_whitespace(t: &Vec<char>) -> (b: bool)
    ensures
        b == has_ws(t@),
{
    let mut i: usize = 0;
    while i < t.len()
        invariant
            i <= t.len(),
            forall|j: int| 0 <= j < i ==> !is_ws(#[trigger] t@[j]),
        decreases t.len() - i,
    {
        if is_whitespace(t[i]) {
            return true;
        }
        i = i + 1;
    }
    false
}

fn is_hex_digit(c: char) -> (b: bool)
    ensures
        b == crate::text::is_ascii_hex(c),
{
    ('0' <= c && c <= '9') || ('a' <= c && c <= 'f') || ('A' <= c && c <= 'F')
}

fn css_color_chars(t: &Vec<char>) -> (b: bool)
    ensures
        b == css_color_spec(t@),
{
    if t.len() == 0 || t[0] != '#' {
        return false;
    }
    let n = t.len() - 1;
    if n != 3 && n != 6 && n != 8 {
        return false;
    }
    let mut i: usize = 1;
    while i < t.len()
        invariant
            1 <= i <= t.len(),
            forall|j: int| 1 <= j < i ==> crate::text::is_ascii_hex(#[trigger] t@[j]),
        decreases t.len() - i,
    {
        if !is_hex_digit(t[i]) {
            assert(t@.skip(1)[i - 1] == t@[i as int]);
            return false;
        }
        i = i + 1;
    }
    assert forall|j: int| 0 <= j < t@.skip(1).len() implies crate::text::is_ascii_hex(
        #[trigger] t@.skip(1)[j],
    ) by {
        assert(t@.skip(1)[j] == t@[j + 1]);
    }
    true
}

/// A CSS hex color: `#` then 3, 6 or 8 hex digits.
pub fn is_css_color(t: &str) -> (b: bool)
    ensures
        b == css_color_spec(t@),
{
    let v = chars_of(t);
    css_color_chars(&v)
}

fn two_lines_chars(t: &Vec<char>) -> (b: bool)
    ensures
        b == two_lines(t@),
{
    if t.len() < 2 {
        return false;
    }
    let mut i: usize = 0;
    while i < t.len() - 1
        invariant
            t.len() >= 2,
            i <= t.len() - 1,
            forall|j: int| 0 <= j < i ==> #[trigger] t@[j] != '\n',
        decreases t.len() - 1 - i,
    {
        if t[i] == '\n' {
            return true;
        }
        i = i + 1;
    }
    false
}

fn has_marker(t: &Vec<char>, m: &str) -> (b: bool)
    ensures
        b == contains_seq(t@, m@),
{
    let mv = chars_of(m);
    contains_chars(t, &mv)
}

fn code_chars(t: &Vec<char>) -> (b: bool)
    ensures
        b == code_spec(t@),
{
    two_lines_chars(t) && (has_marker(t, "->") || has_marker(t, "=>") || has_marker(t, "::")
        || has_marker(t, "fn ") || has_marker(t, "let ") || has_marker(t, "const ") || has_marker(
        t,
        "import ",
    ) || has_marker(t, "def ") || has_marker(t, "<?php") || has_marker(t, "#!/") || has_marker(
        t,
        "};",
    ))
}

/// Looks like source code: at least two lines and a code marker.
pub fn looks_like_code(t: &str) -> (b: bool)
    ensures
        b == code_spec(t@),
{
    let v = chars_of(t);
    code_chars(&v)
}

/// The kind of a clipboard text: "link", "color", "code" or "text".
pub fn classify(text: &str) -> (k: &'static str)
    ensures
        k@ == classify_spec(text@),
{
    let v = chars_of(text);
    let t = trim_chars(&v);
    let http = chars_of("http://");
    let https = chars_of("https://");
    if (starts_with_chars(&t, &http) || starts_with_chars(&t, &https)) && !any_whitespace(&t) {
        "link"
    } else if css_color_chars(&t) {
        "color"
    } else if code_chars(&t) {
        "code"
    } else {
        "text"
    }
}

/// A link's page title is looked up only for texts classified as links.
pub fn wants_link_title(text: &str) -> (b: bool)
    ensures
        b == (classify_spec(text@) == "link"@),
{
    let k = classify(text);
    let v = chars_of(k);
    same_text(&v, "link")
}

/// The whitespace-collapsed text, cut to `len` characters.
pub open spec fn preview_spec(text: Seq<char>, len: nat) -> Seq<char> {
    let c = collapse_ws(text);
    c.take(if c.len() < len { c.len() as int } else { len as int })
}

/// Words of the text joined by single spaces, first `len` characters.
pub fn preview_of(text: &str, len: usize) -> (p: String)
    ensures
        p@ == preview_spec(text@, len as nat),
{
    collapsed_prefix(text, len)
}

// ---------------------------------------------------------------------------
// The watcher's state
// ---------------------------------------------------------------------------

/// What the watcher learnt from one clipboard read.
#[derive(Debug)]
pub enum Observation {
    /// Nothing to record: no text, blank text, or the same text as last time.
    Unchanged,
    /// The text the app itself just put on the clipboard (recorded once, skipped).
    SelfCopy,
    /// New text, with its hash; record it unless the history already has it.
    Fresh { text: String, hash: String },
}

#[derive(Clone, Copy, Debug, PartialEq, Eq, Structural)]
pub enum ClipboardError {
    NotFound,
    Crypto(CryptoError),
}

impl ClipboardError {
    pub fn message(&self) -> (s: &'static str)
        ensures
            s@ == match *self {
                ClipboardError::NotFound => "clipboard item not found"@,
                ClipboardError::Crypto(e) => crypto_message(e),
            },
    {
        match self {
            ClipboardError::NotFound => "clipboard item not found",
            ClipboardError::Crypto(e) => e.message(),
        }
    }
}

/// The watcher's memory between reads.
pub struct ClipboardService {
    /// Hash of the last item the app put on the clipboard itself, so that
    /// recalling an item does not record it again.
    pub self_hash: Option<String>,
    /// Hash of the last text seen on the clipboard.
    pub last_seen_hash: Option<String>,
}

pub open spec fn opt_view(o: Option<String>) -> Option<Seq<char>> {
    match o {
        Some(s) => Some(s@),
        None => None,
    }
}

/// The hash a clipboard read is judged by: `None` for no text or blank text.
pub open spec fn read_hash(clip: Option<Seq<char>>) -> Option<Seq<char>> {
    match clip {
        Some(t) => if trim_seq(t).len() == 0 {
            None
        } else {
            Some(text_hash(t))
        },
        None => None,
    }
}

/// The read shows text that differs from the last one seen.
pub open spec fn read_changed(last_seen: Option<Seq<char>>, clip: Option<Seq<char>>) -> bool {
    read_hash(clip) is Some && last_seen != read_hash(clip)
}

/// The read is new text the app did not put there itself.
pub open spec fn observes_fresh(
    self_hash: Option<Seq<char>>,
    last_seen: Option<Seq<char>>,
    clip: Option<Seq<char>>,
) -> bool {
    read_changed(last_seen, clip) && self_hash != read_hash(clip)
}

/// The read is the text the app itself just put on the clipboard.
pub open spec fn observes_own(
    self_hash: Option<Seq<char>>,
    last_seen: Option<Seq<char>>,
    clip: Option<Seq<char>>,
) -> bool {
    read_changed(last_seen, clip) && self_hash == read_hash(clip)
}

/// The last hash seen after a read.
pub open spec fn next_last_seen(last_seen: Option<Seq<char>>, clip: Option<Seq<char>>) -> Option<
    Seq<char>,
> {
    if read_changed(last_seen, clip) {
        read_hash(clip)
    } else {
        last_seen
    }
}

/// The app's own-copy marker after a read: consumed by the read it announced.
pub open spec fn next_self_hash(
    self_hash: Option<Seq<char>>,
    last_seen: Option<Seq<char>>,
    clip: Option<Seq<char>>,
) -> Option<Seq<char>> {
    if observes_own(self_hash, last_seen, clip) {
        None
    } else {
        self_hash
    }
}

/// The row fields a history item shows, with its decrypted content.
pub open spec fn dto_of(d: ClipboardItemDto, row: ClipboardRow, content: Seq<char>) -> bool {
    &&& d.id@ == row.id@
    &&& d.kind@ == row.kind@
    &&& d.content@ == content
    &&& d.preview@ == row.preview@
    &&& opt_view(d.link_title) == opt_view(row.link_title)
    &&& d.pinned == row.pinned
    &&& d.created_at == row.created_at
    &&& d.use_count == row.use_count
}

/// `d` is the history item for `row`, whose content decrypts under `key`.
pub open spec fn item_of(key: Seq<u8>, d: ClipboardItemDto, row: ClipboardRow) -> bool {
    open_blob_text(key, row.content@) matches Ok(c) && dto_of(d, row, c)
}

fn copy_opt(o: &Option<String>) -> (r: Option<String>)
    ensures
        opt_view(r) == opt_view(*o),
{
    match o {
        Some(s) => Some(s.clone()),
        None => None,
    }
}

/// `Uuid::new_v4().to_string()` (uuid). Claimed: the hyphenated form, 36
/// characters long; the value itself is random and nothing more is said of it.
#[verifier::external_body]
pub(crate) fn new_uuid() -> (s: String)
    ensures
        s@.len() == 36,
{
    uuid::Uuid::new_v4().to_string()
}

impl ClipboardService {
    pub fn new() -> (s: Self)
        ensures
            s.self_hash is None,
            s.last_seen_hash is None,
    {
        ClipboardService { self_hash: None, last_seen_hash: None }
    }

    /// One clipboard read (`None` when it held no text).
    ///
    /// Blank text is ignored. Otherwise the text's hash is compared with the
    /// last one seen: the same hash is ignored; a new one is remembered, and
    /// if it is the hash of what the app itself put there the item is skipped
    /// once and forgotten.
    pub fn observe(&mut self, clip: Option<String>) -> (o: Observation)
        ensures
            (o is Fresh) == observes_fresh(
                opt_view(old(self).self_hash),
                opt_view(old(self).last_seen_hash),
                opt_view(clip),
            ),
            (o is SelfCopy) == observes_own(
                opt_view(old(self).self_hash),
                opt_view(old(self).last_seen_hash),
                opt_view(clip),
            ),
            opt_view(final(self).last_seen_hash) == next_last_seen(
                opt_view(old(self).last_seen_hash),
                opt_view(clip),
            ),
            opt_view(final(self).self_hash) == next_self_hash(
                opt_view(old(self).self_hash),
                opt_view(old(self).last_seen_hash),
                opt_view(clip),
            ),
            o matches Observation::Fresh { text, hash } ==> clip matches Some(t) && text@ == t@
                && hash@ == text_hash(t@),
    {
        let text = match clip {
            None => return Observation::Unchanged,
            Some(t) => t,
        };
        if is_blank(text.as_str()) {
            return Observation::Unchanged;
        }
        let hash = hex_sha256(text.as_str().as_bytes());
        let seen = match &self.last_seen_hash {
            Some(h) => h.eq(&hash),
            None => false,
        };
        if seen {
            return Observation::Unchanged;
        }
        self.last_seen_hash = Some(hash.clone());
        let mine = match &self.self_hash {
            Some(h) => h.eq(&hash),
            None => false,
        };
        if mine {
            self.self_hash = None;
            return Observation::SelfCopy;
        }
        Observation::Fresh { text, hash }
    }

    /// A history row for new clipboard text: random id, the text's kind and
    /// preview, its encrypted content, created at `now`.
    pub fn new_row(
        crypto: &Crypto,
        text: &str,
        hash: String,
        link_title: Option<String>,
        now: i64,
    ) -> (r: Result<ClipboardRow, CryptoError>)
        ensures
            r is Ok <==> text.spec_bytes().len() <= MAX_PLAINTEXT,
            r is Err ==> r == Err::<ClipboardRow, CryptoError>(CryptoError::EncryptionFailed),
            r matches Ok(row) ==> {
                &&& row.id@.len() == 36
                &&& row.kind@ == classify_spec(text@)
                &&& open_blob_text(crypto@, row.content@) == Ok::<Seq<char>, CryptoError>(text@)
                &&& row.preview@ == preview_spec(text@, PREVIEW_LEN as nat)
                &&& opt_view(row.link_title) == opt_view(link_title)
                &&& row.hash@ == hash@
                &&& !row.pinned
                &&& row.use_count == 1
                &&& row.created_at == now
            },
    {
        let content = match crypto.encrypt_str(text) {
            Ok(c) => c,
            Err(e) => return Err(e),
        };
        let kind = classify(text);
        Ok(
            ClipboardRow {
                id: new_uuid(),
                kind: crate::text::owned(kind),
                content,
                preview: preview_of(text, PREVIEW_LEN),
                link_title,
                hash,
                pinned: false,
                created_at: now,
                use_count: 1,
            },
        )
    }

    /// The history item for a stored row, with its content decrypted.
    pub fn to_dto(crypto: &Crypto, row: &ClipboardRow) -> (r: Result<ClipboardItemDto, CryptoError>)
        ensures
            match r {
                Ok(d) => item_of(crypto@, d, *row),
                Err(e) => open_blob_text(crypto@, row.content@) == Err::<Seq<char>, CryptoError>(
                    e,
                ),
            },
    {
        let content = match crypto.decrypt_str(row.content.as_slice()) {
            Ok(c) => c,
            Err(e) => return Err(e),
        };
        let d = ClipboardItemDto {
            id: row.id.clone(),
            kind: row.kind.clone(),
            content,
            preview: row.preview.clone(),
            link_title: copy_opt(&row.link_title),
            pinned: row.pinned,
            created_at: row.created_at,
            use_count: row.use_count,
        };
        assert(dto_of(d, *row, d.content@));
        Ok(d)
    }

    /// The history listing for the stored rows (already filtered and
    /// ordered), in the same order; the first row that fails to decrypt
    /// fails the whole listing.
    pub fn history(crypto: &Crypto, rows: &Vec<ClipboardRow>) -> (r: Result<
        Vec<ClipboardItemDto>,
        CryptoError,
    >)
        ensures
            match r {
                Ok(items) => items.len() == rows.len() && forall|i: int|
                    0 <= i < rows.len() ==> #[trigger] item_of(crypto@, items@[i], rows@[i]),
                Err(e) => exists|k: int|
                    0 <= k < rows.len() && open_blob_text(crypto@, #[trigger] rows@[k].content@)
                        == Err::<Seq<char>, CryptoError>(e) && forall|i: int|
                        0 <= i < k ==> open_blob_text(crypto@, #[trigger] rows@[i].content@) is Ok,
            },
    {
        let mut items: Vec<ClipboardItemDto> = Vec::new();
        let mut i: usize = 0;
        while i < rows.len()
            invariant
                i <= rows.len(),
                items.len() == i,
                forall|j: int| 0 <= j < i ==> #[trigger] item_of(crypto@, items@[j], rows@[j]),
            decreases rows.len() - i,
        {
            match ClipboardService::to_dto(crypto, &rows[i]) {
                Ok(d) => items.push(d),
                Err(e) => {
                    assert forall|j: int| 0 <= j < i implies open_blob_text(
                        crypto@,
                        #[trigger] rows@[j].content@,
                    ) is Ok by {
                        assert(item_of(crypto@, items@[j], rows@[j]));
                    }
                    return Err(e);
                },
            }
            i = i + 1;
        }
        Ok(items)
    }

    /// Recalls a stored item to put it back on the clipboard: returns its
    /// text and remembers its hash so the watcher does not record it again.
    pub fn copy(&mut self, crypto: &Crypto, row: Option<ClipboardRow>) -> (r: Result<
        String,
        ClipboardError,
    >)
        ensures
            match row {
                None => r == Err::<String, ClipboardError>(ClipboardError::NotFound)
                    && *final(self) == *old(self),
                Some(row) => match open_blob_text(crypto@, row.content@) {
                    Err(e) => r == Err::<String, ClipboardError>(ClipboardError::Crypto(e))
                        && *final(self) == *old(self),
                    Ok(c) => r matches Ok(s) && s@ == c && opt_view(final(self).self_hash) == Some(
                        text_hash(c),
                    ) && final(self).last_seen_hash == old(self).last_seen_hash,
                },
            },
    {
        let row = match row {
            None => return Err(ClipboardError::NotFound),
            Some(row) => row,
        };
        let content = match crypto.decrypt_str(row.content.as_slice()) {
            Ok(c) => c,
            Err(e) => return Err(ClipboardError::Crypto(e)),
        };
        self.self_hash = Some(hex_sha256(content.as_str().as_bytes()));
        Ok(content)
    }

    /// The item shown after (un)pinning: the re-read row, if it still exists.
    pub fn set_pinned(crypto: &Crypto, row: Option<ClipboardRow>) -> (r: Result<
        Option<ClipboardItemDto>,
        CryptoError,
    >)
        ensures
            match row {
                None => r matches Ok(None),
                Some(row) => match r {
                    Ok(Some(d)) => item_of(crypto@, d, row),
                    Ok(None) => false,
                    Err(e) => open_blob_text(crypto@, row.content@) == Err::<Seq<char>, CryptoError>(
                        e,
                    ),
                },
            },
    {
        match row {
            None => Ok(None),
            Some(row) => match ClipboardService::to_dto(crypto, &row) {
                Ok(d) => Ok(Some(d)),
                Err(e) => Err(e),
            },
        }
    }
}

// ---------------------------------------------------------------------------
// Laws of the watcher
// ---------------------------------------------------------------------------

/// Recalling an item marks its text as the app's own (`copy`), and the
/// watcher then never records that text as new: the next read of it is the
/// app's own copy exactly when the clipboard changed, and that read spends
/// the marker.
pub proof fn lemma_recalled_text_not_recorded(last_seen: Option<Seq<char>>, content: Seq<char>)
    ensures
        !observes_fresh(Some(text_hash(content)), last_seen, Some(content)),
        observes_own(Some(text_hash(content)), last_seen, Some(content)) == read_changed(
            last_seen,
            Some(content),
        ),
        read_changed(last_seen, Some(content)) ==> next_self_hash(
            Some(text_hash(content)),
            last_seen,
            Some(content),
        ) is None,
{
}

/// The same text is taken in at most once in a row: right after a read, an
/// identical read is neither new nor the app's own, and changes nothing.
pub proof fn lemma_repeated_read_ignored(
    self_hash: Option<Seq<char>>,
    last_seen: Option<Seq<char>>,
    text: Seq<char>,
)
    ensures
        ({
            let l = next_last_seen(last_seen, Some(text));
            let m = next_self_hash(self_hash, last_seen, Some(text));
            &&& !observes_fresh(m, l, Some(text))
            &&& !observes_own(m, l, Some(text))
            &&& next_last_seen(l, Some(text)) == l
            &&& next_self_hash(m, l, Some(text)) == m
        }),
{
}

// ---------------------------------------------------------------------------
// Link titles
// ---------------------------------------------------------------------------

/// Characters kept of a page title.
pub const TITLE_LEN: usize = 140;

/// `tag` (lower-case ASCII) occurs in `t` at `i`, letters compared without
/// regard to ASCII case.
pub open spec fn tag_at(t: Seq<char>, tag: Seq<char>, i: int) -> bool {
    0 <= i && i + tag.len() <= t.len() && forall|k: int|
        0 <= k < tag.len() ==> ascii_lower(#[trigger] t[i + k]) == tag[k]
}

/// The first position at or after `i` where `tag` occurs in `t`.
pub open spec fn first_tag_from(t: Seq<char>, tag: Seq<char>, i: int) -> Option<int>
    decreases t.len() - i,
{
    if i < 0 || i + tag.len() > t.len() {
        None
    } else if tag_at(t, tag, i) {
        Some(i)
    } else {
        first_tag_from(t, tag, i + 1)
    }
}

/// The title of a page: the text between the first `<title>` and the next
/// `</title>` (tags in any letter case), trimmed, at most 140 characters;
/// none when either tag is missing or the title is blank.
pub open spec fn title_spec(body: Seq<char>) -> Option<Seq<char>> {
    match first_tag_from(body, "<title>"@, 0) {
        Some(i) => match first_tag_from(body, "</title>"@, i + 7) {
            Some(e) => {
                let t = trim_seq(body.subrange(i + 7, e));
                if t.len() == 0 {
                    None
                } else if t.len() <= TITLE_LEN {
                    Some(t)
                } else {
                    Some(t.take(TITLE_LEN as int))
                }
            },
            None => None,
        },
        None => None,
    }
}

/// The first occurrence of `tag` in `t` at or after `from`.
fn find_tag(t: &Vec<char>, tag: &Vec<char>, from: usize) -> (r: Option<usize>)
    requires
        tag.len() > 0,
        from <= t.len(),
    ensures
        match r {
            Some(i) => first_tag_from(t@, tag@, from as int) == Some(i as int) && from <= i && i
                + tag.len() <= t.len(),
            None => first_tag_from(t@, tag@, from as int) is None,
        },
{
    let n = t.len();
    let m = tag.len();
    if m > n {
        return None;
    }
    let mut i: usize = from;
    while i <= n - m
        invariant
            n == t.len(),
            m == tag.len(),
            0 < m <= n,
            from <= i,
            i <= n,
            first_tag_from(t@, tag@, from as int) == first_tag_from(t@, tag@, i as int),
        decreases n - i,
    {
        let mut k: usize = 0;
        while k < m && to_ascii_lower(t[i + k]) == tag[k]
            invariant
                i + m <= n == t.len(),
                m == tag.len(),
                k <= m,
                forall|j: int| 0 <= j < k ==> ascii_lower(#[trigger] t@[i + j]) == tag@[j],
            decreases m - k,
        {
            k = k + 1;
        }
        if k == m {
            assert(tag_at(t@, tag@, i as int));
            return Some(i);
        }
        assert(!tag_at(t@, tag@, i as int)) by {
            assert(ascii_lower(t@[i + k as int]) != tag@[k as int]);
        }
        i = i + 1;
    }
    None
}

/// The title of a fetched page (see `title_spec`).
pub fn page_title(body: &str) -> (r: Option<String>)
    ensures
        opt_view(r) == title_spec(body@),
{
    let t = chars_of(body);
    let open = chars_of("<title>");
    let close = chars_of("</title>");
    proof {
        reveal_strlit("<title>");
        reveal_strlit("</title>");
    }
    let start = match find_tag(&t, &open, 0) {
        Some(i) => i + 7,
        None => return None,
    };
    let end = match find_tag(&t, &close, start) {
        Some(e) => e,
        None => return None,
    };
    let piece = slice_chars(&t, start, end);
    let trimmed = trim_chars(&piece);
    if trimmed.len() == 0 {
        return None;
    }
    let keep = if trimmed.len() <= TITLE_LEN {
        trimmed.len()
    } else {
        TITLE_LEN
    };
    let title = string_from_range(&trimmed, 0, keep);
    proof {
        if trimmed.len() <= TITLE_LEN {
            assert(trimmed@.subrange(0, keep as int) =~= trimmed@);
        } else {
            assert(trimmed@.subrange(0, keep as int) =~= trimmed@.take(TITLE_LEN as int));
        }
    }
    Some(title)
}

// ---------------------------------------------------------------------------
// Trimming the history
// ---------------------------------------------------------------------------

/// What trimming reads of a stored history item.
#[derive(Debug)]
pub struct StoredItem {
    pub id: String,
    pub pinned: bool,
    pub created_at: i64,
}

/// Item `j` comes before item `i` in the newest-first order of the unpinned
/// items (ties: the earlier stored first).
pub open spec fn ahead(s: Seq<StoredItem>, j: int, i: int) -> bool {
    !s[j].pinned && (s[j].created_at > s[i].created_at || (s[j].created_at == s[i].created_at
        && j < i))
}

/// How many of the first `k` items come before item `i`.
pub open spec fn ahead_count(s: Seq<StoredItem>, i: int, k: int) -> nat
    decreases k,
{
    if k <= 0 {
        0
    } else {
        ahead_count(s, i, k - 1) + if ahead(s, k - 1, i) {
            1nat
        } else {
            0nat
        }
    }
}

/// The place of item `i` among the unpinned items, newest first (0 = newest).
pub open spec fn newness_rank(s: Seq<StoredItem>, i: int) -> nat {
    ahead_count(s, i, s.len() as int)
}

/// Trimming to `max` removes item `i`: it is unpinned and not among the
/// `max` newest unpinned items. A negative `max` keeps everything.
pub open spec fn trimmed(s: Seq<StoredItem>, max: i64, i: int) -> bool {
    !s[i].pinned && 0 <= max && newness_rank(s, i) >= max
}

/// The ids removed by trimming, in stored order, among the first `k` items.
pub open spec fn trim_ids(s: Seq<StoredItem>, max: i64, k: int) -> Seq<Seq<char>>
    decreases k,
{
    if k <= 0 {
        Seq::empty()
    } else if trimmed(s, max, k - 1) {
        trim_ids(s, max, k - 1).push(s[k - 1].id@)
    } else {
        trim_ids(s, max, k - 1)
    }
}

fn is_ahead(items: &Vec<StoredItem>, j: usize, i: usize) -> (b: bool)
    requires
        j < items.len(),
        i < items.len(),
    ensures
        b == ahead(items@, j as int, i as int),
{
    !items[j].pinned && (items[j].created_at > items[i].created_at || (items[j].created_at
        == items[i].created_at && j < i))
}

/// The ids to delete so that the history keeps its pinned items and the
/// `max` newest unpinned ones.
pub fn trim_plan(items: &Vec<StoredItem>, max: i64) -> (r: Vec<String>)
    ensures
        r@.map_values(|id: String| id@) == trim_ids(items@, max, items.len() as int),
{
    let n = items.len();
    let mut r: Vec<String> = Vec::new();
    let mut i: usize = 0;
    while i < n
        invariant
            i <= n == items.len(),
            r@.map_values(|id: String| id@) == trim_ids(items@, max, i as int),
        decreases n - i,
    {
        let mut count: usize = 0;
        let mut j: usize = 0;
        while j < n
            invariant
                i < n == items.len(),
                j <= n,
                count == ahead_count(items@, i as int, j as int),
                count <= j,
            decreases n - j,
        {
            if is_ahead(items, j, i) {
                count = count + 1;
            }
            j = j + 1;
        }
        let ghost pre = r@;
        if !items[i].pinned && max >= 0 && count as u64 >= max as u64 {
            r.push(items[i].id.clone());
            proof {
                assert(r@.map_values(|id: String| id@) =~= pre.map_values(|id: String| id@).push(
                    items@[i as int].id@,
                ));
            }
        }
        i = i + 1;
    }
    r
}

proof fn lemma_ahead_count_more(s: Seq<StoredItem>, i: int, j: int, w: int, k: int)
    requires
        forall|x: int| 0 <= x < k && #[trigger] ahead(s, x, i) ==> ahead(s, x, j),
        0 <= w < k,
        ahead(s, w, j),
        !ahead(s, w, i),
    ensures
        ahead_count(s, j, k) >= ahead_count(s, i, k) + 1,
    decreases k,
{
    if k - 1 > w {
        lemma_ahead_count_more(s, i, j, w, k - 1);
        assert(ahead(s, k - 1, i) ==> ahead(s, k - 1, j));
    } else {
        lemma_ahead_count_mono(s, i, j, k - 1);
    }
}

proof fn lemma_ahead_count_mono(s: Seq<StoredItem>, i: int, j: int, k: int)
    requires
        forall|x: int| 0 <= x < k && #[trigger] ahead(s, x, i) ==> ahead(s, x, j),
    ensures
        ahead_count(s, j, k) >= ahead_count(s, i, k),
    decreases k,
{
    if k > 0 {
        lemma_ahead_count_mono(s, i, j, k - 1);
        assert(ahead(s, k - 1, i) ==> ahead(s, k - 1, j));
    }
}

/// Two distinct unpinned items: the one ahead has the smaller rank.
proof fn lemma_rank_strict(s: Seq<StoredItem>, i: int, j: int)
    requires
        0 <= i < s.len(),
        0 <= j < s.len(),
        ahead(s, i, j),
    ensures
        newness_rank(s, j) >= newness_rank(s, i) + 1,
{
    assert forall|x: int| 0 <= x < s.len() && #[trigger] ahead(s, x, i) implies ahead(s, x, j) by {}
    assert(!ahead(s, i, i));
    lemma_ahead_count_more(s, i, j, i, s.len() as int);
}

/// Trimming keeps every pinned item, and only removes unpinned items that
/// are no newer than every unpinned item it keeps.
pub proof fn lemma_trim_keeps_pinned_and_newest(s: Seq<StoredItem>, max: i64, i: int, j: int)
    requires
        0 <= i < s.len(),
        0 <= j < s.len(),
    ensures
        s[i].pinned ==> !trimmed(s, max, i),
        trimmed(s, max, i) && !s[j].pinned && !trimmed(s, max, j) ==> s[i].created_at
            <= s[j].created_at,
{
    if trimmed(s, max, i) && !s[j].pinned && !trimmed(s, max, j) && s[i].created_at
        > s[j].created_at {
        assert(ahead(s, i, j));
        lemma_rank_strict(s, i, j);
    }
}

/// The unpinned items a trim keeps.
pub open spec fn kept_unpinned(s: Seq<StoredItem>, max: i64) -> Set<int> {
    Set::new(|i: int| 0 <= i < s.len() && !s[i].pinned && !trimmed(s, max, i))
}

/// The unpinned items.
pub open spec fn unpinned(s: Seq<StoredItem>) -> Set<int> {
    Set::new(|i: int| 0 <= i < s.len() && !s[i].pinned)
}

spec fn ahead_set(s: Seq<StoredItem>, i: int, k: int) -> Set<int> {
    Set::new(|j: int| 0 <= j < k && ahead(s, j, i))
}

proof fn lemma_ahead_count_set(s: Seq<StoredItem>, i: int, k: int)
    requires
        0 <= k,
    ensures
        ahead_set(s, i, k).finite(),
        ahead_count(s, i, k) == ahead_set(s, i, k).len(),
    decreases k,
{
    if k == 0 {
        assert(ahead_set(s, i, 0) =~= Set::<int>::empty());
    } else {
        lemma_ahead_count_set(s, i, k - 1);
        if ahead(s, k - 1, i) {
            assert(ahead_set(s, i, k) =~= ahead_set(s, i, k - 1).insert(k - 1));
        } else {
            assert(ahead_set(s, i, k) =~= ahead_set(s, i, k - 1));
        }
    }
}

proof fn lemma_unpinned_finite(s: Seq<StoredItem>)
    ensures
        unpinned(s).finite(),
        unpinned(s).len() <= s.len(),
{
    vstd::set_lib::lemma_int_range(0, s.len() as int);
    assert(unpinned(s).subset_of(vstd::set_lib::set_int_range(0, s.len() as int)));
    vstd::set_lib::lemma_len_subset(unpinned(s), vstd::set_lib::set_int_range(0, s.len() as int));
}

/// An unpinned item has fewer unpinned items ahead of it than there are.
proof fn lemma_rank_below_unpinned(s: Seq<StoredItem>, i: int)
    requires
        0 <= i < s.len(),
        !s[i].pinned,
    ensures
        newness_rank(s, i) < unpinned(s).len(),
{
    lemma_unpinned_finite(s);
    lemma_ahead_count_set(s, i, s.len() as int);
    let u = unpinned(s);
    assert(ahead_set(s, i, s.len() as int).subset_of(u.remove(i)));
    vstd::set_lib::lemma_len_subset(ahead_set(s, i, s.len() as int), u.remove(i));
    assert(u.contains(i));
}

proof fn lemma_rank_injective(s: Seq<StoredItem>, a: int, b: int)
    requires
        0 <= a < s.len(),
        0 <= b < s.len(),
        !s[a].pinned,
        !s[b].pinned,
        a != b,
    ensures
        newness_rank(s, a) != newness_rank(s, b),
{
    if ahead(s, a, b) {
        lemma_rank_strict(s, a, b);
    } else {
        assert(ahead(s, b, a));
        lemma_rank_strict(s, b, a);
    }
}

/// Trimming to `max` (not negative) leaves exactly `max` unpinned items, or
/// all of them when there are fewer.
pub proof fn lemma_trim_keeps_exactly(s: Seq<StoredItem>, max: i64)
    requires
        max >= 0,
    ensures
        unpinned(s).finite(),
        kept_unpinned(s, max).finite(),
        kept_unpinned(s, max).len() == (if unpinned(s).len() < max {
            unpinned(s).len()
        } else {
            max as nat
        }),
{
    let u = unpinned(s);
    let k = kept_unpinned(s, max);
    let n = u.len() as int;
    let m = if n < max { n } else { max as int };
    let f = |i: int| newness_rank(s, i) as int;
    lemma_unpinned_finite(s);
    assert(k.subset_of(u));
    vstd::set_lib::lemma_len_subset(k, u);
    assert forall|a: int, b: int| u.contains(a) && u.contains(b) && #[trigger] f(a) == #[trigger] f(
        b,
    ) implies a == b by {
        if a != b {
            lemma_rank_injective(s, a, b);
        }
    }
    let ranks = u.map(f);
    vstd::set_lib::lemma_map_size(u, ranks, f);
    let all = vstd::set_lib::set_int_range(0, n);
    vstd::set_lib::lemma_int_range(0, n);
    assert forall|r: int| ranks.contains(r) implies all.contains(r) by {
        let x = choose|x: int| u.contains(x) && f(x) == r;
        lemma_rank_below_unpinned(s, x);
    }
    vstd::set_lib::lemma_subset_equality(ranks, all);
    let kept_ranks = k.map(f);
    let low = vstd::set_lib::set_int_range(0, m);
    vstd::set_lib::lemma_int_range(0, m);
    assert forall|r: int| kept_ranks.contains(r) implies low.contains(r) by {
        let x = choose|x: int| k.contains(x) && f(x) == r;
        lemma_rank_below_unpinned(s, x);
    }
    assert forall|r: int| low.contains(r) implies kept_ranks.contains(r) by {
        assert(all.contains(r));
        assert(ranks.contains(r));
        let x = choose|x: int| u.contains(x) && f(x) == r;
        assert(k.contains(x) && f(x) == r);
    }
    assert(kept_ranks =~= low);
    assert forall|a: int, b: int| k.contains(a) && k.contains(b) && #[trigger] f(a) == #[trigger] f(
        b,
    ) implies a == b by {
        if a != b {
            lemma_rank_injective(s, a, b);
        }
    }
    vstd::set_lib::lemma_map_size(k, kept_ranks, f);
}

// ---------------------------------------------------------------------------
// Laws of classification and of the watcher's reads
// ---------------------------------------------------------------------------

/// A text of at least two lines (once trimmed) that contains one of the code
/// markers `->`, `=>`, `::`, `fn `, `let `, `const `, `import `, `def `,
/// `<?php`, `#!/` or `};` is code, unless it is a link or a color; and a text
/// classified as code is such a text.
pub proof fn lemma_code_markers_make_code(text: Seq<char>)
    ensures
        ({
            let t = trim_seq(text);
            let k = classify_spec(text);
            let marked = contains_seq(t, "->"@) || contains_seq(t, "=>"@) || contains_seq(t, "::"@)
                || contains_seq(t, "fn "@) || contains_seq(t, "let "@) || contains_seq(t, "const "@)
                || contains_seq(t, "import "@) || contains_seq(t, "def "@) || contains_seq(
                t,
                "<?php"@,
            ) || contains_seq(t, "#!/"@) || contains_seq(t, "};"@);
            &&& (two_lines(t) && marked) ==> (k == "link"@ || k == "color"@ || k == "code"@)
            &&& k == "code"@ ==> (two_lines(t) && marked)
        }),
{
    reveal_strlit("link");
    reveal_strlit("color");
    reveal_strlit("code");
    reveal_strlit("text");
    assert("link"@[0] != "code"@[0]);
    assert("color"@.len() != "code"@.len());
    assert("text"@[0] != "code"@[0]);
}

/// A trimmed text that starts with `http://` or `https://` and holds no
/// whitespace is a link, and only such a text is; a trimmed text made of `#`
/// and 3, 6 or 8 ASCII hex digits is a color.
pub proof fn lemma_links_and_colors(text: Seq<char>)
    ensures
        ({
            let t = trim_seq(text);
            let k = classify_spec(text);
            let web = (t.len() >= 7 && t.take(7) == "http://"@) || (t.len() >= 8 && t.take(8)
                == "https://"@);
            let spaced = exists|i: int| 0 <= i < t.len() && is_ws(#[trigger] t[i]);
            &&& (web && !spaced) ==> k == "link"@
            &&& k == "link"@ ==> (web && !spaced)
            &&& (t.len() == 4 || t.len() == 7 || t.len() == 9) && t[0] == '#' && (forall|i: int|
                1 <= i < t.len() ==> crate::text::is_ascii_hex(#[trigger] t[i])) ==> k == "color"@
        }),
{
    reveal_strlit("link");
    reveal_strlit("color");
    reveal_strlit("code");
    reveal_strlit("text");
    reveal_strlit("http://");
    reveal_strlit("https://");
    assert("link"@[0] != "code"@[0]);
    assert("link"@[0] != "color"@[1]);
    assert("link"@.len() != "color"@.len());
    assert("text"@[0] != "link"@[0]);
    let t = trim_seq(text);
    if t.len() > 0 && t[0] == '#' {
        if t.len() >= 7 {
            assert(t.take(7)[0] == '#');
        }
        if t.len() >= 8 {
            assert(t.take(8)[0] == '#');
        }
        let hex = t.skip(1);
        if forall|j: int| 1 <= j < t.len() ==> crate::text::is_ascii_hex(#[trigger] t[j]) {
            assert forall|i: int| 0 <= i < hex.len() implies crate::text::is_ascii_hex(
                #[trigger] hex[i],
            ) by {
                assert(hex[i] == t[i + 1]);
            }
        }
    }
}

/// A read with no text, or only whitespace, is neither new nor the app's own
/// copy, and leaves the watcher as it was.
pub proof fn lemma_blank_read_ignored(
    self_hash: Option<Seq<char>>,
    last_seen: Option<Seq<char>>,
    clip: Option<Seq<char>>,
)
    requires
        clip matches Some(t) ==> trim_seq(t).len() == 0,
    ensures
        !observes_fresh(self_hash, last_seen, clip),
        !observes_own(self_hash, last_seen, clip),
        next_last_seen(last_seen, clip) == last_seen,
        next_self_hash(self_hash, last_seen, clip) == self_hash,
{
}

/// A non-blank read whose hash differs from the last hash seen and from the
/// app's own-copy marker is new text, whatever the marker holds; the read of
/// exactly the marked text is the app's own copy.
pub proof fn lemma_changed_read_is_fresh(
    self_hash: Option<Seq<char>>,
    last_seen: Option<Seq<char>>,
    text: Seq<char>,
)
    requires
        trim_seq(text).len() != 0,
        last_seen != Some(text_hash(text)),
    ensures
        self_hash != Some(text_hash(text)) ==> observes_fresh(self_hash, last_seen, Some(text)),
        self_hash == Some(text_hash(text)) ==> observes_own(self_hash, last_seen, Some(text)),
        next_last_seen(last_seen, Some(text)) == Some(text_hash(text)),
{
}

} // verus!
