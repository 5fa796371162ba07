//! The records the app stores, and the rules it queries them by.
//!
//! The tables themselves live in an SQLite file that the app opens; what is
//! decided here is what goes into a row, how a search text becomes a `LIKE`
//! pattern, and where the age cut-offs fall.

use vstd::prelude::*;

use crate::text::{chars_of, is_blank, owned, string_from_chars};

verus! {

/// Seconds since the Unix epoch, from the system clock (`SystemTime::now`);
/// 0 when the clock reads before the epoch. Claimed: the value is never
/// negative (whole seconds since the epoch fit in an `i64` on the platforms
/// the system clock supports); nothing else is promised of it.
#[verifier::external_body]
pub fn now() -> (t: i64)
    ensures
        t >= 0,
{
    match std::time::SystemTime::now().duration_since(std::time::UNIX_EPOCH) {
        Ok(d) => d.as_secs() as i64,
        Err(_) => 0,
    }
}

/// Free-tier history size.
pub const DEFAULT_MAX_CLIPBOARD_ITEMS: i64 = 20;

#[derive(Debug)]
pub struct AppSettings {
    pub hotkey: String,
    pub launch_at_login: bool,
    pub max_clipboard_items: i64,
    pub clipboard_monitoring: bool,
    pub text_capture_enabled: bool,
}

impl Default for AppSettings {
    fn default() -> (s: Self)
        ensures
            s.hotkey@ == "Alt+Space"@,
            s.launch_at_login,
            s.max_clipboard_items == DEFAULT_MAX_CLIPBOARD_ITEMS,
            s.clipboard_monitoring,
            s.text_capture_enabled,
    {
        AppSettings {
            hotkey: owned("Alt+Space"),
            launch_at_login: true,
            max_clipboard_items: DEFAULT_MAX_CLIPBOARD_ITEMS,
            clipboard_monitoring: true,
            text_capture_enabled: true,
        }
    }
}

/// A Smart Clipboard history row.
#[derive(Debug)]
pub struct ClipboardRow {
    pub id: String,
    pub kind: String,
    /// Encrypted content (`nonce || ciphertext`).
    pub content: Vec<u8>,
    pub preview: String,
    pub link_title: Option<String>,
    pub hash: String,
    pub pinned: bool,
    pub created_at: i64,
    pub use_count: i64,
}

/// A Text Time Machine snapshot row.
#[derive(Debug)]
pub struct TextRow {
    pub id: String,
    pub app: String,
    pub title: String,
    /// Encrypted content (`nonce || ciphertext`).
    pub content: Vec<u8>,
    pub preview: String,
    pub created_at: i64,
}

/// `LIKE` escaping with `\` as the escape character: `%`, `_` and `\`
/// itself are preceded by a backslash, every other character is kept, so
/// that the query is matched literally.
pub open spec fn like_escape(q: Seq<char>) -> Seq<char>
    decreases q.len(),
{
    if q.len() == 0 {
        Seq::empty()
    } else {
        let c = q.last();
        let e = like_escape(q.drop_last());
        if c == '%' || c == '_' || c == '\\' {
            e.push('\\').push(c)
        } else {
            e.push(c)
        }
    }
}

/// The `LIKE` pattern for a search text: none for a missing or blank
/// query, otherwise the escaped query between two `%`.
pub open spec fn like_pattern_spec(query: Option<Seq<char>>) -> Option<Seq<char>> {
    match query {
        Some(q) => if crate::text::trim_seq(q).len() == 0 {
            None
        } else {
            Some(seq!['%'] + like_escape(q) + seq!['%'])
        },
        None => None,
    }
}

/// The substring pattern for a history or snapshot search.
pub fn like_pattern(query: Option<&str>) -> (p: Option<String>)
    ensures
        match p {
            Some(s) => like_pattern_spec(
                match query {
                    Some(q) => Some(q@),
                    None => None,
                },
            ) == Some(s@),
            None => like_pattern_spec(
                match query {
                    Some(q) => Some(q@),
                    None => None,
                },
            ) is None,
        },
{
    let q = match query {
        None => return None,
        Some(q) => q,
    };
    if is_blank(q) {
        return None;
    }
    let v = chars_of(q);
    let mut out: Vec<char> = Vec::new();
    out.push('%');
    let mut i: usize = 0;
    while i < v.len()
        invariant
            i <= v.len(),
            v@ == q@,
            out@ == seq!['%'] + like_escape(v@.take(i as int)),
        decreases v.len() - i,
    {
        let c = v[i];
        assert(v@.take(i + 1).drop_last() =~= v@.take(i as int));
        if c == '%' || c == '_' || c == '\\' {
            out.push('\\');
        }
        out.push(c);
        i = i + 1;
        assert(out@ =~= seq!['%'] + like_escape(v@.take(i as int)));
    }
    assert(v@.take(v.len() as int) =~= v@);
    out.push('%');
    Some(string_from_chars(&out))
}

/// The oldest creation time still kept when entries live `max_age_secs`.
pub fn cutoff(now: i64, max_age_secs: i64) -> (c: i64)
    requires
        i64::MIN <= now - max_age_secs <= i64::MAX,
    ensures
        c == now - max_age_secs,
{
    now - max_age_secs
}

} // verus!
