//! File declutter heuristics (Pro tier).
//!
//! A scan looks at the files of a folder (collected by the caller, in walk
//! order) and suggests what could go: exact duplicates (same size, same
//! content hash), leftover installers, very large archives and files left
//! untouched for 90 days. Suggestions are numbered `sug-1`, `sug-2`, ... in
//! the order they are found (duplicates first, then the per-file
//! heuristics), ordered largest first (ties keep that order) and capped at
//! 200.

use vstd::prelude::*;
use vstd::string::StringExecFns;

use crate::sort::{
    lemma_sort_len, lemma_sort_map, lemma_sort_permutes, lemma_sort_sorted, rank_fn, sort_desc,
    stable_sort_desc, Ranked,
};
use crate::text::{
    ascii_lower, chars_of, contains_chars, contains_seq, decimal_int, decimal_nat, hex_lower,
    same_text,
    i64_to_decimal, lower_seq, owned, to_ascii_lower, u64_to_decimal,
};

verus! {

/// Files older than this (seconds) count as "stale": 90 days.
pub const STALE_AFTER_SECS: i64 = 90 * 24 * 60 * 60;

/// Archives of at least this many bytes get the `LargeArchive` reason.
pub const LARGE_ARCHIVE_BYTES: u64 = 500 * 1024 * 1024;

/// Files larger than this are never hashed for duplicate detection.
pub const MAX_HASH_BYTES: u64 = 2 * 1024 * 1024 * 1024;

/// At most this many suggestions are returned.
pub const MAX_SUGGESTIONS: usize = 200;

/// File name of the on-device model.
pub const DEFAULT_MODEL_NAME: &'static str = "Llama-3.2-3B-Instruct-Q4_K_M";

#[derive(Clone, Copy, Debug, PartialEq, Eq, Structural)]
pub enum DeclutterReason {
    Duplicate,
    Stale,
    Installer,
    LargeArchive,
}

#[derive(Debug)]
pub struct DeclutterSuggestion {
    pub id: String,
    pub path: String,
    pub reason: DeclutterReason,
    pub detail: String,
    pub size_bytes: u64,
    pub category: String,
}

/// The mathematical value of a suggestion.
pub struct SuggestionView {
    pub id: Seq<char>,
    pub path: Seq<char>,
    pub reason: DeclutterReason,
    pub detail: Seq<char>,
    pub size_bytes: u64,
    pub category: Seq<char>,
}

impl View for DeclutterSuggestion {
    type V = SuggestionView;

    open spec fn view(&self) -> SuggestionView {
        SuggestionView {
            id: self.id@,
            path: self.path@,
            reason: self.reason,
            detail: self.detail@,
            size_bytes: self.size_bytes,
            category: self.category@,
        }
    }
}

impl Ranked for DeclutterSuggestion {
    open spec fn rank(&self) -> int {
        self.size_bytes as int
    }

    fn rank_ge(&self, other: &Self) -> (b: bool) {
        self.size_bytes >= other.size_bytes
    }
}

/// One regular file found under the scanned folder.
#[derive(Debug)]
pub struct FileEntry {
    /// Display form of the full path.
    pub path: String,
    /// The last path component.
    pub file_name: String,
    pub size: u64,
    /// Modification time, seconds since the Unix epoch.
    pub mtime: i64,
}

#[derive(Debug)]
pub struct ScanResultDto {
    pub folder: String,
    pub file_count: u64,
    pub total_bytes: u64,
    pub suggestions: Vec<DeclutterSuggestion>,
    /// category -> file count, one pair per category, in order of first appearance.
    pub categories: Vec<(String, u64)>,
}

/// A handle on the loaded on-device model.
#[derive(Debug)]
pub struct LoadedModel {
    pub path: String,
}

/// Loads the model file at `path` (the handle only records where it is).
pub fn load(path: &str) -> (m: LoadedModel)
    ensures
        m.path@ == path@,
{
    LoadedModel { path: owned(path) }
}

/// The model's file name: `<DEFAULT_MODEL_NAME>.gguf`.
pub fn model_filename() -> (s: String)
    ensures
        s@ == DEFAULT_MODEL_NAME@ + ".gguf"@,
{
    String::from_str(DEFAULT_MODEL_NAME).concat(".gguf")
}

// ---------------------------------------------------------------------------
// Names, extensions, categories
// ---------------------------------------------------------------------------

/// Index of the last `.` in `s`, or -1.
pub open spec fn last_dot(s: Seq<char>) -> int
    decreases s.len(),
{
    if s.len() == 0 {
        -1
    } else if s.last() == '.' {
        s.len() - 1
    } else {
        last_dot(s.drop_last())
    }
}

/// `Path::extension` of a file name: the text after the last `.`, unless
/// there is no `.`, the only `.` starts the name, or the name is `..`.
pub open spec fn extension_spec(name: Seq<char>) -> Option<Seq<char>> {
    let k = last_dot(name);
    if name == seq!['.', '.'] || k <= 0 {
        None
    } else {
        Some(name.skip(k + 1))
    }
}

/// The lower-cased extension, or the empty text when there is none.
pub open spec fn ext_key(name: Seq<char>) -> Seq<char> {
    match extension_spec(name) {
        Some(e) => lower_seq(e),
        None => Seq::empty(),
    }
}

proof fn lemma_last_dot(s: Seq<char>)
    ensures
        -1 <= last_dot(s) < s.len(),
        last_dot(s) >= 0 ==> s[last_dot(s)] == '.',
        forall|j: int| last_dot(s) < j < s.len() ==> #[trigger] s[j] != '.',
    decreases s.len(),
{
    if s.len() > 0 && s.last() != '.' {
        lemma_last_dot(s.drop_last());
        assert forall|j: int| last_dot(s) < j < s.len() implies #[trigger] s[j] != '.' by {
            if j < s.len() - 1 {
                assert(s[j] == s.drop_last()[j]);
            }
        }
    }
}

proof fn lemma_last_dot_is(s: Seq<char>, k: int)
    requires
        -1 <= k < s.len(),
        k >= 0 ==> s[k] == '.',
        forall|j: int| k < j < s.len() ==> #[trigger] s[j] != '.',
    ensures
        last_dot(s) == k,
    decreases s.len(),
{
    if s.len() > 0 && k < s.len() - 1 {
        assert(s[s.len() - 1] != '.');
        let d = s.drop_last();
        assert forall|j: int| k < j < d.len() implies #[trigger] d[j] != '.' by {
            assert(d[j] == s[j]);
        }
        lemma_last_dot_is(d, k);
    }
}

/// The lower-cased extension of a file name (empty when there is none).
pub fn extension_key(name: &Vec<char>) -> (r: Vec<char>)
    ensures
        r@ == ext_key(name@),
{
    let n = name.len();
    let mut k: usize = n;
    while k > 0 && name[k - 1] != '.'
        invariant
            k <= n == name.len(),
            forall|j: int| k <= j < n ==> #[trigger] name@[j] != '.',
        decreases k,
    {
        k = k - 1;
    }
    proof {
        lemma_last_dot_is(name@, k - 1);
    }
    let is_dotdot = n == 2 && name[0] == '.' && name[1] == '.';
    proof {
        if is_dotdot {
            assert(name@ =~= seq!['.', '.']);
        } else if n == 2 {
            assert(name@ != seq!['.', '.'] ==> !(name@[0] == '.' && name@[1] == '.'));
        }
    }
    let mut r: Vec<char> = Vec::new();
    if is_dotdot || k <= 1 {
        return r;
    }
    let mut i = k;
    while i < n
        invariant
            k <= i <= n == name.len(),
            r@ == lower_seq(name@.subrange(k as int, i as int)),
        decreases n - i,
    {
        r.push(to_ascii_lower(name[i]));
        i = i + 1;
        assert(lower_seq(name@.subrange(k as int, i as int)) =~= lower_seq(
            name@.subrange(k as int, i - 1),
        ).push(ascii_lower(name@[i - 1])));
    }
    assert(name@.subrange(k as int, n as int) =~= name@.skip(k as int));
    r
}

pub open spec fn category_spec(ext: Seq<char>) -> Seq<char> {
    if ext == "jpg"@ || ext == "jpeg"@ || ext == "png"@ || ext == "gif"@ || ext == "webp"@ || ext
        == "bmp"@ || ext == "svg"@ || ext == "ico"@ || ext == "heic"@ {
        "images"@
    } else if ext == "mp4"@ || ext == "mkv"@ || ext == "mov"@ || ext == "avi"@ || ext == "webm"@ {
        "videos"@
    } else if ext == "mp3"@ || ext == "wav"@ || ext == "flac"@ || ext == "ogg"@ || ext == "m4a"@ {
        "audio"@
    } else if ext == "zip"@ || ext == "rar"@ || ext == "7z"@ || ext == "tar"@ || ext == "gz"@ {
        "archives"@
    } else if ext == "msi"@ || ext == "exe"@ || ext == "dmg"@ || ext == "pkg"@ || ext == "iso"@
        || ext == "appx"@ {
        "installers"@
    } else if ext == "pdf"@ || ext == "doc"@ || ext == "docx"@ || ext == "xls"@ || ext == "xlsx"@
        || ext == "ppt"@ || ext == "pptx"@ || ext == "txt"@ || ext == "md"@ {
        "documents"@
    } else if ext == "rs"@ || ext == "ts"@ || ext == "js"@ || ext == "py"@ || ext == "go"@ || ext
        == "json"@ || ext == "toml"@ || ext == "yaml"@ || ext == "yml"@ || ext == "lock"@ {
        "code"@
    } else {
        "other"@
    }
}

fn category_of_ext(ext: &Vec<char>) -> (r: &'static str)
    ensures
        r@ == category_spec(ext@),
{
    if same_text(ext, "jpg") || same_text(ext, "jpeg") || same_text(ext, "png") || same_text(
        ext,
        "gif",
    ) || same_text(ext, "webp") || same_text(ext, "bmp") || same_text(ext, "svg") || same_text(
        ext,
        "ico",
    ) || same_text(ext, "heic") {
        "images"
    } else if same_text(ext, "mp4") || same_text(ext, "mkv") || same_text(ext, "mov") || same_text(
        ext,
        "avi",
    ) || same_text(ext, "webm") {
        "videos"
    } else if same_text(ext, "mp3") || same_text(ext, "wav") || same_text(ext, "flac")
        || same_text(ext, "ogg") || same_text(ext, "m4a") {
        "audio"
    } else if same_text(ext, "zip") || same_text(ext, "rar") || same_text(ext, "7z") || same_text(
        ext,
        "tar",
    ) || same_text(ext, "gz") {
        "archives"
    } else if same_text(ext, "msi") || same_text(ext, "exe") || same_text(ext, "dmg")
        || same_text(ext, "pkg") || same_text(ext, "iso") || same_text(ext, "appx") {
        "installers"
    } else if same_text(ext, "pdf") || same_text(ext, "doc") || same_text(ext, "docx")
        || same_text(ext, "xls") || same_text(ext, "xlsx") || same_text(ext, "ppt") || same_text(
        ext,
        "pptx",
    ) || same_text(ext, "txt") || same_text(ext, "md") {
        "documents"
    } else if same_text(ext, "rs") || same_text(ext, "ts") || same_text(ext, "js") || same_text(
        ext,
        "py",
    ) || same_text(ext, "go") || same_text(ext, "json") || same_text(ext, "toml") || same_text(
        ext,
        "yaml",
    ) || same_text(ext, "yml") || same_text(ext, "lock") {
        "code"
    } else {
        "other"
    }
}

/// The category of a file, from its (lower-cased) extension.
pub fn category_of(file_name: &str) -> (r: &'static str)
    ensures
        r@ == category_spec(ext_key(file_name@)),
{
    let name = chars_of(file_name);
    let ext = extension_key(&name);
    category_of_ext(&ext)
}

pub open spec fn archive_spec(ext: Seq<char>) -> bool {
    ext == "zip"@ || ext == "rar"@ || ext == "7z"@ || ext == "tar"@ || ext == "gz"@ || ext
        == "iso"@
}

fn is_archive_ext(ext: &Vec<char>) -> (b: bool)
    ensures
        b == archive_spec(ext@),
{
    same_text(ext, "zip") || same_text(ext, "rar") || same_text(ext, "7z") || same_text(ext, "tar")
        || same_text(ext, "gz") || same_text(ext, "iso")
}

/// True for the extensions of archive formats (`zip`, `rar`, `7z`, `tar`, `gz`, `iso`).
pub fn is_archive(ext: &str) -> (b: bool)
    ensures
        b == archive_spec(ext@),
{
    let e = chars_of(ext);
    is_archive_ext(&e)
}

pub open spec fn installer_ext_spec(ext: Seq<char>) -> bool {
    ext == "msi"@ || ext == "exe"@ || ext == "dmg"@ || ext == "pkg"@
}

fn is_installer_ext(ext: &Vec<char>) -> (b: bool)
    ensures
        b == installer_ext_spec(ext@),
{
    same_text(ext, "msi") || same_text(ext, "exe") || same_text(ext, "dmg") || same_text(ext, "pkg")
}

/// Installers are suggested only when the scanned folder is a Downloads or
/// Desktop folder (case-insensitively), so that a `setup.exe` inside one's
/// own project is left alone.
pub open spec fn installer_dir_spec(root_name: Seq<char>) -> bool {
    let dir = lower_seq(root_name);
    dir == "downloads"@ || dir == "desktop"@
}

fn lower_chars(s: &str) -> (r: Vec<char>)
    ensures
        r@ == lower_seq(s@),
{
    let v = chars_of(s);
    let mut r: Vec<char> = Vec::new();
    let mut i: usize = 0;
    while i < v.len()
        invariant
            i <= v.len(),
            v@ == s@,
            r@ == lower_seq(v@.take(i as int)),
        decreases v.len() - i,
    {
        r.push(to_ascii_lower(v[i]));
        i = i + 1;
        assert(lower_seq(v@.take(i as int)) =~= lower_seq(v@.take(i - 1)).push(
            ascii_lower(v@[i - 1]),
        ));
    }
    assert(v@.take(v.len() as int) =~= v@);
    r
}

/// Whether installers found under the scanned folder (named `root_name`)
/// should be suggested.
pub fn is_installer_dir(root_name: &str) -> (b: bool)
    ensures
        b == installer_dir_spec(root_name@),
{
    let dir = lower_chars(root_name);
    same_text(&dir, "downloads") || same_text(&dir, "desktop")
}

// ---------------------------------------------------------------------------
// Time
// ---------------------------------------------------------------------------

/// Integer division rounded toward zero, as Rust's `/` computes it.
pub open spec fn div_trunc(a: int, b: int) -> int {
    if a >= 0 {
        a / b
    } else {
        -((-a) / b)
    }
}

/// "`<days>` days ago" for an age in seconds (whole days, rounded toward zero).
pub open spec fn days_text(age: int) -> Seq<char> {
    decimal_int(div_trunc(age, 86400)) + " days ago"@
}

/// "`<days>` days ago" for a file last modified at `mtime`, seen at `now`.
pub fn days_ago_at(mtime: i64, now: i64) -> (s: String)
    ensures
        s@ == days_text(now - mtime),
{
    let age: i128 = now as i128 - mtime as i128;
    let days: i128 = if age >= 0 {
        age / 86400
    } else {
        -((-age) / 86400)
    };
    assert(-0x8000_0000_0000_0000 <= days <= 0x7fff_ffff_ffff_ffff) by (nonlinear_arith)
        requires
            -0x1_0000_0000_0000_0000 <= age <= 0x1_0000_0000_0000_0000,
            age >= 0 ==> days == age / 86400,
            age < 0 ==> days == -((-age) / 86400),
    ;
    i64_to_decimal(days as i64).concat(" days ago")
}

/// "`<days>` days ago" for a file last modified at `mtime`, by the clock.
pub fn days_ago(mtime: i64) -> (s: String)
    ensures
        exists|t: i64| t >= 0 && s@ == #[trigger] days_text(t - mtime),
{
    let t = crate::db::now();
    days_ago_at(mtime, t)
}

// ---------------------------------------------------------------------------
// The scan
// ---------------------------------------------------------------------------

pub open spec fn total_size(e: Seq<FileEntry>) -> nat
    decreases e.len(),
{
    if e.len() == 0 {
        0
    } else {
        (total_size(e.drop_last()) + e.last().size) as nat
    }
}

proof fn lemma_total_size_prefix(e: Seq<FileEntry>, i: int)
    requires
        0 <= i <= e.len(),
    ensures
        total_size(e.take(i)) <= total_size(e),
    decreases e.len(),
{
    if i < e.len() {
        assert(e.drop_last().take(i) =~= e.take(i));
        lemma_total_size_prefix(e.drop_last(), i);
    } else {
        assert(e.take(i) =~= e);
    }
}

/// BLAKE3 digest (32 bytes) of `data`.
pub uninterp spec fn blake3_digest(data: Seq<u8>) -> Seq<u8>;

/// The bytes a BLAKE3 hasher has been fed so far.
pub uninterp spec fn hasher_input(h: blake3::Hasher) -> Seq<u8>;

#[verifier::external_type_specification]
#[verifier::external_body]
pub struct ExBlake3Hasher(blake3::Hasher);

/// `blake3::Hasher::new()`. Claimed: a hasher that has been fed nothing.
#[verifier::external_body]
fn hasher_new() -> (h: blake3::Hasher)
    ensures
        hasher_input(h) == Seq::<u8>::empty(),
{
    blake3::Hasher::new()
}

/// `blake3::Hasher::update(chunk)`. Claimed: the chunk is appended to what the
/// hasher has been fed.
#[verifier::external_body]
fn hasher_update(h: &mut blake3::Hasher, chunk: &[u8])
    ensures
        hasher_input(*final(h)) == hasher_input(*old(h)) + chunk@,
{
    h.update(chunk);
}

/// `blake3::Hasher::finalize().to_hex().to_string()`. Claimed: the lower-case
/// hex of the BLAKE3 digest of everything fed so far.
#[verifier::external_body]
fn hasher_hex(h: &blake3::Hasher) -> (s: String)
    ensures
        s@ == hex_lower(blake3_digest(hasher_input(*h))),
{
    h.finalize().to_hex().to_string()
}

/// The content hash of a file's bytes: lower-case hex of their BLAKE3 digest.
pub open spec fn content_hash_spec(bytes: Seq<u8>) -> Seq<char> {
    hex_lower(blake3_digest(bytes))
}

/// The content hash of a file, fed chunk by chunk as the file is read.
pub struct ContentHasher {
    hasher: blake3::Hasher,
}

impl View for ContentHasher {
    type V = Seq<u8>;

    /// The bytes fed so far.
    closed spec fn view(&self) -> Seq<u8> {
        hasher_input(self.hasher)
    }
}

impl ContentHasher {
    pub fn new() -> (h: Self)
        ensures
            h@ == Seq::<u8>::empty(),
    {
        ContentHasher { hasher: hasher_new() }
    }

    /// Feeds the next chunk of the file.
    pub fn feed(&mut self, chunk: &[u8])
        ensures
            final(self)@ == old(self)@ + chunk@,
    {
        hasher_update(&mut self.hasher, chunk);
    }

    /// The content hash of everything fed so far.
    pub fn hex(&self) -> (s: String)
        ensures
            s@ == content_hash_spec(self@),
    {
        hasher_hex(&self.hasher)
    }
}

/// A file whose content hash is worth computing: non-empty, at most
/// `MAX_HASH_BYTES`, and another file has the same size.
pub open spec fn needs_hash_spec(e: Seq<FileEntry>, i: int) -> bool {
    &&& 0 < e[i].size <= MAX_HASH_BYTES
    &&& exists|j: int| 0 <= j < e.len() && j != i && #[trigger] e[j].size == e[i].size
}

/// For each file, whether its content hash is needed to find duplicates.
pub fn needs_hash(entries: &Vec<FileEntry>) -> (r: Vec<bool>)
    ensures
        r.len() == entries.len(),
        forall|i: int| 0 <= i < entries.len() ==> r@[i] == needs_hash_spec(entries@, i),
{
    let n = entries.len();
    let mut r: Vec<bool> = Vec::new();
    let mut i: usize = 0;
    while i < n
        invariant
            i <= n == entries.len(),
            r.len() == i,
            forall|k: int| 0 <= k < i ==> r@[k] == needs_hash_spec(entries@, k),
        decreases n - i,
    {
        let size = entries[i].size;
        let mut shared = false;
        if size > 0 && size <= MAX_HASH_BYTES {
            let mut j: usize = 0;
            while j < n
                invariant
                    j <= n == entries.len(),
                    i < n,
                    size == entries@[i as int].size,
                    shared <==> exists|k: int|
                        0 <= k < j && k != i && #[trigger] entries@[k].size == size,
                decreases n - j,
            {
                if j != i && entries[j].size == size {
                    shared = true;
                }
                j = j + 1;
            }
        }
        r.push(shared);
        i = i + 1;
    }
    r
}

pub open spec fn same_hash(h: Seq<Option<String>>, i: int, j: int) -> bool {
    h[i] is Some && h[j] is Some && h[i]->0@ == h[j]->0@
}

/// The first earlier file (index at least `j`, below `i`) with the same size
/// and the same content hash as file `i`.
pub open spec fn first_twin_from(e: Seq<FileEntry>, h: Seq<Option<String>>, i: int, j: int) -> Option<
    int,
>
    decreases i - j,
{
    if j >= i || j < 0 {
        None
    } else if e[j].size == e[i].size && same_hash(h, i, j) {
        Some(j)
    } else {
        first_twin_from(e, h, i, j + 1)
    }
}

/// The file that file `i` duplicates, if any: hashed files keep the first of
/// each group of identical ones and every later one duplicates it.
pub open spec fn duplicate_of(e: Seq<FileEntry>, h: Seq<Option<String>>, i: int) -> Option<int> {
    if 0 < e[i].size <= MAX_HASH_BYTES && h[i] is Some {
        first_twin_from(e, h, i, 0)
    } else {
        None
    }
}

pub open spec fn body(
    path: Seq<char>,
    reason: DeclutterReason,
    detail: Seq<char>,
    size: u64,
    name: Seq<char>,
) -> SuggestionView {
    SuggestionView {
        id: Seq::empty(),
        path,
        reason,
        detail,
        size_bytes: size,
        category: category_spec(ext_key(name)),
    }
}

pub open spec fn duplicate_body(e: Seq<FileEntry>, h: Seq<Option<String>>, i: int) -> Option<
    SuggestionView,
> {
    match duplicate_of(e, h, i) {
        Some(j) => Some(
            body(
                e[i].path@,
                DeclutterReason::Duplicate,
                "Exact duplicate of "@ + e[j].path@,
                e[i].size,
                e[i].file_name@,
            ),
        ),
        None => None,
    }
}

/// The installer / large archive / stale rule for one file, checked in that order.
pub open spec fn heuristic_body(f: FileEntry, root_name: Seq<char>, now: i64) -> Option<
    SuggestionView,
> {
    let ext = ext_key(f.file_name@);
    if installer_ext_spec(ext) && installer_dir_spec(root_name) {
        Some(
            body(
                f.path@,
                DeclutterReason::Installer,
                "Installer — usually needed once, safe to remove afterwards"@,
                f.size,
                f.file_name@,
            ),
        )
    } else if archive_spec(ext) && f.size >= LARGE_ARCHIVE_BYTES {
        Some(
            body(
                f.path@,
                DeclutterReason::LargeArchive,
                "Very large archive — candidate for cloud storage or deletion"@,
                f.size,
                f.file_name@,
            ),
        )
    } else if now - f.mtime > STALE_AFTER_SECS {
        Some(
            body(
                f.path@,
                DeclutterReason::Stale,
                "Untouched since "@ + days_text(now - f.mtime),
                f.size,
                f.file_name@,
            ),
        )
    } else {
        None
    }
}

pub open spec fn duplicate_bodies(e: Seq<FileEntry>, h: Seq<Option<String>>, k: int) -> Seq<
    SuggestionView,
>
    decreases k,
{
    if k <= 0 {
        Seq::empty()
    } else {
        let r = duplicate_bodies(e, h, k - 1);
        match duplicate_body(e, h, k - 1) {
            Some(b) => r.push(b),
            None => r,
        }
    }
}

pub open spec fn heuristic_bodies(e: Seq<FileEntry>, root_name: Seq<char>, now: i64, k: int) -> Seq<
    SuggestionView,
>
    decreases k,
{
    if k <= 0 {
        Seq::empty()
    } else {
        let r = heuristic_bodies(e, root_name, now, k - 1);
        match heuristic_body(e[k - 1], root_name, now) {
            Some(b) => r.push(b),
            None => r,
        }
    }
}

pub open spec fn with_id(s: SuggestionView, n: nat) -> SuggestionView {
    SuggestionView {
        id: "sug-"@ + decimal_nat(n),
        path: s.path,
        reason: s.reason,
        detail: s.detail,
        size_bytes: s.size_bytes,
        category: s.category,
    }
}

/// Suggestions numbered `sug-1`, `sug-2`, ... in order.
pub open spec fn numbered(b: Seq<SuggestionView>) -> Seq<SuggestionView> {
    b.map(|i: int, s: SuggestionView| with_id(s, (i + 1) as nat))
}

pub open spec fn size_rank() -> spec_fn(SuggestionView) -> int {
    |s: SuggestionView| s.size_bytes as int
}

pub open spec fn view_fn() -> spec_fn(DeclutterSuggestion) -> SuggestionView {
    |s: DeclutterSuggestion| s@
}

/// Every suggestion of a scan, numbered, before ordering and capping.
pub open spec fn all_suggestions(
    e: Seq<FileEntry>,
    h: Seq<Option<String>>,
    root_name: Seq<char>,
    now: i64,
) -> Seq<SuggestionView> {
    numbered(duplicate_bodies(e, h, e.len() as int) + heuristic_bodies(e, root_name, now, e.len() as int))
}

/// The suggestions a scan reports: largest first, ties in numbering order, at most 200.
pub open spec fn scan_suggestions(
    e: Seq<FileEntry>,
    h: Seq<Option<String>>,
    root_name: Seq<char>,
    now: i64,
) -> Seq<SuggestionView> {
    let sorted = sort_desc(all_suggestions(e, h, root_name, now), size_rank());
    sorted.take(if sorted.len() < MAX_SUGGESTIONS { sorted.len() as int } else { MAX_SUGGESTIONS as int })
}

/// Index of `c` in the category list (searching from the end), or -1.
pub open spec fn find_category(acc: Seq<(Seq<char>, nat)>, c: Seq<char>) -> int
    decreases acc.len(),
{
    if acc.len() == 0 {
        -1
    } else if acc.last().0 == c {
        acc.len() - 1
    } else {
        find_category(acc.drop_last(), c)
    }
}

/// Category -> number of files, in order of first appearance.
pub open spec fn category_counts(e: Seq<FileEntry>) -> Seq<(Seq<char>, nat)>
    decreases e.len(),
{
    if e.len() == 0 {
        Seq::empty()
    } else {
        let acc = category_counts(e.drop_last());
        let c = category_spec(ext_key(e.last().file_name@));
        let k = find_category(acc, c);
        if k >= 0 {
            acc.update(k, (c, acc[k].1 + 1))
        } else {
            acc.push((c, 1))
        }
    }
}

proof fn lemma_find_category(acc: Seq<(Seq<char>, nat)>, c: Seq<char>)
    ensures
        -1 <= find_category(acc, c) < acc.len(),
        find_category(acc, c) >= 0 ==> acc[find_category(acc, c)].0 == c,
        forall|j: int| find_category(acc, c) < j < acc.len() ==> #[trigger] acc[j].0 != c,
    decreases acc.len(),
{
    if acc.len() > 0 && acc.last().0 != c {
        lemma_find_category(acc.drop_last(), c);
        assert forall|j: int| find_category(acc, c) < j < acc.len() implies #[trigger] acc[j].0
            != c by {
            if j < acc.len() - 1 {
                assert(acc[j] == acc.drop_last()[j]);
            }
        }
    }
}

proof fn lemma_find_category_is(acc: Seq<(Seq<char>, nat)>, c: Seq<char>, k: int)
    requires
        -1 <= k < acc.len(),
        k >= 0 ==> acc[k].0 == c,
        forall|j: int| k < j < acc.len() ==> #[trigger] acc[j].0 != c,
    ensures
        find_category(acc, c) == k,
    decreases acc.len(),
{
    if acc.len() > 0 && k < acc.len() - 1 {
        assert(acc[acc.len() - 1].0 != c);
        let d = acc.drop_last();
        assert forall|j: int| k < j < d.len() implies #[trigger] d[j].0 != c by {
            assert(d[j] == acc[j]);
        }
        lemma_find_category_is(d, c, k);
    }
}

/// The library's `Vec<(String, u64)>` agrees with the spec list of counts.
pub open spec fn counts_match(v: Seq<(String, u64)>, s: Seq<(Seq<char>, nat)>) -> bool {
    v.len() == s.len() && forall|k: int|
        0 <= k < v.len() ==> (#[trigger] v[k]).0@ == s[k].0 && v[k].1 == s[k].1
}

fn count_categories(entries: &Vec<FileEntry>) -> (r: Vec<(String, u64)>)
    ensures
        counts_match(r@, category_counts(entries@)),
{
    let n = entries.len();
    let mut acc: Vec<(String, u64)> = Vec::new();
    let mut i: usize = 0;
    while i < n
        invariant
            i <= n == entries.len(),
            counts_match(acc@, category_counts(entries@.take(i as int))),
            forall|k: int| 0 <= k < acc.len() ==> (#[trigger] acc@[k]).1 <= i,
        decreases n - i,
    {
        let cat = category_of(entries[i].file_name.as_str());
        let ghost spec_acc = category_counts(entries@.take(i as int));
        let ghost c = cat@;
        assert(entries@.take(i + 1).drop_last() =~= entries@.take(i as int));
        assert(entries@.take(i + 1).last() == entries@[i as int]);
        let cat_chars = chars_of(cat);
        let mut k: usize = acc.len();
        while k > 0 && !same_text(&cat_chars, acc[k - 1].0.as_str())
            invariant
                k <= acc.len() == spec_acc.len(),
                cat_chars@ == c,
                counts_match(acc@, spec_acc),
                forall|j: int| k <= j < spec_acc.len() ==> #[trigger] spec_acc[j].0 != c,
            decreases k,
        {
            k = k - 1;
        }
        proof {
            lemma_find_category_is(spec_acc, c, k - 1);
        }
        if k > 0 {
            let ghost pre = acc@;
            let (name, count) = acc.remove(k - 1);
            assert(count <= i);
            acc.insert(k - 1, (name, count + 1));
            proof {
                assert(acc@ =~= pre.update(k - 1, acc@[k - 1]));
                let ns = spec_acc.update(k - 1, (c, spec_acc[k - 1].1 + 1));
                assert forall|j: int| 0 <= j < acc.len() implies (#[trigger] acc@[j]).0@ == ns[j].0
                    && acc@[j].1 == ns[j].1 by {
                    if j != k - 1 {
                        assert(acc@[j] == pre[j]);
                    }
                }
            }
        } else {
            acc.push((owned(cat), 1));
        }
        i = i + 1;
    }
    assert(entries@.take(n as int) =~= entries@);
    acc
}

/// A suggestion numbered `sug-<n>`.
fn make_suggestion(
    n: u64,
    path: &String,
    reason: DeclutterReason,
    detail: String,
    size: u64,
    category: &str,
) -> (s: DeclutterSuggestion)
    ensures
        s@ == (SuggestionView {
            id: "sug-"@ + decimal_nat(n as nat),
            path: path@,
            reason,
            detail: detail@,
            size_bytes: size,
            category: category@,
        }),
{
    DeclutterSuggestion {
        id: String::from_str("sug-").concat(u64_to_decimal(n).as_str()),
        path: path.clone(),
        reason,
        detail,
        size_bytes: size,
        category: owned(category),
    }
}

proof fn lemma_numbered_push(b: Seq<SuggestionView>, x: SuggestionView)
    ensures
        numbered(b.push(x)) == numbered(b).push(with_id(x, (b.len() + 1) as nat)),
{
    assert(numbered(b.push(x)) =~= numbered(b).push(with_id(x, (b.len() + 1) as nat)));
}

/// The first earlier file with the same size and hash as file `i`.
fn find_twin(entries: &Vec<FileEntry>, hashes: &Vec<Option<String>>, i: usize) -> (r: Option<usize>)
    requires
        i < entries.len() == hashes.len(),
    ensures
        r matches Some(j) ==> j < i && first_twin_from(entries@, hashes@, i as int, 0) == Some(
            j as int,
        ),
        r is None ==> first_twin_from(entries@, hashes@, i as int, 0) is None,
{
    let mut j: usize = i;
    let mut found: Option<usize> = None;
    // Scan downwards so that the earliest match is the one kept.
    while j > 0
        invariant
            j <= i < entries.len() == hashes.len(),
            found matches Some(f) ==> j <= f < i && first_twin_from(entries@, hashes@, i as int, j as int)
                == Some(f as int),
            found is None ==> first_twin_from(entries@, hashes@, i as int, j as int) is None,
        decreases j,
    {
        j = j - 1;
        let twin = entries[j].size == entries[i].size && match (&hashes[j], &hashes[i]) {
            (Some(a), Some(b)) => a.eq(b),
            _ => false,
        };
        proof {
            assert(twin == (entries@[j as int].size == entries@[i as int].size && same_hash(
                hashes@,
                i as int,
                j as int,
            )));
            assert(first_twin_from(entries@, hashes@, i as int, j as int) == if twin {
                Some(j as int)
            } else {
                first_twin_from(entries@, hashes@, i as int, j + 1)
            });
        }
        if twin {
            found = Some(j);
        }
    }
    found
}

/// The analysis of a scanned folder.
///
/// `entries` are the regular files found, in walk order; `hashes[i]` is the
/// content hash of `entries[i]` (`content_hash_spec` of its bytes, as
/// `ContentHasher` computes it) where one was computed (see `needs_hash`);
/// `root_name` is the scanned folder's own name and `now` the scan time.
pub fn analyze_scan(
    folder: String,
    root_name: &str,
    entries: &Vec<FileEntry>,
    hashes: &Vec<Option<String>>,
    now: i64,
) -> (r: ScanResultDto)
    requires
        hashes.len() == entries.len(),
        entries.len() <= usize::MAX / 4,
        total_size(entries@) <= u64::MAX,
    ensures
        r.folder@ == folder@,
        r.file_count == entries.len(),
        r.total_bytes == total_size(entries@),
        counts_match(r.categories@, category_counts(entries@)),
        r.suggestions@.map_values(view_fn()) == scan_suggestions(entries@, hashes@, root_name@, now),
{
    let n = entries.len();
    let ghost e = entries@;
    let ghost h = hashes@;

    // Totals.
    let mut total: u64 = 0;
    let mut i: usize = 0;
    while i < n
        invariant
            i <= n == entries.len(),
            e == entries@,
            total == total_size(e.take(i as int)),
            total_size(e) <= u64::MAX,
        decreases n - i,
    {
        assert(e.take(i + 1).drop_last() =~= e.take(i as int));
        proof {
            lemma_total_size_prefix(e, i + 1);
        }
        total = total + entries[i].size;
        i = i + 1;
    }
    assert(e.take(n as int) =~= e);
    let categories = count_categories(entries);

    // Duplicates, in walk order of the later copy.
    let mut raw: Vec<DeclutterSuggestion> = Vec::new();
    let mut i: usize = 0;
    while i < n
        invariant
            i <= n == entries.len() == hashes.len(),
            n <= usize::MAX / 4,
            e == entries@,
            h == hashes@,
            raw.len() <= i,
            raw@.map_values(view_fn()) == numbered(duplicate_bodies(e, h, i as int)),
        decreases n - i,
    {
        let size = entries[i].size;
        let ghost before = raw@;
        if size > 0 && size <= MAX_HASH_BYTES && hashes[i].is_some() {
            match find_twin(entries, hashes, i) {
                Some(j) => {
                    let detail = String::from_str("Exact duplicate of ").concat(
                        entries[j].path.as_str(),
                    );
                    let k = raw.len() as u64 + 1;
                    let s = make_suggestion(
                        k,
                        &entries[i].path,
                        DeclutterReason::Duplicate,
                        detail,
                        size,
                        category_of(entries[i].file_name.as_str()),
                    );
                    raw.push(s);
                    proof {
                        let b = duplicate_bodies(e, h, i as int);
                        lemma_numbered_push(b, duplicate_body(e, h, i as int)->0);
                        assert(raw@.map_values(view_fn()) =~= before.map_values(view_fn()).push(s@));
                    }
                },
                None => {},
            }
        }
        i = i + 1;
    }
    let ghost dups = duplicate_bodies(e, h, n as int);

    // Per-file heuristics, in walk order.
    let mut i: usize = 0;
    while i < n
        invariant
            i <= n == entries.len() == hashes.len(),
            n <= usize::MAX / 4,
            e == entries@,
            h == hashes@,
            raw.len() <= n + i,
            raw@.map_values(view_fn()) == numbered(dups + heuristic_bodies(e, root_name@, now, i as int)),
        decreases n - i,
    {
        let f = &entries[i];
        let name = chars_of(f.file_name.as_str());
        let ext = extension_key(&name);
        let cat = category_of_ext(&ext);
        let ghost before = raw@;
        let ghost hb = heuristic_bodies(e, root_name@, now, i as int);
        let k = raw.len() as u64 + 1;
        let age: i128 = now as i128 - f.mtime as i128;
        let pick: Option<(DeclutterReason, String)> = if is_installer_ext(&ext) && is_installer_dir(root_name) {
            Some(
                (
                    DeclutterReason::Installer,
                    owned("Installer — usually needed once, safe to remove afterwards"),
                ),
            )
        } else if is_archive_ext(&ext) && f.size >= LARGE_ARCHIVE_BYTES {
            Some(
                (
                    DeclutterReason::LargeArchive,
                    owned("Very large archive — candidate for cloud storage or deletion"),
                ),
            )
        } else if age > STALE_AFTER_SECS as i128 {
            let d = days_ago_at(f.mtime, now);
            Some((DeclutterReason::Stale, String::from_str("Untouched since ").concat(d.as_str())))
        } else {
            None
        };
        match pick {
            Some((reason, detail)) => {
                let s = make_suggestion(k, &f.path, reason, detail, f.size, cat);
                raw.push(s);
                proof {
                    assert(dups + hb.push(heuristic_body(e[i as int], root_name@, now)->0) =~= (dups
                        + hb).push(heuristic_body(e[i as int], root_name@, now)->0));
                    lemma_numbered_push(dups + hb, heuristic_body(e[i as int], root_name@, now)->0);
                    assert(raw@.map_values(view_fn()) =~= before.map_values(view_fn()).push(s@));
                }
            },
            None => {},
        }
        i = i + 1;
    }

    // Largest first, capped.
    let ghost all = raw@;
    let mut sorted = stable_sort_desc(raw);
    proof {
        lemma_sort_map(all, rank_fn::<DeclutterSuggestion>(), view_fn(), size_rank());
        lemma_sort_len(all, rank_fn::<DeclutterSuggestion>());
    }
    let ghost before_cut = sorted@;
    sorted.truncate(MAX_SUGGESTIONS);
    proof {
        let m = if before_cut.len() < MAX_SUGGESTIONS {
            before_cut.len() as int
        } else {
            MAX_SUGGESTIONS as int
        };
        assert(sorted@ =~= before_cut.take(m));
        assert(sorted@.map_values(view_fn()) =~= before_cut.map_values(view_fn()).take(m));
    }
    ScanResultDto {
        folder,
        file_count: n as u64,
        total_bytes: total,
        suggestions: sorted,
        categories,
    }
}

// ---------------------------------------------------------------------------
// Laws of a scan
// ---------------------------------------------------------------------------

/// A scan reports at most 200 suggestions, largest first, each of them one
/// of the scan's findings; with at most 200 findings it reports all of them.
pub proof fn lemma_scan_report(
    e: Seq<FileEntry>,
    h: Seq<Option<String>>,
    root_name: Seq<char>,
    now: i64,
)
    ensures
        ({
            let s = scan_suggestions(e, h, root_name, now);
            let a = all_suggestions(e, h, root_name, now);
            &&& s.len() <= 200
            &&& s.len() == (if a.len() < 200 { a.len() } else { 200 })
            &&& forall|i: int, j: int|
                0 <= i < j < s.len() ==> (#[trigger] s[i]).size_bytes >= (#[trigger] s[j]).size_bytes
            &&& forall|i: int| 0 <= i < s.len() ==> a.contains(#[trigger] s[i])
            &&& a.len() <= 200 ==> s.to_multiset() == a.to_multiset()
        }),
{
    broadcast use vstd::seq_lib::group_to_multiset_ensures;

    let a = all_suggestions(e, h, root_name, now);
    let sorted = sort_desc(a, size_rank());
    lemma_sort_len(a, size_rank());
    lemma_sort_sorted(a, size_rank());
    lemma_sort_permutes(a, size_rank());
    let s = scan_suggestions(e, h, root_name, now);
    let m = if sorted.len() < MAX_SUGGESTIONS {
        sorted.len() as int
    } else {
        MAX_SUGGESTIONS as int
    };
    assert(s == sorted.take(m));
    assert forall|i: int, j: int| 0 <= i < j < s.len() implies (#[trigger] s[i]).size_bytes >= (
    #[trigger] s[j]).size_bytes by {
        assert(s[i] == sorted[i] && s[j] == sorted[j]);
        assert(size_rank()(sorted[i]) >= size_rank()(sorted[j]));
    }
    assert forall|i: int| 0 <= i < s.len() implies a.contains(#[trigger] s[i]) by {
        assert(s[i] == sorted[i]);
        assert(sorted.contains(sorted[i]));
        assert(sorted.to_multiset().count(sorted[i]) > 0);
    }
    if a.len() <= 200 {
        assert(s =~= sorted);
    }
}

proof fn lemma_first_twin_from(e: Seq<FileEntry>, h: Seq<Option<String>>, i: int, j: int)
    requires
        0 <= j,
    ensures
        first_twin_from(e, h, i, j) matches Some(k) ==> j <= k < i && e[k].size == e[i].size
            && same_hash(h, i, k),
        first_twin_from(e, h, i, j) is None ==> forall|k: int|
            j <= k < i ==> !(#[trigger] e[k].size == e[i].size && same_hash(h, i, k)),
    decreases i - j,
{
    if j < i {
        lemma_first_twin_from(e, h, i, j + 1);
    }
}

/// A file is reported as a duplicate only of an earlier file with the same
/// size and the same content hash, and of the first such file; the first
/// file of each group of identical files is kept.
pub proof fn lemma_duplicate_of_earlier(e: Seq<FileEntry>, h: Seq<Option<String>>, i: int)
    requires
        0 <= i < e.len(),
        h.len() == e.len(),
    ensures
        duplicate_of(e, h, i) matches Some(j) ==> {
            &&& 0 <= j < i
            &&& e[j].size == e[i].size
            &&& same_hash(h, i, j)
            &&& forall|k: int| 0 <= k < j ==> !(#[trigger] e[k].size == e[i].size && same_hash(h, i, k))
        },
        (0 < e[i].size <= 2 * 1024 * 1024 * 1024 && h[i] is Some && duplicate_of(e, h, i) is None)
            ==> forall|k: int| 0 <= k < i ==> !(#[trigger] e[k].size == e[i].size && same_hash(h, i, k)),
{
    lemma_first_twin_from(e, h, i, 0);
    if duplicate_of(e, h, i) is Some {
        let j = duplicate_of(e, h, i)->0;
        assert forall|k: int| 0 <= k < j implies !(#[trigger] e[k].size == e[i].size && same_hash(
            h,
            i,
            k,
        )) by {
            lemma_first_twin_prefix(e, h, i, 0, k, j);
        }
    }
}

proof fn lemma_first_twin_prefix(
    e: Seq<FileEntry>,
    h: Seq<Option<String>>,
    i: int,
    j: int,
    k: int,
    f: int,
)
    requires
        0 <= j <= k < f,
        first_twin_from(e, h, i, j) == Some(f),
    ensures
        !(e[k].size == e[i].size && same_hash(h, i, k)),
    decreases k - j,
{
    if j < k {
        lemma_first_twin_prefix(e, h, i, j + 1, k, f);
    }
}

/// Sum of the counts of a category list.
pub open spec fn count_total(c: Seq<(Seq<char>, nat)>) -> nat
    decreases c.len(),
{
    if c.len() == 0 {
        0
    } else {
        count_total(c.drop_last()) + c.last().1
    }
}

proof fn lemma_count_total_bump(c: Seq<(Seq<char>, nat)>, k: int, name: Seq<char>)
    requires
        0 <= k < c.len(),
    ensures
        count_total(c.update(k, (name, c[k].1 + 1))) == count_total(c) + 1,
    decreases c.len(),
{
    let u = c.update(k, (name, c[k].1 + 1));
    if k < c.len() - 1 {
        assert(u.drop_last() =~= c.drop_last().update(k, (name, c[k].1 + 1)));
        lemma_count_total_bump(c.drop_last(), k, name);
    } else {
        assert(u.drop_last() =~= c.drop_last());
    }
}

/// Every file is counted in exactly one category, and no category is listed
/// twice: the counts add up to the number of files.
pub proof fn lemma_category_counts(e: Seq<FileEntry>)
    ensures
        count_total(category_counts(e)) == e.len(),
        forall|i: int, j: int|
            0 <= i < j < category_counts(e).len() ==> (#[trigger] category_counts(e)[i]).0
                != (#[trigger] category_counts(e)[j]).0,
    decreases e.len(),
{
    if e.len() > 0 {
        let d = e.drop_last();
        lemma_category_counts(d);
        let acc = category_counts(d);
        let c = category_spec(ext_key(e.last().file_name@));
        lemma_find_category(acc, c);
        let k = find_category(acc, c);
        let r = category_counts(e);
        if k >= 0 {
            lemma_count_total_bump(acc, k, c);
            assert forall|i: int, j: int| 0 <= i < j < r.len() implies (#[trigger] r[i]).0 != (
            #[trigger] r[j]).0 by {
                assert(r[i].0 == acc[i].0 && r[j].0 == acc[j].0);
            }
        } else {
            assert(r.drop_last() =~= acc);
            assert forall|i: int, j: int| 0 <= i < j < r.len() implies (#[trigger] r[i]).0 != (
            #[trigger] r[j]).0 by {
                if j < acc.len() {
                    assert(r[i] == acc[i] && r[j] == acc[j]);
                } else {
                    assert(r[i] == acc[i]);
                }
            }
        }
    }
}

// ---------------------------------------------------------------------------
// Laws of the categories and of installers
// ---------------------------------------------------------------------------

/// The category table: each listed (lower-cased) extension lands in its
/// category.
pub proof fn lemma_category_table(e: Seq<char>)
    ensures
        (e == "jpg"@ || e == "jpeg"@ || e == "png"@ || e == "gif"@ || e == "webp"@ || e == "bmp"@ || e == "svg"@ || e == "ico"@ || e == "heic"@) ==> category_spec(e) == "images"@,
        (e == "mp4"@ || e == "mkv"@ || e == "mov"@ || e == "avi"@ || e == "webm"@) ==> category_spec(e) == "videos"@,
        (e == "mp3"@ || e == "wav"@ || e == "flac"@ || e == "ogg"@ || e == "m4a"@) ==> category_spec(e) == "audio"@,
        (e == "zip"@ || e == "rar"@ || e == "7z"@ || e == "tar"@ || e == "gz"@) ==> category_spec(e) == "archives"@,
        (e == "msi"@ || e == "exe"@ || e == "dmg"@ || e == "pkg"@ || e == "iso"@ || e == "appx"@) ==> category_spec(e) == "installers"@,
        (e == "pdf"@ || e == "doc"@ || e == "docx"@ || e == "xls"@ || e == "xlsx"@ || e == "ppt"@ || e == "pptx"@ || e == "txt"@ || e == "md"@) ==> category_spec(e) == "documents"@,
        (e == "rs"@ || e == "ts"@ || e == "js"@ || e == "py"@ || e == "go"@ || e == "json"@ || e == "toml"@ || e == "yaml"@ || e == "yml"@ || e == "lock"@) ==> category_spec(e) == "code"@,
{
    reveal_strlit("7z");
    reveal_strlit("appx");
    reveal_strlit("archives");
    reveal_strlit("audio");
    reveal_strlit("avi");
    reveal_strlit("bmp");
    reveal_strlit("code");
    reveal_strlit("dmg");
    reveal_strlit("doc");
    reveal_strlit("documents");
    reveal_strlit("docx");
    reveal_strlit("exe");
    reveal_strlit("flac");
    reveal_strlit("gif");
    reveal_strlit("go");
    reveal_strlit("gz");
    reveal_strlit("heic");
    reveal_strlit("ico");
    reveal_strlit("images");
    reveal_strlit("installers");
    reveal_strlit("iso");
    reveal_strlit("jpeg");
    reveal_strlit("jpg");
    reveal_strlit("js");
    reveal_strlit("json");
    reveal_strlit("lock");
    reveal_strlit("m4a");
    reveal_strlit("md");
    reveal_strlit("mkv");
    reveal_strlit("mov");
    reveal_strlit("mp3");
    reveal_strlit("mp4");
    reveal_strlit("msi");
    reveal_strlit("ogg");
    reveal_strlit("other");
    reveal_strlit("pdf");
    reveal_strlit("pkg");
    reveal_strlit("png");
    reveal_strlit("ppt");
    reveal_strlit("pptx");
    reveal_strlit("py");
    reveal_strlit("rar");
    reveal_strlit("rs");
    reveal_strlit("svg");
    reveal_strlit("tar");
    reveal_strlit("toml");
    reveal_strlit("ts");
    reveal_strlit("txt");
    reveal_strlit("videos");
    reveal_strlit("wav");
    reveal_strlit("webm");
    reveal_strlit("webp");
    reveal_strlit("xls");
    reveal_strlit("xlsx");
    reveal_strlit("yaml");
    reveal_strlit("yml");
    reveal_strlit("zip");
    assert(e == "jpg"@ ==> e.len() == 3 && e[0] == 'j' && e[1] == 'p' && e[2] == 'g');
    assert(e == "jpeg"@ ==> e.len() == 4 && e[0] == 'j' && e[1] == 'p' && e[2] == 'e' && e[3] == 'g');
    assert(e == "png"@ ==> e.len() == 3 && e[0] == 'p' && e[1] == 'n' && e[2] == 'g');
    assert(e == "gif"@ ==> e.len() == 3 && e[0] == 'g' && e[1] == 'i' && e[2] == 'f');
    assert(e == "webp"@ ==> e.len() == 4 && e[0] == 'w' && e[1] == 'e' && e[2] == 'b' && e[3] == 'p');
    assert(e == "bmp"@ ==> e.len() == 3 && e[0] == 'b' && e[1] == 'm' && e[2] == 'p');
    assert(e == "svg"@ ==> e.len() == 3 && e[0] == 's' && e[1] == 'v' && e[2] == 'g');
    assert(e == "ico"@ ==> e.len() == 3 && e[0] == 'i' && e[1] == 'c' && e[2] == 'o');
    assert(e == "heic"@ ==> e.len() == 4 && e[0] == 'h' && e[1] == 'e' && e[2] == 'i' && e[3] == 'c');
    assert(e == "mp4"@ ==> e.len() == 3 && e[0] == 'm' && e[1] == 'p' && e[2] == '4');
    assert(e == "mkv"@ ==> e.len() == 3 && e[0] == 'm' && e[1] == 'k' && e[2] == 'v');
    assert(e == "mov"@ ==> e.len() == 3 && e[0] == 'm' && e[1] == 'o' && e[2] == 'v');
    assert(e == "avi"@ ==> e.len() == 3 && e[0] == 'a' && e[1] == 'v' && e[2] == 'i');
    assert(e == "webm"@ ==> e.len() == 4 && e[0] == 'w' && e[1] == 'e' && e[2] == 'b' && e[3] == 'm');
    assert(e == "mp3"@ ==> e.len() == 3 && e[0] == 'm' && e[1] == 'p' && e[2] == '3');
    assert(e == "wav"@ ==> e.len() == 3 && e[0] == 'w' && e[1] == 'a' && e[2] == 'v');
    assert(e == "flac"@ ==> e.len() == 4 && e[0] == 'f' && e[1] == 'l' && e[2] == 'a' && e[3] == 'c');
    assert(e == "ogg"@ ==> e.len() == 3 && e[0] == 'o' && e[1] == 'g' && e[2] == 'g');
    assert(e == "m4a"@ ==> e.len() == 3 && e[0] == 'm' && e[1] == '4' && e[2] == 'a');
    assert(e == "zip"@ ==> e.len() == 3 && e[0] == 'z' && e[1] == 'i' && e[2] == 'p');
    assert(e == "rar"@ ==> e.len() == 3 && e[0] == 'r' && e[1] == 'a' && e[2] == 'r');
    assert(e == "7z"@ ==> e.len() == 2 && e[0] == '7' && e[1] == 'z');
    assert(e == "tar"@ ==> e.len() == 3 && e[0] == 't' && e[1] == 'a' && e[2] == 'r');
    assert(e == "gz"@ ==> e.len() == 2 && e[0] == 'g' && e[1] == 'z');
    assert(e == "msi"@ ==> e.len() == 3 && e[0] == 'm' && e[1] == 's' && e[2] == 'i');
    assert(e == "exe"@ ==> e.len() == 3 && e[0] == 'e' && e[1] == 'x' && e[2] == 'e');
    assert(e == "dmg"@ ==> e.len() == 3 && e[0] == 'd' && e[1] == 'm' && e[2] == 'g');
    assert(e == "pkg"@ ==> e.len() == 3 && e[0] == 'p' && e[1] == 'k' && e[2] == 'g');
    assert(e == "iso"@ ==> e.len() == 3 && e[0] == 'i' && e[1] == 's' && e[2] == 'o');
    assert(e == "appx"@ ==> e.len() == 4 && e[0] == 'a' && e[1] == 'p' && e[2] == 'p' && e[3] == 'x');
    assert(e == "pdf"@ ==> e.len() == 3 && e[0] == 'p' && e[1] == 'd' && e[2] == 'f');
    assert(e == "doc"@ ==> e.len() == 3 && e[0] == 'd' && e[1] == 'o' && e[2] == 'c');
    assert(e == "docx"@ ==> e.len() == 4 && e[0] == 'd' && e[1] == 'o' && e[2] == 'c' && e[3] == 'x');
    assert(e == "xls"@ ==> e.len() == 3 && e[0] == 'x' && e[1] == 'l' && e[2] == 's');
    assert(e == "xlsx"@ ==> e.len() == 4 && e[0] == 'x' && e[1] == 'l' && e[2] == 's' && e[3] == 'x');
    assert(e == "ppt"@ ==> e.len() == 3 && e[0] == 'p' && e[1] == 'p' && e[2] == 't');
    assert(e == "pptx"@ ==> e.len() == 4 && e[0] == 'p' && e[1] == 'p' && e[2] == 't' && e[3] == 'x');
    assert(e == "txt"@ ==> e.len() == 3 && e[0] == 't' && e[1] == 'x' && e[2] == 't');
    assert(e == "md"@ ==> e.len() == 2 && e[0] == 'm' && e[1] == 'd');
    assert(e == "rs"@ ==> e.len() == 2 && e[0] == 'r' && e[1] == 's');
    assert(e == "ts"@ ==> e.len() == 2 && e[0] == 't' && e[1] == 's');
    assert(e == "js"@ ==> e.len() == 2 && e[0] == 'j' && e[1] == 's');
    assert(e == "py"@ ==> e.len() == 2 && e[0] == 'p' && e[1] == 'y');
    assert(e == "go"@ ==> e.len() == 2 && e[0] == 'g' && e[1] == 'o');
    assert(e == "json"@ ==> e.len() == 4 && e[0] == 'j' && e[1] == 's' && e[2] == 'o' && e[3] == 'n');
    assert(e == "toml"@ ==> e.len() == 4 && e[0] == 't' && e[1] == 'o' && e[2] == 'm' && e[3] == 'l');
    assert(e == "yaml"@ ==> e.len() == 4 && e[0] == 'y' && e[1] == 'a' && e[2] == 'm' && e[3] == 'l');
    assert(e == "yml"@ ==> e.len() == 3 && e[0] == 'y' && e[1] == 'm' && e[2] == 'l');
    assert(e == "lock"@ ==> e.len() == 4 && e[0] == 'l' && e[1] == 'o' && e[2] == 'c' && e[3] == 'k');
}

proof fn lemma_heuristic_bodies_contain(
    e: Seq<FileEntry>,
    root_name: Seq<char>,
    now: i64,
    k: int,
    i: int,
)
    requires
        0 <= i < k <= e.len(),
        heuristic_body(e[i], root_name, now) is Some,
    ensures
        exists|j: int|
            0 <= j < heuristic_bodies(e, root_name, now, k).len() && #[trigger] heuristic_bodies(
                e,
                root_name,
                now,
                k,
            )[j] == heuristic_body(e[i], root_name, now)->0,
    decreases k,
{
    let prev = heuristic_bodies(e, root_name, now, k - 1);
    if i < k - 1 {
        lemma_heuristic_bodies_contain(e, root_name, now, k - 1, i);
        let j = choose|j: int|
            0 <= j < prev.len() && #[trigger] prev[j] == heuristic_body(e[i], root_name, now)->0;
        assert(heuristic_bodies(e, root_name, now, k)[j] == prev[j]);
    } else {
        assert(heuristic_bodies(e, root_name, now, k)[prev.len() as int] == heuristic_body(
            e[i],
            root_name,
            now,
        )->0);
    }
}

/// In a scan of a folder named Downloads or Desktop (any case), every file
/// whose lower-cased extension is msi, exe, dmg or pkg is found as an
/// installer, under its own path and size, in the "installers" category;
/// when the scan has at most 200 findings the report lists it.
pub proof fn lemma_installers_flagged(
    e: Seq<FileEntry>,
    h: Seq<Option<String>>,
    root_name: Seq<char>,
    now: i64,
    i: int,
)
    requires
        0 <= i < e.len(),
        lower_seq(root_name) == "downloads"@ || lower_seq(root_name) == "desktop"@,
        ext_key(e[i].file_name@) == "msi"@ || ext_key(e[i].file_name@) == "exe"@ || ext_key(
            e[i].file_name@,
        ) == "dmg"@ || ext_key(e[i].file_name@) == "pkg"@,
    ensures
        ({
            let a = all_suggestions(e, h, root_name, now);
            let found = |x: SuggestionView|
                x.path == e[i].path@ && x.reason == DeclutterReason::Installer && x.detail
                    == "Installer — usually needed once, safe to remove afterwards"@ && x.size_bytes
                    == e[i].size && x.category == "installers"@;
            &&& exists|j: int| 0 <= j < a.len() && found(#[trigger] a[j])
            &&& a.len() <= 200 ==> exists|j: int|
                0 <= j < scan_suggestions(e, h, root_name, now).len() && found(
                    #[trigger] scan_suggestions(e, h, root_name, now)[j],
                )
        }),
{
    broadcast use vstd::seq_lib::group_to_multiset_ensures;

    lemma_category_table(ext_key(e[i].file_name@));
    let n = e.len() as int;
    let d = duplicate_bodies(e, h, n);
    let hb = heuristic_bodies(e, root_name, now, n);
    let b = heuristic_body(e[i], root_name, now);
    assert(b is Some && b->0.reason == DeclutterReason::Installer);
    lemma_heuristic_bodies_contain(e, root_name, now, n, i);
    let j = choose|j: int| 0 <= j < hb.len() && #[trigger] hb[j] == b->0;
    let a = all_suggestions(e, h, root_name, now);
    let idx = d.len() + j;
    assert((d + hb)[idx] == hb[j]);
    assert(a[idx] == with_id((d + hb)[idx], (idx + 1) as nat));
    let found = |x: SuggestionView|
        x.path == e[i].path@ && x.reason == DeclutterReason::Installer && x.detail
            == "Installer — usually needed once, safe to remove afterwards"@ && x.size_bytes
            == e[i].size && x.category == "installers"@;
    assert(found(a[idx]));
    if a.len() <= 200 {
        lemma_scan_report(e, h, root_name, now);
        let r = scan_suggestions(e, h, root_name, now);
        assert(a.contains(a[idx]));
        assert(r.to_multiset().count(a[idx]) > 0);
        assert(r.contains(a[idx]));
        let q = choose|q: int| 0 <= q < r.len() && r[q] == a[idx];
        assert(found(r[q]));
    }
}

proof fn lemma_archive_not_installer(e: Seq<char>)
    ensures
        (e == "zip"@ || e == "rar"@ || e == "7z"@ || e == "tar"@ || e == "gz"@ || e == "iso"@)
            ==> archive_spec(e) && !installer_ext_spec(e),
{
    reveal_strlit("msi");
    reveal_strlit("exe");
    reveal_strlit("dmg");
    reveal_strlit("pkg");
    reveal_strlit("zip");
    reveal_strlit("rar");
    reveal_strlit("7z");
    reveal_strlit("tar");
    reveal_strlit("gz");
    reveal_strlit("iso");
    assert(e == "msi"@ ==> e.len() == 3 && e[0] == 'm' && e[1] == 's' && e[2] == 'i');
    assert(e == "exe"@ ==> e.len() == 3 && e[0] == 'e' && e[1] == 'x' && e[2] == 'e');
    assert(e == "dmg"@ ==> e.len() == 3 && e[0] == 'd' && e[1] == 'm' && e[2] == 'g');
    assert(e == "pkg"@ ==> e.len() == 3 && e[0] == 'p' && e[1] == 'k' && e[2] == 'g');
    assert(e == "zip"@ ==> e.len() == 3 && e[0] == 'z' && e[1] == 'i' && e[2] == 'p');
    assert(e == "rar"@ ==> e.len() == 3 && e[0] == 'r' && e[1] == 'a' && e[2] == 'r');
    assert(e == "7z"@ ==> e.len() == 2 && e[0] == '7' && e[1] == 'z');
    assert(e == "tar"@ ==> e.len() == 3 && e[0] == 't' && e[1] == 'a' && e[2] == 'r');
    assert(e == "gz"@ ==> e.len() == 2 && e[0] == 'g' && e[1] == 'z');
    assert(e == "iso"@ ==> e.len() == 3 && e[0] == 'i' && e[1] == 's' && e[2] == 'o');
}

/// Two findings agree on everything but their number.
pub open spec fn same_finding(x: SuggestionView, y: SuggestionView) -> bool {
    x.path == y.path && x.reason == y.reason && x.detail == y.detail && x.size_bytes
        == y.size_bytes && x.category == y.category
}

/// A finding among a scan's findings is in the report when the scan has at
/// most 200 findings.
proof fn lemma_finding_reported(
    e: Seq<FileEntry>,
    h: Seq<Option<String>>,
    root_name: Seq<char>,
    now: i64,
    idx: int,
)
    requires
        0 <= idx < all_suggestions(e, h, root_name, now).len() <= 200,
    ensures
        exists|q: int|
            0 <= q < scan_suggestions(e, h, root_name, now).len() && same_finding(
                #[trigger] scan_suggestions(e, h, root_name, now)[q],
                all_suggestions(e, h, root_name, now)[idx],
            ),
{
    broadcast use vstd::seq_lib::group_to_multiset_ensures;

    let a = all_suggestions(e, h, root_name, now);
    lemma_scan_report(e, h, root_name, now);
    let r = scan_suggestions(e, h, root_name, now);
    assert(a.contains(a[idx]));
    assert(r.to_multiset().count(a[idx]) > 0);
    assert(r.contains(a[idx]));
    let q = choose|q: int| 0 <= q < r.len() && r[q] == a[idx];
    assert(same_finding(r[q], a[idx]));
}

/// The per-file rule's finding for file `i`, if any, is among the scan's findings.
proof fn lemma_heuristic_listed(
    e: Seq<FileEntry>,
    h: Seq<Option<String>>,
    root_name: Seq<char>,
    now: i64,
    i: int,
)
    requires
        0 <= i < e.len(),
        heuristic_body(e[i], root_name, now) is Some,
    ensures
        exists|j: int|
            0 <= j < all_suggestions(e, h, root_name, now).len() && same_finding(
                #[trigger] all_suggestions(e, h, root_name, now)[j],
                heuristic_body(e[i], root_name, now)->0,
            ),
{
    let n = e.len() as int;
    let d = duplicate_bodies(e, h, n);
    let hb = heuristic_bodies(e, root_name, now, n);
    let b = heuristic_body(e[i], root_name, now)->0;
    lemma_heuristic_bodies_contain(e, root_name, now, n, i);
    let j = choose|j: int| 0 <= j < hb.len() && #[trigger] hb[j] == b;
    let a = all_suggestions(e, h, root_name, now);
    let idx = d.len() + j;
    assert((d + hb)[idx] == hb[j]);
    assert(a[idx] == with_id((d + hb)[idx], (idx + 1) as nat));
    assert(same_finding(a[idx], b));
}

/// A file with an archive extension (zip, rar, 7z, tar, gz, iso) of at least
/// 500 MiB is found as a large archive under its path and size; when the scan
/// has at most 200 findings the report lists it.
pub proof fn lemma_large_archives_flagged(
    e: Seq<FileEntry>,
    h: Seq<Option<String>>,
    root_name: Seq<char>,
    now: i64,
    i: int,
)
    requires
        0 <= i < e.len(),
        e[i].size >= 500 * 1024 * 1024,
        ({
            let x = ext_key(e[i].file_name@);
            x == "zip"@ || x == "rar"@ || x == "7z"@ || x == "tar"@ || x == "gz"@ || x == "iso"@
        }),
    ensures
        ({
            let found = |x: SuggestionView|
                x.path == e[i].path@ && x.reason == DeclutterReason::LargeArchive && x.detail
                    == "Very large archive — candidate for cloud storage or deletion"@ && x.size_bytes
                    == e[i].size;
            let a = all_suggestions(e, h, root_name, now);
            let r = scan_suggestions(e, h, root_name, now);
            &&& exists|j: int| 0 <= j < a.len() && found(#[trigger] a[j])
            &&& a.len() <= 200 ==> exists|j: int| 0 <= j < r.len() && found(#[trigger] r[j])
        }),
{
    lemma_archive_not_installer(ext_key(e[i].file_name@));
    lemma_heuristic_listed(e, h, root_name, now, i);
    let a = all_suggestions(e, h, root_name, now);
    let b = heuristic_body(e[i], root_name, now)->0;
    let j = choose|j: int| 0 <= j < a.len() && same_finding(#[trigger] a[j], b);
    if a.len() <= 200 {
        lemma_finding_reported(e, h, root_name, now, j);
    }
}

/// A file untouched for more than 90 days, whose extension is neither an
/// installer's (msi, exe, dmg, pkg) nor an archive's (zip, rar, 7z, tar, gz,
/// iso), is found as stale, with its age in whole days; when the scan has at
/// most 200 findings the report lists it.
pub proof fn lemma_stale_files_flagged(
    e: Seq<FileEntry>,
    h: Seq<Option<String>>,
    root_name: Seq<char>,
    now: i64,
    i: int,
)
    requires
        0 <= i < e.len(),
        now - e[i].mtime > 90 * 86400,
        ({
            let x = ext_key(e[i].file_name@);
            !(x == "msi"@ || x == "exe"@ || x == "dmg"@ || x == "pkg"@ || x == "zip"@ || x == "rar"@
                || x == "7z"@ || x == "tar"@ || x == "gz"@ || x == "iso"@)
        }),
    ensures
        ({
            let found = |x: SuggestionView|
                x.path == e[i].path@ && x.reason == DeclutterReason::Stale && x.detail
                    == "Untouched since "@ + decimal_int((now - e[i].mtime) / 86400) + " days ago"@
                    && x.size_bytes == e[i].size;
            let a = all_suggestions(e, h, root_name, now);
            let r = scan_suggestions(e, h, root_name, now);
            &&& exists|j: int| 0 <= j < a.len() && found(#[trigger] a[j])
            &&& a.len() <= 200 ==> exists|j: int| 0 <= j < r.len() && found(#[trigger] r[j])
        }),
{
    let age = now - e[i].mtime;
    assert(div_trunc(age, 86400) == age / 86400);
    assert("Untouched since "@ + days_text(age) =~= "Untouched since "@ + decimal_int(age / 86400)
        + " days ago"@);
    lemma_heuristic_listed(e, h, root_name, now, i);
    let a = all_suggestions(e, h, root_name, now);
    let b = heuristic_body(e[i], root_name, now)->0;
    let j = choose|j: int| 0 <= j < a.len() && same_finding(#[trigger] a[j], b);
    if a.len() <= 200 {
        lemma_finding_reported(e, h, root_name, now, j);
    }
}

proof fn lemma_duplicate_bodies_contain(e: Seq<FileEntry>, h: Seq<Option<String>>, k: int, i: int)
    requires
        0 <= i < k <= e.len(),
        duplicate_body(e, h, i) is Some,
    ensures
        exists|j: int|
            0 <= j < duplicate_bodies(e, h, k).len() && #[trigger] duplicate_bodies(e, h, k)[j]
                == duplicate_body(e, h, i)->0,
    decreases k,
{
    let prev = duplicate_bodies(e, h, k - 1);
    if i < k - 1 {
        lemma_duplicate_bodies_contain(e, h, k - 1, i);
        let j = choose|j: int| 0 <= j < prev.len() && #[trigger] prev[j] == duplicate_body(e, h, i)->0;
        assert(duplicate_bodies(e, h, k)[j] == prev[j]);
    } else {
        assert(duplicate_bodies(e, h, k)[prev.len() as int] == duplicate_body(e, h, i)->0);
    }
}

/// When two files (at most 2 GiB, not empty) have the same size and the same
/// content hash, the later one is found as an exact duplicate of the first
/// earlier file identical to it; when the scan has at most 200 findings the
/// report lists it.
pub proof fn lemma_duplicates_flagged(
    e: Seq<FileEntry>,
    h: Seq<Option<String>>,
    root_name: Seq<char>,
    now: i64,
    i: int,
    j: int,
)
    requires
        0 <= i < j < e.len(),
        h.len() == e.len(),
        e[i].size == e[j].size,
        0 < e[j].size <= 2 * 1024 * 1024 * 1024,
        h[i] is Some && h[j] is Some && h[i]->0@ == h[j]->0@,
    ensures
        ({
            let found = |x: SuggestionView|
                x.path == e[j].path@ && x.reason == DeclutterReason::Duplicate && x.size_bytes
                    == e[j].size && exists|f: int|
                    0 <= f <= i && e[f].size == e[j].size && h[f] is Some && h[f]->0@ == h[j]->0@
                        && x.detail == "Exact duplicate of "@ + e[f].path@;
            let a = all_suggestions(e, h, root_name, now);
            let r = scan_suggestions(e, h, root_name, now);
            &&& exists|q: int| 0 <= q < a.len() && found(#[trigger] a[q])
            &&& a.len() <= 200 ==> exists|q: int| 0 <= q < r.len() && found(#[trigger] r[q])
        }),
{
    lemma_first_twin_from(e, h, j, 0);
    assert(e[i].size == e[j].size && same_hash(h, j, i));
    let f = duplicate_of(e, h, j)->0;
    assert(f <= i) by {
        lemma_duplicate_of_earlier(e, h, j);
    }
    let n = e.len() as int;
    lemma_duplicate_bodies_contain(e, h, n, j);
    let d = duplicate_bodies(e, h, n);
    let b = duplicate_body(e, h, j)->0;
    let k = choose|k: int| 0 <= k < d.len() && #[trigger] d[k] == b;
    let a = all_suggestions(e, h, root_name, now);
    let hb = heuristic_bodies(e, root_name, now, n);
    assert((d + hb)[k] == d[k]);
    assert(a[k] == with_id((d + hb)[k], (k + 1) as nat));
    let found = |x: SuggestionView|
        x.path == e[j].path@ && x.reason == DeclutterReason::Duplicate && x.size_bytes
            == e[j].size && exists|f: int|
            0 <= f <= i && e[f].size == e[j].size && h[f] is Some && h[f]->0@ == h[j]->0@
                && x.detail == "Exact duplicate of "@ + e[f].path@;
    assert(found(a[k]));
    if a.len() <= 200 {
        lemma_finding_reported(e, h, root_name, now, k);
        let r = scan_suggestions(e, h, root_name, now);
        let q = choose|q: int| 0 <= q < r.len() && same_finding(#[trigger] r[q], a[k]);
        assert(found(r[q]));
    }
}

} // verus!
