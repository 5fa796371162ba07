use smarthub::declutter::{
    analyze_scan, category_of, days_ago, days_ago_at, is_archive, is_installer_dir, load,
    model_filename, needs_hash, ContentHasher, DeclutterReason, FileEntry, MAX_SUGGESTIONS,
};

const DAY: i64 = 86_400;
const NOW: i64 = 1_700_000_000;

fn entry(path: &str, name: &str, size: u64, mtime: i64) -> FileEntry {
    FileEntry { path: path.to_string(), file_name: name.to_string(), size, mtime }
}

#[test]
fn categories_by_extension() {
    assert_eq!(category_of("photo.JPG"), "images");
    assert_eq!(category_of("clip.webm"), "videos");
    assert_eq!(category_of("song.flac"), "audio");
    assert_eq!(category_of("backup.tar.gz"), "archives");
    assert_eq!(category_of("setup.msi"), "installers");
    assert_eq!(category_of("disk.iso"), "installers");
    assert_eq!(category_of("notes.md"), "documents");
    assert_eq!(category_of("Cargo.lock"), "code");
    assert_eq!(category_of(".bashrc"), "other");
    assert_eq!(category_of("README"), "other");
    assert_eq!(category_of("trailing."), "other");
}

#[test]
fn archive_extensions() {
    for ext in ["zip", "rar", "7z", "tar", "gz", "iso"] {
        assert!(is_archive(ext), "{ext}");
    }
    assert!(!is_archive("ZIP"));
    assert!(!is_archive("exe"));
    assert!(!is_archive(""));
}

#[test]
fn installer_locations() {
    assert!(is_installer_dir("Downloads"));
    assert!(is_installer_dir("desktop"));
    assert!(is_installer_dir("DESKTOP"));
    assert!(!is_installer_dir("Projects"));
    assert!(!is_installer_dir("myproject"));
    assert!(!is_installer_dir("Downloads-old"));
}

#[test]
fn days_ago_text() {
    assert_eq!(days_ago_at(0, 3 * DAY + 5), "3 days ago");
    assert_eq!(days_ago_at(NOW, NOW), "0 days ago");
    assert_eq!(days_ago_at(100, 0), "0 days ago");
    assert_eq!(days_ago_at(2 * DAY, 0), "-2 days ago");
    assert!(days_ago(0).ends_with(" days ago"));
}

#[test]
fn model_file() {
    assert_eq!(model_filename(), "Llama-3.2-3B-Instruct-Q4_K_M.gguf");
    assert_eq!(load("/models/m.gguf").path, "/models/m.gguf");
}

fn sample() -> Vec<FileEntry> {
    vec![
        entry("/d/a.txt", "a.txt", 100, NOW - 10),
        entry("/d/b.txt", "b.txt", 100, NOW - 10),
        entry("/d/setup.exe", "setup.exe", 5000, NOW - 10),
        entry("/d/big.zip", "big.zip", 600 * 1024 * 1024, NOW - 10),
        entry("/d/old.png", "old.png", 10, NOW - 100 * DAY),
        entry("/d/c.txt", "c.txt", 100, NOW - 10),
    ]
}

#[test]
fn which_files_to_hash() {
    let entries = sample();
    assert_eq!(needs_hash(&entries), vec![true, true, false, false, false, true]);
    let empty_twins = vec![entry("/a", "a", 0, 0), entry("/b", "b", 0, 0)];
    assert_eq!(needs_hash(&empty_twins), vec![false, false]);
}

#[test]
fn scan_scenario() {
    let entries = sample();
    let hashes = vec![
        Some("h1".to_string()),
        Some("h1".to_string()),
        None,
        None,
        None,
        Some("h2".to_string()),
    ];
    let r = analyze_scan("/d".to_string(), "Downloads", &entries, &hashes, NOW);
    assert_eq!(r.folder, "/d");
    assert_eq!(r.file_count, 6);
    assert_eq!(r.total_bytes, 100 + 100 + 5000 + 600 * 1024 * 1024 + 10 + 100);
    assert_eq!(
        r.categories,
        vec![
            ("documents".to_string(), 3),
            ("installers".to_string(), 1),
            ("archives".to_string(), 1),
            ("images".to_string(), 1),
        ]
    );
    let s = &r.suggestions;
    assert_eq!(s.len(), 4);
    assert_eq!(s[0].id, "sug-3");
    assert_eq!(s[0].path, "/d/big.zip");
    assert_eq!(s[0].reason, DeclutterReason::LargeArchive);
    assert_eq!(s[0].detail, "Very large archive — candidate for cloud storage or deletion");
    assert_eq!(s[0].category, "archives");
    assert_eq!(s[1].id, "sug-2");
    assert_eq!(s[1].reason, DeclutterReason::Installer);
    assert_eq!(s[1].detail, "Installer — usually needed once, safe to remove afterwards");
    assert_eq!(s[1].category, "installers");
    assert_eq!(s[2].id, "sug-1");
    assert_eq!(s[2].path, "/d/b.txt");
    assert_eq!(s[2].reason, DeclutterReason::Duplicate);
    assert_eq!(s[2].detail, "Exact duplicate of /d/a.txt");
    assert_eq!(s[2].size_bytes, 100);
    assert_eq!(s[3].id, "sug-4");
    assert_eq!(s[3].reason, DeclutterReason::Stale);
    assert_eq!(s[3].detail, "Untouched since 100 days ago");
    assert_eq!(s[3].category, "images");
}

#[test]
fn scan_keeps_first_of_each_duplicate_group() {
    let entries = vec![
        entry("/x/1", "1.bin", 50, NOW),
        entry("/x/2", "2.bin", 50, NOW),
        entry("/x/3", "3.bin", 50, NOW),
    ];
    let h = Some("same".to_string());
    let r = analyze_scan("/x".to_string(), "x", &entries, &vec![h.clone(), h.clone(), h], NOW);
    assert_eq!(r.suggestions.len(), 2);
    assert_eq!(r.suggestions[0].path, "/x/2");
    assert_eq!(r.suggestions[0].detail, "Exact duplicate of /x/1");
    assert_eq!(r.suggestions[1].path, "/x/3");
    assert_eq!(r.suggestions[1].detail, "Exact duplicate of /x/1");
}

#[test]
fn setup_inside_a_project_is_left_alone() {
    let entries = vec![entry("/home/u/myproject/setup.exe", "setup.exe", 1, NOW)];
    let r = analyze_scan("/home/u/myproject".to_string(), "myproject", &entries, &vec![None], NOW);
    assert!(r.suggestions.is_empty());
    let entries = vec![entry("/home/u/Downloads/tools/app.exe", "app.exe", 1, NOW)];
    let r = analyze_scan("/home/u/Downloads".to_string(), "Downloads", &entries, &vec![None], NOW);
    assert_eq!(r.suggestions.len(), 1);
    assert_eq!(r.suggestions[0].reason, DeclutterReason::Installer);
}

#[test]
fn installer_rule_comes_before_staleness() {
    let entries = vec![entry("/dl/tool.exe", "tool.exe", 1, NOW - 365 * DAY)];
    let r = analyze_scan("/dl".to_string(), "Downloads", &entries, &vec![None], NOW);
    assert_eq!(r.suggestions.len(), 1);
    assert_eq!(r.suggestions[0].reason, DeclutterReason::Installer);
}

#[test]
fn scan_caps_suggestions() {
    let mut entries = Vec::new();
    for i in 0..250u64 {
        entries.push(entry(&format!("/o/{i}.txt"), &format!("{i}.txt"), i, NOW - 200 * DAY));
    }
    let hashes = vec![None; 250];
    let r = analyze_scan("/o".to_string(), "o", &entries, &hashes, NOW);
    assert_eq!(r.suggestions.len(), MAX_SUGGESTIONS);
    assert_eq!(r.suggestions[0].size_bytes, 249);
    assert_eq!(r.suggestions[0].id, "sug-250");
    for w in r.suggestions.windows(2) {
        assert!(w[0].size_bytes >= w[1].size_bytes);
    }
    assert_eq!(r.categories, vec![("documents".to_string(), 250)]);
}

#[test]
fn empty_scan() {
    let r = analyze_scan("/e".to_string(), "e", &Vec::new(), &Vec::new(), NOW);
    assert_eq!(r.file_count, 0);
    assert_eq!(r.total_bytes, 0);
    assert!(r.suggestions.is_empty());
    assert!(r.categories.is_empty());
}

#[test]
fn content_hashes() {
    let mut h = ContentHasher::new();
    assert_eq!(h.hex(), "af1349b9f5f9a1a6a0404dea36dcc9499bcb25c9adc112b7cc9a93cae41f3262");
    h.feed(b"abc");
    assert_eq!(h.hex(), "6437b3ac38465133ffb63b75273a8db548c558465d79db03fd359c6cd5bd9d85");
    let mut parts = ContentHasher::new();
    parts.feed(b"a");
    parts.feed(b"");
    parts.feed(b"bc");
    assert_eq!(parts.hex(), h.hex());
}
