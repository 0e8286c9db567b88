use std::io::Read;
use tgz_archive::{
    select_content, Archive, AttrOption, BuildError, ConfigError, GzipStrategy, OptionValue,
    SourceFile, TgzArchiveExpander,
};

fn file(path: &str, content: &[u8]) -> SourceFile {
    SourceFile { path: path.to_string(), content: content.to_vec() }
}

fn sample_tree() -> Vec<SourceFile> {
    vec![file("a.txt", b"hello\n"), file("js/bar.js", b"foo\n")]
}

fn gunzip(bytes: &[u8]) -> Vec<u8> {
    let mut out = Vec::new();
    flate2::read::GzDecoder::new(bytes).read_to_end(&mut out).unwrap();
    out
}

fn opt(name: &str, value: OptionValue) -> AttrOption {
    AttrOption { name: name.to_string(), value }
}

fn text(s: &str) -> OptionValue {
    OptionValue::Str(s.to_string())
}

fn larger_tree() -> Vec<SourceFile> {
    let mut files = Vec::new();
    for i in 0..40u32 {
        let content: Vec<u8> = if i % 2 == 0 {
            vec![b'x'; 200 + i as usize]
        } else {
            format!("file {}\n", i).into_bytes()
        };
        files.push(SourceFile { path: format!("dir{}/file{}.txt", i % 3, i), content });
    }
    files
}

#[test]
fn it_works() {
    let expander = TgzArchiveExpander::new(
        "Assets".to_string(),
        vec![opt("path", text("../src"))],
    )
    .unwrap();
    let archive = expander.expand(&sample_tree()).unwrap();
    println!("{:?}", archive);
}

#[test]
fn auto_keeps_small_files_raw() {
    let archive = Archive::build(&sample_tree(), GzipStrategy::Auto).unwrap();
    assert_eq!(archive.get("a.txt"), Some((&b"hello\n"[..], false)));
    assert_eq!(archive.get("js/bar.js"), Some((&b"foo\n"[..], false)));
}

#[test]
fn never_returns_raw_bytes() {
    let archive = Archive::build(&sample_tree(), GzipStrategy::Never).unwrap();
    assert_eq!(archive.get_bytes("js/bar.js"), Some(&b"foo\n"[..]));
    assert_eq!(archive.get_bytes("a.txt"), Some(&b"hello\n"[..]));
}

#[test]
fn all_returns_gzip_container() {
    let archive = Archive::build(&sample_tree(), GzipStrategy::All).unwrap();
    let stored = archive.get_bytes("js/bar.js").unwrap();
    assert_eq!(&stored[..2], &[31u8, 139][..]);
    assert!(stored.len() > 4);
    assert_eq!(gunzip(stored), b"foo\n".to_vec());
    let (bytes, flag) = archive.get("a.txt").unwrap();
    assert!(flag);
    assert_eq!(gunzip(bytes), b"hello\n".to_vec());
}

#[test]
fn every_file_round_trips_under_each_policy() {
    let files = larger_tree();
    for policy in [GzipStrategy::Never, GzipStrategy::Auto, GzipStrategy::All] {
        let archive = Archive::build(&files, policy).unwrap();
        for f in &files {
            let (bytes, flag) = archive.get(&f.path).unwrap();
            match policy {
                GzipStrategy::Never => assert!(!flag),
                GzipStrategy::All => assert!(flag),
                GzipStrategy::Auto => {}
            }
            let decoded = if flag { gunzip(bytes) } else { bytes.to_vec() };
            assert_eq!(decoded, f.content);
        }
    }
}

#[test]
fn auto_compresses_only_when_smaller() {
    let files = larger_tree();
    let archive = Archive::build(&files, GzipStrategy::Auto).unwrap();
    for f in &files {
        let (packed, _) = select_content(GzipStrategy::All, &f.content);
        let (bytes, flag) = archive.get(&f.path).unwrap();
        if packed.len() < f.content.len() {
            assert!(flag);
            assert_eq!(bytes, &packed[..]);
        } else {
            assert!(!flag);
            assert_eq!(bytes, &f.content[..]);
        }
    }
    let (bytes, flag) = archive.get("dir0/file0.txt").unwrap();
    assert!(flag);
    assert!(bytes.len() < 200);
}

#[test]
fn select_content_compresses_under_all() {
    let (bytes, flag) = select_content(GzipStrategy::All, b"foo\n");
    assert!(flag);
    assert_ne!(bytes, b"foo\n".to_vec());
    assert_eq!(gunzip(&bytes), b"foo\n".to_vec());
    let (raw, flag) = select_content(GzipStrategy::Never, b"foo\n");
    assert!(!flag);
    assert_eq!(raw, b"foo\n".to_vec());
}

#[test]
fn list_holds_each_path_once() {
    let files = larger_tree();
    let archive = Archive::build(&files, GzipStrategy::Never).unwrap();
    let mut listed = archive.list();
    assert_eq!(listed.len(), files.len());
    listed.sort();
    let mut expected: Vec<String> = files.iter().map(|f| f.path.clone()).collect();
    expected.sort();
    assert_eq!(listed, expected);
}

#[test]
fn absent_paths_are_not_found() {
    let files = larger_tree();
    for policy in [GzipStrategy::Never, GzipStrategy::Auto, GzipStrategy::All] {
        let archive = Archive::build(&files, policy).unwrap();
        for q in ["", "a.txt", "dir0/file1.txt", "dir1/file0.txt", "file0.txt", "dir0/file0.txt/"] {
            assert_eq!(archive.get(q), None);
            assert_eq!(archive.get_bytes(q), None);
        }
    }
}

#[test]
fn hash_slots_are_distinct() {
    let files = larger_tree();
    let archive = Archive::build(&files, GzipStrategy::Never).unwrap();
    assert_eq!(archive.entries.len(), files.len());
    for (slot, entry) in archive.entries.iter().enumerate() {
        let found = archive.get(&entry.path).unwrap();
        assert_eq!(found.0, &archive.buffer[entry.start..entry.end]);
        for other in &archive.entries[slot + 1..] {
            assert_ne!(entry.path, other.path);
        }
    }
}

#[test]
fn buffer_is_files_in_order() {
    let archive = Archive::build(&sample_tree(), GzipStrategy::Never).unwrap();
    assert_eq!(archive.buffer, b"hello\nfoo\n".to_vec());
}

#[test]
fn empty_tree_gives_empty_archive() {
    let archive = Archive::build(&Vec::new(), GzipStrategy::Auto).unwrap();
    assert!(archive.list().is_empty());
    assert_eq!(archive.get("a.txt"), None);
    assert_eq!(archive.get(""), None);
}

#[test]
fn duplicate_path_is_refused() {
    let files = vec![file("a.txt", b"one"), file("b.txt", b"two"), file("a.txt", b"three")];
    assert_eq!(Archive::build(&files, GzipStrategy::Never).err(), Some(BuildError::DuplicatePath));
}

#[test]
fn options_are_read() {
    let e = TgzArchiveExpander::new(
        "Assets".to_string(),
        vec![opt("path", text("./assets")), opt("gzip", text("AUTO")), opt("other", OptionValue::NotLit)],
    )
    .unwrap();
    assert_eq!(e.ident, "Assets");
    assert_eq!(e.path, "./assets");
    assert_eq!(e.gzip, GzipStrategy::Auto);
    let d = TgzArchiveExpander::new("A".to_string(), vec![opt("path", text("x"))]).unwrap();
    assert_eq!(d.gzip, GzipStrategy::Never);
    let last = TgzArchiveExpander::new(
        "A".to_string(),
        vec![opt("path", text("x")), opt("gzip", text("all")), opt("path", text("y"))],
    )
    .unwrap();
    assert_eq!(last.path, "y");
    assert_eq!(last.gzip, GzipStrategy::All);
}

#[test]
fn option_errors() {
    let cases = vec![
        (vec![], ConfigError::PathMissing),
        (vec![opt("gzip", text("all"))], ConfigError::PathMissing),
        (vec![opt("path", OptionValue::OtherLit)], ConfigError::PathNotString),
        (vec![opt("path", OptionValue::NotLit)], ConfigError::PathNotExpression),
        (vec![opt("path", text("x")), opt("gzip", text("zip"))], ConfigError::GzipUnknown),
        (vec![opt("path", text("x")), opt("gzip", OptionValue::OtherLit)], ConfigError::GzipNotString),
        (vec![opt("gzip", OptionValue::NotLit), opt("path", text("x"))], ConfigError::GzipNotExpression),
    ];
    for (options, expected) in cases {
        let r = TgzArchiveExpander::new("A".to_string(), options);
        assert_eq!(r.err(), Some(expected));
    }
    assert_eq!(ConfigError::GzipUnknown.message(), "gzip must be 'never' or 'auto' or 'all'");
    assert_eq!(ConfigError::PathMissing.message(), "path must be specified");
}

#[test]
fn policy_names() {
    assert_eq!(GzipStrategy::from_lowercase("never"), Some(GzipStrategy::Never));
    assert_eq!(GzipStrategy::from_lowercase("auto"), Some(GzipStrategy::Auto));
    assert_eq!(GzipStrategy::from_lowercase("all"), Some(GzipStrategy::All));
    assert_eq!(GzipStrategy::from_lowercase("All"), None);
    assert_eq!(GzipStrategy::from_lowercase(""), None);
}

#[test]
fn every_error_has_its_message() {
    assert_eq!(ConfigError::PathNotString.message(), "path must be string literal");
    assert_eq!(ConfigError::PathNotExpression.message(), "path must be expression");
    assert_eq!(ConfigError::GzipNotString.message(), "gzip must be string literal");
    assert_eq!(ConfigError::GzipNotExpression.message(), "gzip must be expression");
}
