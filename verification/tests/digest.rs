use sitecache::digest::check_content;
use sitecache::digest::meta_unchanged;
use sitecache::digest::probe;
use sitecache::digest::Digest;
use sitecache::digest::FileMeta;
use sitecache::digest::FileState;
use sitecache::digest::Load;

fn readable(mtime: i64, size: u64, contents: &str) -> FileState {
    FileState::Readable { meta: FileMeta { mtime, size }, contents: contents.to_string() }
}

#[test]
fn test_probe_unreadable() {
    assert!(matches!(probe(&None, FileState::Unreadable), Load::Error));
}

#[test]
fn test_probe_first_read_changes() {
    match probe(&None, readable(1, 3, "abc")) {
        Load::Changed(d, contents) => {
            assert_eq!(d.mtime, 1);
            assert_eq!(d.size, 3);
            assert_eq!(contents, "abc");
        }
        _ => panic!("a first read must report a change"),
    }
}

#[test]
fn test_probe_fast_path_ignores_content() {
    let d = match probe(&None, readable(1, 3, "abc")) {
        Load::Changed(d, _) => d,
        _ => panic!("a first read must report a change"),
    };
    // Same metadata: unchanged, whatever the bytes now say.
    match probe(&Some(d), readable(1, 3, "zzz")) {
        Load::Unchanged(d2) => assert_eq!(d2, d),
        _ => panic!("matching metadata must take the fast path"),
    }
    assert!(meta_unchanged(&Some(d), &FileMeta { mtime: 1, size: 3 }));
    assert!(!meta_unchanged(&Some(d), &FileMeta { mtime: 2, size: 3 }));
    assert!(!meta_unchanged(&Some(d), &FileMeta { mtime: 1, size: 4 }));
    assert!(!meta_unchanged(&None, &FileMeta { mtime: 1, size: 3 }));
}

#[test]
fn test_probe_hash_confirms_unchanged() {
    let d = match probe(&None, readable(1, 3, "abc")) {
        Load::Changed(d, _) => d,
        _ => panic!("a first read must report a change"),
    };
    // Metadata churned, bytes identical: unchanged under a refreshed digest.
    match probe(&Some(d), readable(7, 3, "abc")) {
        Load::Unchanged(d2) => {
            assert_eq!(d2.mtime, 7);
            assert_eq!(d2.size, 3);
            assert_eq!(d2.hash, d.hash);
        }
        _ => panic!("identical bytes must be confirmed unchanged"),
    }
    // Different bytes: a change, under a different hash.
    match probe(&Some(d), readable(7, 3, "abd")) {
        Load::Changed(d2, contents) => {
            assert_ne!(d2.hash, d.hash);
            assert_eq!(contents, "abd");
        }
        _ => panic!("different bytes must be a change"),
    }
}

#[test]
fn test_hash_depends_on_content_alone() {
    let d1 = match check_content(&None, &FileMeta { mtime: 1, size: 2 }, "xy".to_string()) {
        Load::Changed(d, _) => d,
        _ => panic!("no previous digest: always a change"),
    };
    let d2 = match check_content(&None, &FileMeta { mtime: 9, size: 2 }, "xy".to_string()) {
        Load::Changed(d, _) => d,
        _ => panic!("no previous digest: always a change"),
    };
    assert_eq!(d1.hash, d2.hash);
    let d3 = match check_content(&None, &FileMeta { mtime: 1, size: 2 }, "xz".to_string()) {
        Load::Changed(d, _) => d,
        _ => panic!("no previous digest: always a change"),
    };
    assert_ne!(d1.hash, d3.hash);
}

#[test]
fn test_digest_equality_needs_all_fields() {
    let a = Digest { mtime: 1, size: 2, hash: 3 };
    assert_eq!(a, Digest { mtime: 1, size: 2, hash: 3 });
    assert_ne!(a, Digest { mtime: 9, size: 2, hash: 3 });
    assert_ne!(a, Digest { mtime: 1, size: 9, hash: 3 });
    assert_ne!(a, Digest { mtime: 1, size: 2, hash: 9 });
}
