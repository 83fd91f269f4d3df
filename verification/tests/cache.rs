use sitecache::cache::Cache;
use sitecache::cache::CacheError;
use sitecache::cache::Cacheable;
use sitecache::cache::ComputeError;
use sitecache::digest::FileMeta;
use sitecache::digest::FileState;

fn readable(mtime: i64, size: u64, contents: &str) -> FileState {
    FileState::Readable { meta: FileMeta { mtime, size }, contents: contents.to_string() }
}

/// A page rendered to the HTML under its `contents` variable.
struct Rendered(String);

impl Cacheable for Rendered {
    fn compute(src: &str) -> Result<Self, ComputeError> {
        let page = sitecache::markdown::markdown(src)
            .map_err(|_| ComputeError { message: "invalid page".to_string() })?;
        match page.get("contents") {
            Some(html) => Ok(Rendered(html.clone())),
            None => Ok(Rendered(String::new())),
        }
    }

    fn duplicate(&self) -> Self {
        Rendered(self.0.clone())
    }
}

/// A value whose recomputation always fails.
struct Rejecting(u32);

impl Cacheable for Rejecting {
    fn compute(_src: &str) -> Result<Self, ComputeError> {
        Err(ComputeError { message: "always rejected".to_string() })
    }

    fn duplicate(&self) -> Self {
        Rejecting(self.0)
    }
}

/// A value whose recomputation must never run.
struct Untouchable(u32);

impl Cacheable for Untouchable {
    fn compute(_src: &str) -> Result<Self, ComputeError> {
        panic!("the fast path must not recompute");
    }

    fn duplicate(&self) -> Self {
        Untouchable(self.0)
    }
}

#[test]
fn test_page_cache_scenario() {
    // Seed "", file page.md with "# Hi"; then a rewrite; then deletion.
    let mut cache: Cache<Rendered> = Cache::new("page.md".to_string(), Rendered(String::new()));
    assert_eq!(cache.path(), "page.md");

    let (v, err) = cache.load(0, readable(100, 4, "# Hi"));
    assert_eq!(v.0, "<h1>Hi</h1>\n");
    assert!(err.is_none());

    // Rewritten with a new mtime; the debounce window has passed.
    let (v, err) = cache.load(10, readable(200, 5, "# Hi!"));
    assert_eq!(v.0, "<h1>Hi!</h1>\n");
    assert!(err.is_none());

    // Deleted: the previous value is served beside an error.
    let (v, err) = cache.load(20, FileState::Unreadable);
    assert_eq!(v.0, "<h1>Hi!</h1>\n");
    assert!(matches!(err, Some(CacheError::CannotRead)));
}

#[test]
fn test_idempotent_within_window() {
    let mut cache: Cache<String> = Cache::new("f".to_string(), String::new());
    let (v, err) = cache.load(5, readable(1, 1, "a"));
    assert_eq!(v, "a");
    assert!(err.is_none());
    // Within the debounce window nothing is probed: even a changed file
    // state leaves value and digest untouched, and no error appears.
    let d = cache.digest().unwrap();
    let (v, err) = cache.load(6, readable(2, 1, "b"));
    assert_eq!(v, "a");
    assert!(err.is_none());
    assert_eq!(cache.digest().unwrap(), d);
    // Once the window has passed the change is picked up.
    let (v, err) = cache.load(7, readable(2, 1, "b"));
    assert_eq!(v, "b");
    assert!(err.is_none());
}

#[test]
fn test_fast_path_skips_recompute() {
    let mut cache: Cache<Untouchable> = Cache::new("f".to_string(), Untouchable(7));
    // Record a digest without recomputing: the source is unreadable first,
    // so only the probe time moves.
    let (v, err) = cache.load(0, FileState::Unreadable);
    assert_eq!(v.0, 7);
    assert!(matches!(err, Some(CacheError::CannotRead)));
    assert!(cache.digest().is_none());

    // A failing recomputation would panic; Rejecting records the digest
    // instead, so use a second cache to plant a digest via fast path.
    let mut planted: Cache<Rejecting> = Cache::new("f".to_string(), Rejecting(1));
    let (_, err) = planted.load(0, readable(5, 2, "xy"));
    assert!(matches!(err, Some(CacheError::CannotProcess(_))));
    let d = planted.digest().unwrap();
    assert_eq!(d.mtime, 5);
    assert_eq!(d.size, 2);

    // Same size and mtime: the content is not even hashed, let alone
    // recomputed -- different bytes go unnoticed on the fast path.
    let (v, err) = planted.load(10, readable(5, 2, "ZZ"));
    assert_eq!(v.0, 1);
    assert!(err.is_none());
    assert_eq!(planted.digest().unwrap(), d);
}

#[test]
fn test_unchanged_bytes_not_recomputed() {
    // Identical bytes under changed metadata: the hash confirms "unchanged",
    // the digest is refreshed, and the recomputation never runs (it would
    // fail loudly here).
    let mut cache: Cache<Rejecting> = Cache::new("f".to_string(), Rejecting(9));
    let (_, err) = cache.load(0, readable(1, 2, "ab"));
    assert!(matches!(err, Some(CacheError::CannotProcess(_))));
    let d1 = cache.digest().unwrap();
    assert_eq!(d1.mtime, 1);

    let (v, err) = cache.load(10, readable(2, 2, "ab"));
    assert_eq!(v.0, 9);
    assert!(err.is_none());
    let d2 = cache.digest().unwrap();
    assert_eq!(d2.mtime, 2);
    assert_eq!(d2.hash, d1.hash);
}

#[test]
fn test_failed_recompute_not_retried() {
    let mut cache: Cache<Rejecting> = Cache::new("f".to_string(), Rejecting(3));
    let (v, err) = cache.load(0, readable(1, 3, "bad"));
    assert_eq!(v.0, 3);
    assert!(matches!(err, Some(CacheError::CannotProcess(_))));

    // The failing content's digest was recorded: the same file state is
    // reported unchanged after the window, with no second attempt.
    let (v, err) = cache.load(10, readable(1, 3, "bad"));
    assert_eq!(v.0, 3);
    assert!(err.is_none());

    // Only a content change makes it try again.
    let (v, err) = cache.load(20, readable(2, 4, "good"));
    assert_eq!(v.0, 3);
    assert!(matches!(err, Some(CacheError::CannotProcess(_))));
}

#[test]
fn test_io_failure_keeps_value() {
    let mut cache: Cache<String> = Cache::new("f".to_string(), "seed".to_string());
    // Never loaded: the seed is served beside the error.
    let (v, err) = cache.load(0, FileState::Unreadable);
    assert_eq!(v, "seed");
    assert!(matches!(err, Some(CacheError::CannotRead)));

    let (v, err) = cache.load(10, readable(1, 2, "ok"));
    assert_eq!(v, "ok");
    assert!(err.is_none());

    // Unreadable again: the last good value is served, not the seed.
    let (v, err) = cache.load(20, FileState::Unreadable);
    assert_eq!(v, "ok");
    assert!(matches!(err, Some(CacheError::CannotRead)));
    // And the digest of the last good load is kept.
    assert!(cache.digest().is_some());
}

#[test]
fn test_debounce_bounds_probes() {
    // Many calls within one window: the file keeps "changing", but only
    // the first call probes; the rest answer from memory.
    let mut cache: Cache<String> = Cache::new("f".to_string(), String::new());
    let (v, err) = cache.load(100, readable(1, 1, "a"));
    assert_eq!(v, "a");
    assert!(err.is_none());
    for i in 0..50u64 {
        let (v, err) = cache.load(100 + (i % 2), readable(2 + i as i64, 1, "b"));
        assert_eq!(v, "a");
        assert!(err.is_none());
    }
    let (v, _) = cache.load(102, readable(99, 1, "b"));
    assert_eq!(v, "b");
}

#[test]
fn test_configurable_debounce() {
    let mut cache: Cache<String> = Cache::with_debounce("f".to_string(), String::new(), 5);
    let (_, _) = cache.load(10, readable(1, 1, "a"));
    let (v, _) = cache.load(14, readable(2, 1, "b"));
    assert_eq!(v, "a");
    let (v, _) = cache.load(15, readable(2, 1, "b"));
    assert_eq!(v, "b");
}

#[test]
fn test_debounce_window_boundary() {
    let mut cache: Cache<String> = Cache::new("f".to_string(), String::new());
    let (_, _) = cache.load(10, readable(1, 1, "a"));
    // Strictly inside the window: no probe.
    let (v, _) = cache.load(11, readable(2, 1, "b"));
    assert_eq!(v, "a");
    // At exactly the interval the probe happens again.
    let (v, _) = cache.load(12, readable(2, 1, "b"));
    assert_eq!(v, "b");
}
