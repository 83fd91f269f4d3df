//! The self-invalidating cache for one file-backed value.
//!
//! A [`Cache`] owns the last digest and the last successfully computed value
//! for one source path. Its `load` operation debounces filesystem probes,
//! refreshes the value only when the content actually changed, and falls back
//! to the last good value (or the seed) on any failure: it always returns a
//! usable value, with an error beside it at most.

use vstd::prelude::*;

use crate::digest::Digest;
use crate::digest::FileMeta;
use crate::digest::FileState;
use crate::digest::Load;
use crate::digest::fresh_digest;
use crate::digest::hash_matches;
use crate::digest::meta_matches;
use crate::digest::probe;
use crate::digest::probe_changed;
use crate::digest::probe_spec;

verus! {

/// An error from recomputing a cached artifact, with a message to log.
#[derive(Debug)]
pub struct ComputeError {
    pub message: String,
}

/// Why a refresh fell back to the previously cached value.
#[derive(Debug)]
pub enum CacheError {
    /// The source file could not be read.
    CannotRead,
    /// The source was read but the recomputation rejected its content.
    CannotProcess(ComputeError),
}

/// A value that can be cached: it can be recomputed from source text, and it
/// can be duplicated so one copy stays in the cache while another is handed
/// out.
pub trait Cacheable: Sized {
    /// Recompute the artifact from the source text.
    fn compute(src: &str) -> Result<Self, ComputeError>;

    /// A copy equal to the original. For cheap sharing with concurrent
    /// readers, make `Self` reference-counted.
    fn duplicate(&self) -> (r: Self)
        ensures
            r == *self,
    ;
}

/// Raw text caches as itself: recomputation keeps the source text.
impl Cacheable for String {
    fn compute(src: &str) -> (r: Result<Self, ComputeError>)
        ensures
            r matches Ok(s) && s@ == src@,
    {
        Ok(src.to_owned())
    }

    fn duplicate(&self) -> (r: Self)
        ensures
            r == *self,
    {
        self.clone()
    }
}

/// The default debounce interval, in seconds.
pub const DEBOUNCE_SECS: u64 = 2;

/// The cached state for one source, as the contracts speak of it.
pub ghost struct CacheModel<T> {
    /// The configured source path.
    pub path: Seq<char>,
    /// Debounce interval, in the unit of the caller's clock.
    pub debounce: u64,
    /// When the source was last probed; `None` before the first probe.
    pub last_check: Option<u64>,
    /// Digest of the state the value was derived from; `None` until a load
    /// succeeds.
    pub digest: Option<Digest>,
    /// The artifact: the seed until a recomputation succeeds.
    pub value: T,
}

/// A probe is suppressed while the last one is newer than the debounce
/// interval.
pub open spec fn debounced(last_check: Option<u64>, now: u64, debounce: u64) -> bool {
    match last_check {
        Some(t) => now < t + debounce,
        None => false,
    }
}

/// One `load` call as a transition on the model: given the clock reading, the
/// probed file state, and what the recomputation returned (consulted only
/// when the content changed), it yields the next model, the returned value,
/// and the returned error.
pub open spec fn load_step<T>(
    m: CacheModel<T>,
    now: u64,
    file: FileState,
    computed: Result<T, ComputeError>,
) -> (CacheModel<T>, T, Option<CacheError>) {
    if debounced(m.last_check, now, m.debounce) {
        (m, m.value, None)
    } else {
        let checked = CacheModel { last_check: Some(now), ..m };
        match probe_spec(m.digest, file) {
            Load::Error => (checked, m.value, Some(CacheError::CannotRead)),
            Load::Unchanged(d) => (
                CacheModel { digest: Some(d), ..checked },
                m.value,
                None,
            ),
            Load::Changed(d, _contents) => {
                let stamped = CacheModel { digest: Some(d), ..checked };
                match computed {
                    Ok(v) => (CacheModel { value: v, ..stamped }, v, None),
                    Err(e) => (stamped, m.value, Some(CacheError::CannotProcess(e))),
                }
            },
        }
    }
}

/// The result `k` is one that `T::compute` can return for the probed text --
/// and, where this predicate stands in an `ensures`, did return for it. A
/// caller whose `compute` carries a contract reads that contract back out
/// through it.
pub open spec fn computed_from<T: Cacheable>(
    k: Result<T, ComputeError>,
    contents: Seq<char>,
) -> bool {
    exists|a: &str| a@ == contents && #[trigger] call_ensures(T::compute, (a,), k)
}

/// The cache for one source: the configured path and interval, the last
/// probe time, the last digest, and the last successfully computed value.
pub struct Cache<T> {
    path: String,
    debounce: u64,
    last_check: Option<u64>,
    digest: Option<Digest>,
    value: T,
}

impl<T> View for Cache<T> {
    type V = CacheModel<T>;

    closed spec fn view(&self) -> CacheModel<T> {
        CacheModel {
            path: self.path@,
            debounce: self.debounce,
            last_check: self.last_check,
            digest: self.digest,
            value: self.value,
        }
    }
}

impl<T> Cache<T> {
    /// A cache that was never checked and holds no digest: it serves `seed`
    /// until a load succeeds. Probes are debounced by the given interval.
    pub fn with_debounce(path: String, seed: T, debounce: u64) -> (r: Self)
        ensures
            r@.path == path@,
            r@.debounce == debounce,
            r@.last_check is None,
            r@.digest is None,
            r@.value == seed,
    {
        Cache { path, debounce, last_check: None, digest: None, value: seed }
    }

    /// A cache that was never checked and holds no digest: it serves `seed`
    /// until a load succeeds, and debounces probes by the default interval.
    pub fn new(path: String, seed: T) -> (r: Self)
        ensures
            r@.path == path@,
            r@.debounce == DEBOUNCE_SECS,
            r@.last_check is None,
            r@.digest is None,
            r@.value == seed,
    {
        Self::with_debounce(path, seed, DEBOUNCE_SECS)
    }

    /// The configured source path, for diagnostics.
    pub fn path(&self) -> (r: &str)
        ensures
            r@ == self@.path,
    {
        self.path.as_str()
    }

    /// The digest recorded by the last non-debounced, readable probe.
    pub fn digest(&self) -> (r: Option<Digest>)
        ensures
            r == self@.digest,
    {
        self.digest
    }

    /// Whether a load at this clock reading would probe the filesystem, or
    /// answer from memory because the last probe is still fresh.
    pub fn needs_probe(&self, now: u64) -> (r: bool)
        ensures
            r == !debounced(self@.last_check, now, self@.debounce),
    {
        match self.last_check {
            None => true,
            Some(t) => now >= t && now - t >= self.debounce,
        }
    }
}

impl<T: Cacheable> Cache<T> {
    /// A copy of the value the cache is currently serving.
    pub fn current(&self) -> (r: T)
        ensures
            r == self@.value,
    {
        self.value.duplicate()
    }

    /// Record the outcome of a recomputation for changed content. On success
    /// the digest and the value are replaced together; on failure the digest
    /// still moves forward -- so failing content is not recomputed again
    /// until its bytes change -- while the last good value keeps being
    /// served, returned beside the error.
    pub fn apply_computed(&mut self, now: u64, digest: Digest, computed: Result<T, ComputeError>) -> (r:
        (T, Option<CacheError>))
        ensures
            final(self)@.path == old(self)@.path,
            final(self)@.debounce == old(self)@.debounce,
            final(self)@.last_check == Some(now),
            final(self)@.digest == Some(digest),
            r.0 == final(self)@.value,
            computed matches Ok(v) ==> final(self)@.value == v && r.1 is None,
            computed matches Err(e) ==> final(self)@.value == old(self)@.value && r.1 == Some(
                CacheError::CannotProcess(e),
            ),
    {
        self.last_check = Some(now);
        self.digest = Some(digest);
        match computed {
            Ok(v) => {
                let out = v.duplicate();
                self.value = v;
                (out, None)
            },
            Err(e) => (self.value.duplicate(), Some(CacheError::CannotProcess(e))),
        }
    }

    /// Record one probe outcome. Changed content is recomputed here; either
    /// way the probe time is remembered, so failures are debounced like
    /// successes, and the returned value is always usable.
    pub fn apply(&mut self, now: u64, outcome: Load) -> (r: (T, Option<CacheError>))
        ensures
            final(self)@.path == old(self)@.path,
            final(self)@.debounce == old(self)@.debounce,
            final(self)@.last_check == Some(now),
            r.0 == final(self)@.value,
            outcome matches Load::Error ==> final(self)@.digest == old(self)@.digest
                && final(self)@.value == old(self)@.value && r.1 == Some(CacheError::CannotRead),
            outcome matches Load::Unchanged(d) ==> final(self)@.digest == Some(d)
                && final(self)@.value == old(self)@.value && r.1 is None,
            outcome matches Load::Changed(d, c) ==> final(self)@.digest == Some(d) && (exists|
                k: Result<T, ComputeError>,
            |
                {
                    &&& #[trigger] computed_from::<T>(k, c@)
                    &&& match k {
                        Ok(v) => final(self)@.value == v && r.1 is None,
                        Err(e) => final(self)@.value == old(self)@.value && r.1 == Some(
                            CacheError::CannotProcess(e),
                        ),
                    }
                }),
    {
        match outcome {
            Load::Error => {
                self.last_check = Some(now);
                (self.value.duplicate(), Some(CacheError::CannotRead))
            },
            Load::Unchanged(d) => {
                self.last_check = Some(now);
                self.digest = Some(d);
                (self.value.duplicate(), None)
            },
            Load::Changed(d, contents) => {
                let ghost gcont = contents@;
                let src = contents.as_str();
                let ghost ga = src;
                let computed = T::compute(src);
                let ghost gk = computed;
                let r = self.apply_computed(now, d, computed);
                proof {
                    assert(call_ensures(T::compute, (ga,), gk));
                    assert(computed_from::<T>(gk, gcont));
                }
                r
            },
        }
    }

    /// Serve the current value, refreshing it from the probed file state
    /// unless a recent probe makes this call a debounced no-op. There is
    /// always a value to return -- the seed, the last good value, or a fresh
    /// one -- and an error is only ever returned beside it.
    pub fn load(&mut self, now: u64, file: FileState) -> (r: (T, Option<CacheError>))
        ensures
            exists|c: Result<T, ComputeError>|
                {
                    &&& (final(self)@, r.0, r.1) == load_step(old(self)@, now, file, c)
                    &&& !debounced(old(self)@.last_check, now, old(self)@.debounce) ==> match
                        probe_spec(old(self)@.digest, file) {
                        Load::Changed(_d, cont) => computed_from::<T>(c, cont@),
                        _ => true,
                    }
                },
            r.0 == final(self)@.value,
            final(self)@.path == old(self)@.path,
            final(self)@.debounce == old(self)@.debounce,
    {
        if !self.needs_probe(now) {
            let out = (self.current(), None);
            proof {
                let c = arbitrary::<Result<T, ComputeError>>();
                assert((self@, out.0, out.1) == load_step(self@, now, file, c));
            }
            return out;
        }
        let outcome = probe(&self.digest, file);
        let ghost pre = self@;
        let r = self.apply(now, outcome);
        proof {
            match probe_spec(pre.digest, file) {
                Load::Changed(_d, cont) => {
                    let k = choose|k: Result<T, ComputeError>|
                        {
                            &&& #[trigger] computed_from::<T>(k, cont@)
                            &&& match k {
                                Ok(v) => self@.value == v && r.1 is None,
                                Err(e) => self@.value == pre.value && r.1 == Some(
                                    CacheError::CannotProcess(e),
                                ),
                            }
                        };
                    assert((self@, r.0, r.1) == load_step(pre, now, file, k));
                },
                _ => {
                    let c = arbitrary::<Result<T, ComputeError>>();
                    assert((self@, r.0, r.1) == load_step(pre, now, file, c));
                },
            }
        }
        r
    }
}

/// A load returns exactly the value it leaves stored: the seed, the last
/// good value, or the freshly computed one -- never nothing.
pub proof fn lemma_returned_value<T>(
    m: CacheModel<T>,
    now: u64,
    file: FileState,
    c: Result<T, ComputeError>,
)
    ensures
        load_step(m, now, file, c).1 == load_step(m, now, file, c).0.value,
{
}

/// A debounced load is a no-op: within the debounce window the cache answers
/// from memory, with the stored value, no error, and no probe.
pub proof fn lemma_debounced_noop<T>(
    m: CacheModel<T>,
    now: u64,
    file: FileState,
    c: Result<T, ComputeError>,
)
    requires
        debounced(m.last_check, now, m.debounce),
    ensures
        load_step(m, now, file, c) == (m, m.value, None::<CacheError>),
{
}

/// Idempotence: after a load that probed, a second load within the debounce
/// window returns the identical value, reports no error, changes nothing,
/// and performs no probe -- the pair costs at most one filesystem probe.
pub proof fn lemma_idempotent<T>(
    m: CacheModel<T>,
    now1: u64,
    now2: u64,
    file1: FileState,
    file2: FileState,
    c1: Result<T, ComputeError>,
    c2: Result<T, ComputeError>,
)
    requires
        !debounced(m.last_check, now1, m.debounce),
        now1 <= now2 < now1 + m.debounce,
    ensures
        ({
            let (m1, v1, e1) = load_step(m, now1, file1, c1);
            let (m2, v2, e2) = load_step(m1, now2, file2, c2);
            debounced(m1.last_check, now2, m1.debounce) && m2 == m1 && v2 == v1 && e2 is None
        }),
{
    let (m1, v1, e1) = load_step(m, now1, file1, c1);
    lemma_returned_value(m, now1, file1, c1);
    lemma_debounced_noop(m1, now2, file2, c2);
}

/// Change detection, changed bytes: once the debounce window has passed,
/// content whose hash differs from the recorded digest -- and whose metadata
/// moved, so the fast path does not bypass the read -- is recomputed, and
/// the recomputed value is both stored and returned.
pub proof fn lemma_changed_content_recomputed<T>(
    m: CacheModel<T>,
    now: u64,
    meta: FileMeta,
    contents: String,
    v: T,
)
    requires
        !debounced(m.last_check, now, m.debounce),
        !meta_matches(m.digest, meta),
        !hash_matches(m.digest, contents@),
    ensures
        ({
            let (m2, r, e) = load_step(
                m,
                now,
                FileState::Readable { meta, contents },
                Ok(v),
            );
            m2.value == v && r == v && e is None && m2.digest == Some(
                fresh_digest(meta, contents@),
            )
        }),
{
}

/// Change detection, identical bytes: content whose hash equals the recorded
/// one leaves the stored value untouched and reports no error, whether the
/// metadata churned (the digest is refreshed to the new metadata) or not
/// (the digest stays as it was).
pub proof fn lemma_same_content_kept<T>(
    m: CacheModel<T>,
    now: u64,
    meta: FileMeta,
    contents: String,
    c: Result<T, ComputeError>,
)
    requires
        !debounced(m.last_check, now, m.debounce),
        hash_matches(m.digest, contents@),
    ensures
        ({
            let (m2, r, e) = load_step(m, now, FileState::Readable { meta, contents }, c);
            m2.value == m.value && r == m.value && e is None && (if meta_matches(m.digest, meta) {
                m2.digest == m.digest
            } else {
                m2.digest == Some(fresh_digest(meta, contents@))
            })
        }),
{
}

/// Fast-path skip: when size and mtime both match the recorded digest, the
/// outcome of a load does not depend on the contents read or on the
/// recomputation at all -- so no content read is needed, and none occurs in
/// the probe, which consults the contents only past this check.
pub proof fn lemma_fast_path_content_independent<T>(
    m: CacheModel<T>,
    now: u64,
    meta: FileMeta,
    contents1: String,
    contents2: String,
    c1: Result<T, ComputeError>,
    c2: Result<T, ComputeError>,
)
    requires
        meta_matches(m.digest, meta),
    ensures
        load_step(m, now, FileState::Readable { meta, contents: contents1 }, c1) == load_step(
            m,
            now,
            FileState::Readable { meta, contents: contents2 },
            c2,
        ),
{
}

/// Fallback on I/O failure: an unreadable source is reported beside the
/// previously cached value; digest and value stay untouched, and only the
/// probe time moves, so the failure is debounced like a success.
pub proof fn lemma_unreadable_keeps_value<T>(
    m: CacheModel<T>,
    now: u64,
    c: Result<T, ComputeError>,
)
    requires
        !debounced(m.last_check, now, m.debounce),
    ensures
        ({
            let (m2, r, e) = load_step(m, now, FileState::Unreadable, c);
            r == m.value && m2.value == m.value && m2.digest == m.digest && m2.last_check == Some(
                now,
            ) && e == Some(CacheError::CannotRead)
        }),
{
}

/// Fallback on failed recomputation: the last good value keeps being served
/// beside the error, while the digest moves to the failing content's digest
/// -- so when the same file state is probed again after the window, the fast
/// path reports it unchanged and the failing content is not recomputed
/// again until its bytes change.
pub proof fn lemma_failed_recompute_not_retried<T>(
    m: CacheModel<T>,
    now1: u64,
    now2: u64,
    meta: FileMeta,
    contents: String,
    e: ComputeError,
    c2: Result<T, ComputeError>,
)
    requires
        !debounced(m.last_check, now1, m.debounce),
        !meta_matches(m.digest, meta),
        !hash_matches(m.digest, contents@),
        now2 >= now1 + m.debounce,
    ensures
        ({
            let (m1, r1, e1) = load_step(
                m,
                now1,
                FileState::Readable { meta, contents },
                Err(e),
            );
            r1 == m.value && m1.value == m.value && e1 == Some(
                CacheError::CannotProcess(e),
            ) && m1.digest == Some(fresh_digest(meta, contents@)) && ({
                let (m2, r2, e2) = load_step(
                    m1,
                    now2,
                    FileState::Readable { meta, contents },
                    c2,
                );
                !probe_changed(m1.digest, FileState::Readable { meta, contents }) && m2.value
                    == m.value && r2 == m.value && e2 is None && m2.digest == m1.digest
            })
        }),
{
}

/// Change detection, end to end: a load past the debounce window, of
/// readable content whose hash differs from the recorded digest and whose
/// metadata moved (so the fast path does not mask it), runs the
/// recomputation -- and whatever the recomputation guarantees of its
/// successful results holds of the value the load stores and returns, with
/// the new content's digest stored beside it.
pub proof fn lemma_recomputation_carried<T: Cacheable>(
    pre: CacheModel<T>,
    post: CacheModel<T>,
    now: u64,
    meta: FileMeta,
    contents: String,
    ret: T,
    err: Option<CacheError>,
    c: Result<T, ComputeError>,
    p: spec_fn(T) -> bool,
)
    requires
        !debounced(pre.last_check, now, pre.debounce),
        !meta_matches(pre.digest, meta),
        !hash_matches(pre.digest, contents@),
        (post, ret, err) == load_step(pre, now, FileState::Readable { meta, contents }, c),
        computed_from::<T>(c, contents@),
        forall|k: Result<T, ComputeError>|
            #[trigger] computed_from::<T>(k, contents@) ==> (k matches Ok(v) && p(v)),
    ensures
        err is None,
        post.value == ret && p(ret),
        post.digest == Some(fresh_digest(meta, contents@)),
{
}

/// The model a sequence of loads ends in, with how many filesystem probes
/// and how many recomputations it performs. Each call is a clock reading,
/// the probed file state, and what the recomputation would return.
pub open spec fn load_run<T>(
    m: CacheModel<T>,
    calls: Seq<(u64, FileState, Result<T, ComputeError>)>,
) -> (CacheModel<T>, nat, nat)
    decreases calls.len(),
{
    if calls.len() == 0 {
        (m, 0, 0)
    } else {
        let now = calls[0].0;
        let probes: nat = if debounced(m.last_check, now, m.debounce) {
            0
        } else {
            1
        };
        let recomputes: nat = if !debounced(m.last_check, now, m.debounce) && probe_changed(
            m.digest,
            calls[0].1,
        ) {
            1
        } else {
            0
        };
        let m1 = load_step(m, now, calls[0].1, calls[0].2).0;
        let rest = load_run(m1, calls.drop_first());
        (rest.0, (probes + rest.1) as nat, (recomputes + rest.2) as nat)
    }
}

/// While the last probe stays newer than the debounce interval, loads probe
/// nothing, recompute nothing, and leave the model untouched.
pub proof fn lemma_all_debounced<T>(
    m: CacheModel<T>,
    calls: Seq<(u64, FileState, Result<T, ComputeError>)>,
    s: u64,
)
    requires
        m.last_check == Some(s),
        forall|i: int| 0 <= i < calls.len() ==> (#[trigger] calls[i]).0 < s + m.debounce,
    ensures
        load_run(m, calls) == (m, 0nat, 0nat),
    decreases calls.len(),
{
    if calls.len() > 0 {
        assert(calls[0].0 < s + m.debounce);
        lemma_all_debounced(m, calls.drop_first(), s);
    }
}

/// Debounce bound: across any number of loads whose clock readings all fall
/// within one debounce interval, at most one probes the filesystem, and at
/// most one recomputes.
pub proof fn lemma_debounce_bound<T>(
    m: CacheModel<T>,
    calls: Seq<(u64, FileState, Result<T, ComputeError>)>,
    t0: u64,
)
    requires
        forall|i: int|
            0 <= i < calls.len() ==> t0 <= (#[trigger] calls[i]).0 && calls[i].0 < t0
                + m.debounce,
    ensures
        load_run(m, calls).1 <= 1,
        load_run(m, calls).2 <= load_run(m, calls).1,
    decreases calls.len(),
{
    if calls.len() > 0 {
        let now = calls[0].0;
        let m1 = load_step(m, now, calls[0].1, calls[0].2).0;
        if debounced(m.last_check, now, m.debounce) {
            assert(m1 == m);
            lemma_debounce_bound(m1, calls.drop_first(), t0);
        } else {
            assert(m1.last_check == Some(now));
            assert(forall|i: int|
                0 <= i < calls.drop_first().len() ==> (#[trigger] calls.drop_first()[i]).0 < now
                    + m1.debounce);
            lemma_all_debounced(m1, calls.drop_first(), now);
        }
    }
}

/// Debounce bound, sharpened: when the first call actually probes -- the
/// cache is fresh or its window has expired -- loads whose clock readings
/// all fall within one debounce interval of it make exactly one filesystem
/// probe and at most one recomputation.
pub proof fn lemma_debounce_bound_exact<T>(
    m: CacheModel<T>,
    calls: Seq<(u64, FileState, Result<T, ComputeError>)>,
)
    requires
        calls.len() > 0,
        !debounced(m.last_check, calls[0].0, m.debounce),
        forall|i: int|
            0 <= i < calls.len() ==> calls[0].0 <= (#[trigger] calls[i]).0 && calls[i].0 < calls[0].0
                + m.debounce,
    ensures
        load_run(m, calls).1 == 1,
        load_run(m, calls).2 <= 1,
{
    let now = calls[0].0;
    let m1 = load_step(m, now, calls[0].1, calls[0].2).0;
    assert(m1.last_check == Some(now));
    assert(forall|i: int|
        0 <= i < calls.drop_first().len() ==> (#[trigger] calls.drop_first()[i]).0 < now
            + m1.debounce);
    lemma_all_debounced(m1, calls.drop_first(), now);
}

} // verus!
