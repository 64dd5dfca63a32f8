//! The aggregation engine: cache-aside resolution of the candidate-ID list
//! and of individual stories, the recency filter, the accumulation with its
//! early-exit target, and the final ranking.
//!
//! Upstream I/O is injected: the engine works against a story source given
//! as data (`TableSource`), so every decision it makes is verified for every
//! possible source behaviour and cache state.  A host shell drives the same
//! steps against the real network with a bounded concurrent fan-out; the
//! final sort makes the completion order immaterial.

use vstd::prelude::*;
use crate::cache::{CacheBinding, CacheEntry, Key, MemCache, spec_find};
use crate::codec;
use crate::codec::{ids_json, parsed_ids, story_blob_model, story_blob_ok, story_text};
use crate::rank;
use crate::story::{Story, StoryModel, models_of, sorted_by_score_desc};

verus! {

/// Seconds one cached story stays valid: story content is immutable
/// upstream, so the window is long.
pub const ITEM_TTL_SECS: u64 = 4 * 60 * 60;

/// Seconds the cached candidate-ID list stays valid: the ranking upstream
/// moves quickly, so the window is short.
pub const TOP_TTL_SECS: u64 = 120;

/// Fan-out cap for concurrent story resolutions in the host shell.
pub const CONCURRENCY: usize = 12;

/// Longest candidate prefix scanned, bounding cold-cache work.
pub const MAX_IDS_TO_SCAN: usize = 100;

/// Target size of the result list.
pub const TARGET_COUNT: usize = 20;

/// Seven days, in seconds: the recency window.
pub const WEEK_SECS: i64 = 7 * 24 * 60 * 60;

/// Why one upstream call failed.
#[derive(PartialEq, Eq, Structural, Clone, Copy, Debug)]
pub enum FetchError {
    /// Transport-level failure reaching the upstream service.
    Network,
    /// A payload arrived but was not parseable into the expected shape.
    Decode,
}

/// Why a whole request failed.  Individual story failures never surface;
/// only these two do.
#[derive(PartialEq, Eq, Structural, Clone, Copy, Debug)]
pub enum EngineError {
    /// The cache binding could not be acquired at request start.
    CacheUnavailable,
    /// The candidate-ID list could not be obtained.
    TopFetch(FetchError),
}

impl EngineError {
    /// Every hard failure maps to a server-error status.
    pub fn status(&self) -> (s: u16)
        ensures
            s == 500,
    {
        500
    }

    /// The fixed human-readable message for the failure.
    pub fn message(&self) -> (m: String)
        ensures
            *self matches EngineError::CacheUnavailable ==> m@ == "KV unavailable"@,
            *self matches EngineError::TopFetch(_) ==> m@ == "Error fetching top stories"@,
    {
        match self {
            EngineError::CacheUnavailable => String::from_str("KV unavailable"),
            EngineError::TopFetch(_) => String::from_str("Error fetching top stories"),
        }
    }
}

/// What the upstream source answers for one story fetch.
pub enum FetchOutcome {
    Success(Story),
    Failure(FetchError),
}

/// The upstream story source, given as data: the answer to the
/// candidate-list call and the answer to each per-story call, together with
/// a count of calls made.  The host shell stands in for this with real
/// network fetches; tests use it directly as the test double.
pub struct TableSource {
    pub top: Result<Vec<i32>, FetchError>,
    pub items: Vec<(i32, FetchOutcome)>,
    pub calls: u64,
}

/// What the source answers for the candidate-list call.
pub open spec fn source_top(src: TableSource) -> Result<Seq<i32>, FetchError> {
    match src.top {
        Ok(v) => Ok(v@),
        Err(e) => Err(e),
    }
}

/// What the source answers for a fetch of `id`: the first table entry for
/// it, or a network failure where the table has none.
pub open spec fn source_item(items: Seq<(i32, FetchOutcome)>, id: i32) -> Result<
    StoryModel,
    FetchError,
>
    decreases items.len(),
{
    if items.len() == 0 {
        Err(FetchError::Network)
    } else if items[0].0 == id {
        match items[0].1 {
            FetchOutcome::Success(st) => Ok(st@),
            FetchOutcome::Failure(e) => Err(e),
        }
    } else {
        source_item(items.drop_first(), id)
    }
}

/// Copies a vector of identifiers.
fn copy_ids(v: &Vec<i32>) -> (r: Vec<i32>)
    ensures
        r@ == v@,
{
    let mut r: Vec<i32> = Vec::new();
    let mut i: usize = 0;
    while i < v.len()
        invariant
            i <= v@.len(),
            r@ == v@.take(i as int),
        decreases v@.len() - i,
    {
        r.push(v[i]);
        i += 1;
        proof {
            assert(r@ =~= v@.take(i as int));
        }
    }
    proof {
        assert(r@ =~= v@);
    }
    r
}

impl TableSource {
    /// One candidate-list call: counts the call and answers as the table
    /// says.  No retry: a failure propagates to the caller.
    pub fn fetch_top_story_ids(&mut self) -> (r: Result<Vec<i32>, FetchError>)
        requires
            old(self).calls < u64::MAX,
        ensures
            final(self).calls == old(self).calls + 1,
            final(self).top == old(self).top,
            final(self).items == old(self).items,
            match source_top(*old(self)) {
                Ok(ids) => r matches Ok(v) && v@ == ids,
                Err(e) => r matches Err(e2) && e2 == e,
            },
    {
        self.calls = self.calls + 1;
        match &self.top {
            Ok(ids) => Ok(copy_ids(ids)),
            Err(e) => Err(*e),
        }
    }

    /// One story call: counts the call and answers as the table says.  No
    /// retry: a failure propagates to the caller, who drops the story.
    pub fn fetch_story(&mut self, id: i32) -> (r: Result<Story, FetchError>)
        requires
            old(self).calls < u64::MAX,
        ensures
            final(self).calls == old(self).calls + 1,
            final(self).top == old(self).top,
            final(self).items == old(self).items,
            match source_item(old(self).items@, id) {
                Ok(m) => r matches Ok(st) && st@ == m,
                Err(e) => r matches Err(e2) && e2 == e,
            },
    {
        self.calls = self.calls + 1;
        let n = self.items.len();
        proof {
            assert(self.items@.skip(0) =~= self.items@);
        }
        let mut i: usize = 0;
        while i < n
            invariant
                i <= n,
                n == self.items@.len(),
                self.calls == old(self).calls + 1,
                self.top == old(self).top,
                self.items == old(self).items,
                source_item(self.items@, id) == source_item(self.items@.skip(i as int), id),
            decreases n - i,
        {
            proof {
                assert(self.items@.skip(i as int).len() > 0);
                assert(self.items@.skip(i as int)[0] == self.items@[i as int]);
                assert(self.items@.skip(i as int).drop_first() =~= self.items@.skip(
                    i as int + 1));
            }
            if self.items[i].0 == id {
                match &self.items[i].1 {
                    FetchOutcome::Success(st) => {
                        return Ok(st.duplicate());
                    },
                    FetchOutcome::Failure(e) => {
                        return Err(*e);
                    },
                }
            }
            i += 1;
        }
        proof {
            assert(self.items@.skip(n as int).len() == 0);
        }
        Err(FetchError::Network)
    }
}

/// The accumulation state of one request: the recency cutoff and the
/// stories accepted so far, never more than the target count, all fresh.
pub struct Aggregator {
    /// The recency cutoff: stories submitted before it are dropped.
    pub cutoff: i64,
    /// The stories accepted so far, in arrival order.
    pub stories: Vec<Story>,
}

impl Aggregator {
    /// The models of the stories accepted so far.
    pub open spec fn collected(self) -> Seq<StoryModel> {
        models_of(self.stories@)
    }

    /// Everything accepted is fresh, and the target count is never
    /// exceeded.
    pub open spec fn wf(self) -> bool {
        &&& self.collected().len() <= TARGET_COUNT
        &&& forall|i: int| 0 <= i < self.collected().len()
            ==> (#[trigger] self.collected()[i]).time >= self.cutoff
    }

    /// An empty accumulation for the given cutoff.
    pub fn new(cutoff: i64) -> (r: Aggregator)
        ensures
            r.wf(),
            r.cutoff == cutoff,
            r.collected() == Seq::<StoryModel>::empty(),
    {
        let r = Aggregator { cutoff, stories: Vec::new() };
        proof {
            assert(r.collected() =~= Seq::<StoryModel>::empty());
        }
        r
    }

    /// Whether the target count is reached, after which the host shell
    /// stops consuming completions.
    pub fn is_done(&self) -> (b: bool)
        ensures
            b == (self.collected().len() >= TARGET_COUNT),
    {
        self.stories.len() >= TARGET_COUNT
    }

    /// Offers one resolution outcome: a fresh story is accepted while room
    /// remains; a failed resolution (absence) or a stale story changes
    /// nothing.  Returns whether the target count is now reached.
    pub fn offer(&mut self, item: Option<Story>) -> (done: bool)
        requires
            old(self).wf(),
        ensures
            final(self).wf(),
            final(self).cutoff == old(self).cutoff,
            final(self).collected() == (match item {
                Some(st) => {
                    if st@.time >= old(self).cutoff
                        && old(self).collected().len() < TARGET_COUNT {
                        old(self).collected().push(st@)
                    } else {
                        old(self).collected()
                    }
                },
                None => old(self).collected(),
            }),
            done == (final(self).collected().len() >= TARGET_COUNT),
    {
        match item {
            Some(st) => {
                if st.time >= self.cutoff && self.stories.len() < TARGET_COUNT {
                    let ghost before = self.stories@;
                    self.stories.push(st);
                    proof {
                        assert(self.collected() =~= models_of(before).push(
                            self.stories@[before.len() as int]@));
                    }
                }
            },
            None => {},
        }
        self.stories.len() >= TARGET_COUNT
    }

    /// Closes the accumulation: the accepted stories, sorted by
    /// non-increasing effective score and capped at the target count.
    pub fn finish(self) -> (r: Vec<Story>)
        requires
            self.wf(),
        ensures
            r@.len() <= TARGET_COUNT,
            sorted_by_score_desc(models_of(r@)),
            models_of(r@).to_multiset() == self.collected().to_multiset(),
            forall|i: int| 0 <= i < r@.len()
                ==> (#[trigger] models_of(r@)[i]).time >= self.cutoff,
    {
        let ghost collected = self.collected();
        let ghost cutoff = self.cutoff;
        let mut out = rank::sort_stories(self.stories);
        rank::truncate_to(&mut out, TARGET_COUNT);
        proof {
            lemma_fresh_transfer(models_of(out@), collected, cutoff as int);
        }
        out
    }
}

/// The candidate-ID list a cache state answers at `now`: the parse of an
/// unexpired entry, absent on a miss, an expired entry, or an unparsable
/// one (a corrupt read counts as a miss).
pub open spec fn cached_top_ids(c: Seq<CacheEntry>, now: int) -> Option<Seq<i32>> {
    match spec_find(c, Key::TopStories) {
        Some(e) => if now < e.1 {
            parsed_ids(e.0)
        } else {
            None
        },
        None => None,
    }
}

/// The story a cache state answers for `id` at `now`: the decode of an
/// unexpired well-formed entry, absent otherwise.
pub open spec fn cached_story(c: Seq<CacheEntry>, id: i32, now: int) -> Option<StoryModel> {
    match spec_find(c, Key::Item(id)) {
        Some(e) => if now < e.1 && story_blob_ok(e.0) {
            Some(story_blob_model(e.0))
        } else {
            None
        },
        None => None,
    }
}

/// Cache-aside resolution of the candidate-ID list: an unexpired parsable
/// cache entry answers without an upstream call; otherwise one live fetch
/// is made, its result written back under the short TTL, and a failure of
/// that single call is the request's hard failure.
pub fn resolve_candidate_ids(kv: &mut MemCache, source: &mut TableSource, now: i64) -> (r:
    Result<Vec<i32>, EngineError>)
    requires
        old(source).calls < u64::MAX,
        0 <= now,
        now + TOP_TTL_SECS <= i64::MAX,
    ensures
        final(source).top == old(source).top,
        final(source).items == old(source).items,
        match cached_top_ids(old(kv)@, now as int) {
            Some(ids) => {
                &&& r matches Ok(v) && v@ == ids
                &&& final(kv)@ == old(kv)@
                &&& final(source).calls == old(source).calls
            },
            None => {
                &&& final(source).calls == old(source).calls + 1
                &&& match source_top(*old(source)) {
                    Ok(ids) => {
                        &&& r matches Ok(v) && v@ == ids
                        &&& spec_find(final(kv)@, Key::TopStories)
                            == Some((ids_json(ids), now + TOP_TTL_SECS as int))
                        &&& forall|k: Key| k != Key::TopStories
                            ==> #[trigger] spec_find(final(kv)@, k) == spec_find(old(kv)@, k)
                    },
                    Err(e) => {
                        &&& r matches Err(e2) && e2 == EngineError::TopFetch(e)
                        &&& final(kv)@ == old(kv)@
                    },
                }
            },
        },
{
    match kv.get(Key::TopStories, now) {
        Some(text) => {
            match codec::ids_from_json(text.as_str()) {
                Some(ids) => {
                    return Ok(ids);
                },
                None => {},
            }
        },
        None => {},
    }
    match source.fetch_top_story_ids() {
        Ok(ids) => {
            let blob = codec::ids_to_json(&ids);
            kv.put(Key::TopStories, blob, TOP_TTL_SECS, now);
            Ok(ids)
        },
        Err(e) => Err(EngineError::TopFetch(e)),
    }
}

/// Cache-aside resolution of one story: an unexpired well-formed cache
/// entry answers without an upstream call; otherwise one live fetch is
/// made and, on success, written back under the long TTL.  A failed fetch
/// resolves to absence — never to a request failure.
pub fn resolve_story(kv: &mut MemCache, source: &mut TableSource, id: i32, now: i64) -> (r:
    Option<Story>)
    requires
        old(source).calls < u64::MAX,
        0 <= now,
        now + ITEM_TTL_SECS <= i64::MAX,
    ensures
        final(source).top == old(source).top,
        final(source).items == old(source).items,
        match cached_story(old(kv)@, id, now as int) {
            Some(m) => {
                &&& r matches Some(st) && st@ == m
                &&& final(kv)@ == old(kv)@
                &&& final(source).calls == old(source).calls
            },
            None => {
                &&& final(source).calls == old(source).calls + 1
                &&& match source_item(old(source).items@, id) {
                    Ok(m) => {
                        &&& r matches Some(st) && st@ == m
                        &&& codec::story_wf(m)
                        &&& spec_find(final(kv)@, Key::Item(id))
                            == Some((story_text(m), now + ITEM_TTL_SECS as int))
                        &&& forall|k: Key| k != Key::Item(id)
                            ==> #[trigger] spec_find(final(kv)@, k) == spec_find(old(kv)@, k)
                    },
                    Err(_) => {
                        &&& r is None
                        &&& final(kv)@ == old(kv)@
                    },
                }
            },
        },
{
    let key = Key::Item(id);
    match kv.get(key, now) {
        Some(text) => {
            match codec::decode_story(text.as_str()) {
                Some(st) => {
                    return Some(st);
                },
                None => {},
            }
        },
        None => {},
    }
    match source.fetch_story(id) {
        Ok(st) => {
            let blob = codec::encode_story(&st);
            kv.put(key, blob, ITEM_TTL_SECS, now);
            Some(st)
        },
        Err(_) => None,
    }
}

/// The candidate prefix actually scanned: at most `MAX_IDS_TO_SCAN` of the
/// resolved list.
pub open spec fn scan_prefix(ids: Seq<i32>) -> Seq<i32> {
    if ids.len() <= MAX_IDS_TO_SCAN {
        ids
    } else {
        ids.take(MAX_IDS_TO_SCAN as int)
    }
}

/// Resolution of `id` against this cache and source yields a story that
/// passes the recency filter.
pub open spec fn resolves_fresh(
    c: Seq<CacheEntry>,
    items: Seq<(i32, FetchOutcome)>,
    id: i32,
    now: int,
    cutoff: int,
) -> bool {
    match cached_story(c, id, now) {
        Some(m) => m.time >= cutoff,
        None => match source_item(items, id) {
            Ok(m) => m.time >= cutoff,
            Err(_) => false,
        },
    }
}

/// The first `k` candidates all resolve to fresh stories.
pub open spec fn first_resolve_fresh(
    c: Seq<CacheEntry>,
    items: Seq<(i32, FetchOutcome)>,
    ids: Seq<i32>,
    now: int,
    cutoff: int,
    k: int,
) -> bool {
    forall|j: int| 0 <= j < k ==> resolves_fresh(c, items, #[trigger] ids[j], now, cutoff)
}

/// Every scanned candidate has an unexpired well-formed cache entry.
pub open spec fn all_cache_hits(c: Seq<CacheEntry>, ids: Seq<i32>, now: int) -> bool {
    forall|j: int| 0 <= j < ids.len() ==> cached_story(c, #[trigger] ids[j], now) is Some
}

/// What resolving `id` against this cache and source yields: the cached
/// story, else the fetched one, else nothing.
pub open spec fn resolve_model(
    c: Seq<CacheEntry>,
    items: Seq<(i32, FetchOutcome)>,
    id: i32,
    now: int,
) -> Option<StoryModel> {
    match cached_story(c, id, now) {
        Some(m) => Some(m),
        None => match source_item(items, id) {
            Ok(m) => Some(m),
            Err(_) => None,
        },
    }
}

/// The stories a scan from index `i` on accepts: each candidate's resolved
/// story where it exists and passes the recency filter, in candidate order,
/// until `room` runs out.
pub open spec fn expected_run(
    c: Seq<CacheEntry>,
    items: Seq<(i32, FetchOutcome)>,
    ids: Seq<i32>,
    i: int,
    now: int,
    cutoff: int,
    room: int,
) -> Seq<StoryModel>
    decreases ids.len() - i,
{
    if i < 0 || i >= ids.len() || room <= 0 {
        Seq::empty()
    } else {
        match resolve_model(c, items, ids[i], now) {
            Some(m) => if m.time >= cutoff {
                seq![m] + expected_run(c, items, ids, i + 1, now, cutoff, room - 1)
            } else {
                expected_run(c, items, ids, i + 1, now, cutoff, room)
            },
            None => expected_run(c, items, ids, i + 1, now, cutoff, room),
        }
    }
}

/// The candidate list a request works from: the cached one, else the live
/// one, else nothing — and the request hard-fails.
pub open spec fn candidate_list(c: Seq<CacheEntry>, src: TableSource, now: int) -> Option<
    Seq<i32>,
> {
    match cached_top_ids(c, now) {
        Some(ids) => Some(ids),
        None => match source_top(src) {
            Ok(ids) => Some(ids),
            Err(_) => None,
        },
    }
}

/// The whole aggregation: resolve the candidate list (hard failure when
/// that is impossible), scan a bounded prefix with per-story cache-aside
/// resolution, accept fresh stories until the target count, rank, and cap.
///
/// Success is owed whenever the candidate list is obtainable — from cache
/// or live — whatever the per-story outcomes: those degrade by omission.
/// The result is at most `TARGET_COUNT` stories, sorted by non-increasing
/// effective score, every one submitted within the last week.
#[verifier::rlimit(100)]
#[verifier::spinoff_prover]
pub fn get_top_stories(kv: &mut MemCache, source: &mut TableSource, now: i64) -> (r: Result<
    Vec<Story>,
    EngineError,
>)
    requires
        old(source).calls + 101 <= u64::MAX,
        0 <= now,
        now + ITEM_TTL_SECS <= i64::MAX,
    ensures
        final(source).top == old(source).top,
        final(source).items == old(source).items,
        final(source).calls <= old(source).calls + 1 + MAX_IDS_TO_SCAN,
        (r is Err) <==> (cached_top_ids(old(kv)@, now as int) is None
            && source_top(*old(source)) is Err),
        r matches Err(e) ==> (source_top(*old(source)) matches Err(fe)
            && e == EngineError::TopFetch(fe)),
        r matches Ok(v) ==> ({
            &&& v@.len() <= TARGET_COUNT
            &&& sorted_by_score_desc(models_of(v@))
            &&& forall|i: int| 0 <= i < v@.len()
                ==> (#[trigger] models_of(v@)[i]).time >= now - WEEK_SECS
        }),
        // The result's content is a function of the request's inputs: the
        // resolved stories of the scanned candidate prefix that pass the
        // recency filter, taken in candidate order up to the target count.
        (match candidate_list(old(kv)@, *old(source), now as int) {
            Some(ids) => r matches Ok(v) && models_of(v@).to_multiset()
                == expected_run(old(kv)@, old(source).items@, scan_prefix(ids), 0,
                    now as int, now - WEEK_SECS, TARGET_COUNT as int).to_multiset(),
            None => r is Err,
        }),
        // Early exit: when the first TARGET_COUNT scanned candidates all
        // resolve to fresh stories, resolution is never invoked for the
        // remaining candidates — at most the list call and TARGET_COUNT
        // story calls are made.
        (match candidate_list(old(kv)@, *old(source), now as int) {
            Some(ids) => scan_prefix(ids).len() >= TARGET_COUNT
                && first_resolve_fresh(old(kv)@, old(source).items@, scan_prefix(ids),
                    now as int, now - WEEK_SECS, TARGET_COUNT as int)
                ==> final(source).calls <= old(source).calls + 1 + TARGET_COUNT,
            None => true,
        }),
        // And when the cache also serves the candidate list itself, the list
        // call is saved too.
        (match cached_top_ids(old(kv)@, now as int) {
            Some(ids) => scan_prefix(ids).len() >= TARGET_COUNT
                && first_resolve_fresh(old(kv)@, old(source).items@, scan_prefix(ids),
                    now as int, now - WEEK_SECS, TARGET_COUNT as int)
                ==> final(source).calls <= old(source).calls + TARGET_COUNT,
            None => true,
        }),
        // Idempotence: when the cache serves the candidate list and every
        // scanned story, no upstream call is made and the cache is left
        // unchanged, so a repeat within the TTL windows answers identically.
        (match cached_top_ids(old(kv)@, now as int) {
            Some(ids) => all_cache_hits(old(kv)@, scan_prefix(ids), now as int)
                ==> ({
                    &&& final(source).calls == old(source).calls
                    &&& final(kv)@ == old(kv)@
                }),
            None => true,
        }),
{
    let ghost c0 = old(kv)@;
    let ghost items0 = old(source).items@;
    let mut ids = match resolve_candidate_ids(kv, source, now) {
        Ok(v) => v,
        Err(e) => {
            return Err(e);
        },
    };
    if ids.len() > MAX_IDS_TO_SCAN {
        ids.truncate(MAX_IDS_TO_SCAN);
    }
    let cutoff = now - WEEK_SECS;
    let ghost scan = ids@;
    let ghost top_hit = cached_top_ids(c0, now as int) is Some;
    let ghost p3h = top_hit && all_cache_hits(c0, scan, now as int);
    let ghost p5h = scan.len() >= TARGET_COUNT
        && first_resolve_fresh(c0, items0, scan, now as int, cutoff as int,
            TARGET_COUNT as int);
    proof {
        match candidate_list(c0, *old(source), now as int) {
            Some(tids) => {
                assert(scan =~= scan_prefix(tids));
            },
            None => {
                assert(false);
            },
        }
        // The candidate step touches at most the list's own key, so story
        // lookups still read as they did at request start.
        assert forall|id: i32| cached_story(kv@, id, now as int)
            == cached_story(c0, id, now as int) by {
            assert(spec_find(kv@, Key::Item(id)) == spec_find(c0, Key::Item(id)));
        }
        assert(Seq::<StoryModel>::empty() + expected_run(c0, items0, scan, 0, now as int,
            cutoff as int, TARGET_COUNT as int)
            =~= expected_run(c0, items0, scan, 0, now as int, cutoff as int,
                TARGET_COUNT as int));
    }
    let mut agg = Aggregator::new(cutoff);
    let ghost base_calls = source.calls;
    let mut i: usize = 0;
    let mut done = false;
    while i < ids.len() && !done
        invariant
            i <= ids@.len(),
            ids@ == scan,
            ids@.len() <= MAX_IDS_TO_SCAN,
            agg.wf(),
            agg.cutoff == cutoff,
            cutoff == now - WEEK_SECS,
            0 <= now,
            now + ITEM_TTL_SECS <= i64::MAX,
            source.calls <= base_calls + i,
            base_calls <= old(source).calls + 1,
            old(source).calls + 101 <= u64::MAX,
            source.top == old(source).top,
            source.items == old(source).items,
            source.items@ == items0,
            done == (agg.collected().len() >= TARGET_COUNT),
            c0 == old(kv)@,
            items0 == old(source).items@,
            top_hit == (cached_top_ids(c0, now as int) is Some),
            p3h == (top_hit && all_cache_hits(c0, scan, now as int)),
            p5h == (scan.len() >= TARGET_COUNT
                && first_resolve_fresh(c0, items0, scan, now as int, cutoff as int,
                    TARGET_COUNT as int)),
            top_hit ==> base_calls == old(source).calls,
            // Writes along the way never change what a candidate resolves to.
            forall|j: int| i <= j < scan.len()
                ==> resolve_model(kv@, items0, #[trigger] scan[j], now as int)
                    == resolve_model(c0, items0, scan[j], now as int),
            // What is accepted so far plus what the rest of the scan will
            // accept is the whole expected run.
            agg.collected() + expected_run(c0, items0, scan, i as int, now as int,
                cutoff as int, TARGET_COUNT - agg.collected().len())
                == expected_run(c0, items0, scan, 0, now as int, cutoff as int,
                    TARGET_COUNT as int),
            p3h ==> (kv@ == c0 && source.calls == old(source).calls),
            p5h ==> (i <= TARGET_COUNT && agg.collected().len() == i),
        decreases ids@.len() - i,
    {
        let ghost kv_before = kv@;
        let ghost agg_before = agg.collected();
        let ghost i0 = i as int;
        let id = ids[i];
        let st = resolve_story(kv, source, id, now);
        done = agg.offer(st);
        i += 1;
        proof {
            let ghost room = TARGET_COUNT - agg_before.len();
            assert(room > 0);
            let ghost rm = resolve_model(c0, items0, scan[i0], now as int);
            assert(resolve_model(kv_before, items0, scan[i0], now as int) == rm);
            match cached_story(kv_before, id, now as int) {
                Some(m) => {
                    assert(rm == Some(m));
                    assert(kv@ == kv_before);
                },
                None => {
                    match source_item(items0, id) {
                        Ok(m) => {
                            assert(rm == Some(m));
                            // The write stores exactly the fetched story, so
                            // later resolutions of the same identifier read
                            // the same model.
                            assert forall|j: int| i0 + 1 <= j < scan.len()
                                implies resolve_model(kv@, items0, #[trigger] scan[j],
                                    now as int)
                                    == resolve_model(c0, items0, scan[j], now as int) by {
                                if scan[j] == id {
                                    codec::lemma_story_round_trip(m);
                                    assert(spec_find(kv@, Key::Item(scan[j]))
                                        == Some((story_text(m),
                                            now + ITEM_TTL_SECS as int)));
                                } else {
                                    assert(Key::Item(scan[j]) != Key::Item(id));
                                    assert(spec_find(kv@, Key::Item(scan[j]))
                                        == spec_find(kv_before, Key::Item(scan[j])));
                                }
                            }
                        },
                        Err(_) => {
                            assert(rm is None);
                            assert(kv@ == kv_before);
                        },
                    }
                },
            }
            match rm {
                Some(m) => {
                    if m.time >= cutoff {
                        assert(expected_run(c0, items0, scan, i0, now as int,
                            cutoff as int, room)
                            == seq![m] + expected_run(c0, items0, scan, i0 + 1,
                                now as int, cutoff as int, room - 1));
                        assert(agg.collected() + expected_run(c0, items0, scan, i0 + 1,
                            now as int, cutoff as int, room - 1)
                            =~= agg_before + expected_run(c0, items0, scan, i0,
                                now as int, cutoff as int, room));
                    } else {
                        assert(expected_run(c0, items0, scan, i0, now as int,
                            cutoff as int, room)
                            == expected_run(c0, items0, scan, i0 + 1, now as int,
                                cutoff as int, room));
                    }
                },
                None => {
                    assert(expected_run(c0, items0, scan, i0, now as int, cutoff as int,
                        room)
                        == expected_run(c0, items0, scan, i0 + 1, now as int,
                            cutoff as int, room));
                },
            }
        }
    }
    let ghost coll = agg.collected();
    let ghost i_end = i as int;
    let out = agg.finish();
    proof {
        let room = TARGET_COUNT - coll.len();
        assert(expected_run(c0, items0, scan, i_end, now as int, cutoff as int, room)
            == Seq::<StoryModel>::empty());
        assert(coll + Seq::<StoryModel>::empty() =~= coll);
    }
    Ok(out)
}

/// The HTTP entry decision: a missing cache binding hard-fails the request
/// before any upstream call; otherwise the aggregation runs against the
/// bound cache.
pub fn handle_request(binding: &mut CacheBinding, source: &mut TableSource, now: i64) -> (r:
    Result<Vec<Story>, EngineError>)
    requires
        old(source).calls + 101 <= u64::MAX,
        0 <= now,
        now + ITEM_TTL_SECS <= i64::MAX,
    ensures
        final(source).top == old(source).top,
        final(source).items == old(source).items,
        *old(binding) matches CacheBinding::Missing ==> ({
            &&& r matches Err(e) && e == EngineError::CacheUnavailable
            &&& final(source).calls == old(source).calls
            &&& *final(binding) == *old(binding)
        }),
        *old(binding) matches CacheBinding::Kv(kv) ==> ({
            &&& ((r is Err) <==> (cached_top_ids(kv@, now as int) is None
                && source_top(*old(source)) is Err))
            &&& (r matches Err(e) ==> e matches EngineError::TopFetch(_))
            &&& (match candidate_list(kv@, *old(source), now as int) {
                Some(ids) => r matches Ok(v) && models_of(v@).to_multiset()
                    == expected_run(kv@, old(source).items@, scan_prefix(ids), 0,
                        now as int, now - WEEK_SECS, TARGET_COUNT as int).to_multiset(),
                None => r is Err,
            })
        }),
        r matches Ok(v) ==> ({
            &&& v@.len() <= TARGET_COUNT
            &&& sorted_by_score_desc(models_of(v@))
            &&& forall|i: int| 0 <= i < v@.len()
                ==> (#[trigger] models_of(v@)[i]).time >= now - WEEK_SECS
        }),
{
    match binding {
        CacheBinding::Missing => Err(EngineError::CacheUnavailable),
        CacheBinding::Kv(kv) => get_top_stories(kv, source, now),
    }
}

/// Freshness carries across permutation: where every story of `b` is at or
/// after the cutoff and `a` holds the same stories in some order, every
/// story of `a` is too.
proof fn lemma_fresh_transfer(a: Seq<StoryModel>, b: Seq<StoryModel>, cutoff: int)
    requires
        a.to_multiset() == b.to_multiset(),
        forall|i: int| 0 <= i < b.len() ==> (#[trigger] b[i]).time >= cutoff,
    ensures
        forall|i: int| 0 <= i < a.len() ==> (#[trigger] a[i]).time >= cutoff,
{
    broadcast use vstd::seq_lib::group_to_multiset_ensures;

    assert forall|i: int| 0 <= i < a.len() implies (#[trigger] a[i]).time >= cutoff by {
        assert(a.to_multiset().count(a[i]) > 0) by {
            assert(a.contains(a[i]));
        }
        assert(b.contains(a[i]));
        let j = choose|j: int| 0 <= j < b.len() && b[j] == a[i];
        assert(b[j].time >= cutoff);
    }
}

} // verus!
