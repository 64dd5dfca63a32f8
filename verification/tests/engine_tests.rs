use edge_api::cache::{CacheBinding, Key, MemCache};
use edge_api::engine::{
    handle_request, get_top_stories, resolve_candidate_ids, resolve_story, Aggregator,
    EngineError, FetchError, FetchOutcome, TableSource, ITEM_TTL_SECS, TOP_TTL_SECS,
};
use edge_api::story::Story;

const NOW: i64 = 1_700_000_000;
const WEEK: i64 = 7 * 24 * 60 * 60;

fn story(id: i32, score: i32, time: i64) -> Story {
    Story {
        by: Some(format!("author{id}")),
        id,
        score: Some(score),
        time,
        title: Some(format!("story {id}")),
        story_type: Some("story".to_string()),
        url: Some(format!("https://example.com/{id}")),
    }
}

fn source_of(top: Result<Vec<i32>, FetchError>, items: Vec<(i32, FetchOutcome)>) -> TableSource {
    TableSource { top, items, calls: 0 }
}

#[test]
fn concrete_scenario_filters_stale_and_ranks_by_score() {
    // Candidates [1,2,3]; story 2 is eight days old and is dropped; the rest
    // come back sorted by descending score.
    let mut kv = MemCache::new();
    let mut src = source_of(
        Ok(vec![1, 2, 3]),
        vec![
            (1, FetchOutcome::Success(story(1, 50, NOW))),
            (2, FetchOutcome::Success(story(2, 90, NOW - 8 * 24 * 60 * 60))),
            (3, FetchOutcome::Success(story(3, 10, NOW))),
        ],
    );
    let out = get_top_stories(&mut kv, &mut src, NOW).expect("candidate list is obtainable");
    let ids: Vec<i32> = out.iter().map(|s| s.id).collect();
    let scores: Vec<Option<i32>> = out.iter().map(|s| s.score).collect();
    assert_eq!(ids, vec![1, 3]);
    assert_eq!(scores, vec![Some(50), Some(10)]);
    assert_eq!(src.calls, 4); // one list call plus three story calls
}

#[test]
fn repeated_call_within_ttl_is_answered_from_cache() {
    // Idempotence: the second run makes no upstream call and returns the
    // same story content.
    let mut kv = MemCache::new();
    let mut src = source_of(
        Ok(vec![1, 3]),
        vec![
            (1, FetchOutcome::Success(story(1, 50, NOW))),
            (3, FetchOutcome::Success(story(3, 10, NOW))),
        ],
    );
    let first = get_top_stories(&mut kv, &mut src, NOW).unwrap();
    let calls_after_first = src.calls;
    assert_eq!(calls_after_first, 3);

    let second = get_top_stories(&mut kv, &mut src, NOW + 60).unwrap();
    assert_eq!(src.calls, calls_after_first, "no additional upstream call");
    assert_eq!(first.len(), second.len());
    for (a, b) in first.iter().zip(second.iter()) {
        assert_eq!(a.id, b.id);
        assert_eq!(a.by, b.by);
        assert_eq!(a.score, b.score);
        assert_eq!(a.time, b.time);
        assert_eq!(a.title, b.title);
        assert_eq!(a.story_type, b.story_type);
        assert_eq!(a.url, b.url);
    }
}

#[test]
fn expired_entries_are_refetched() {
    let mut kv = MemCache::new();
    let mut src = source_of(
        Ok(vec![1]),
        vec![(1, FetchOutcome::Success(story(1, 5, NOW)))],
    );
    let _ = get_top_stories(&mut kv, &mut src, NOW).unwrap();
    assert_eq!(src.calls, 2);
    // After both TTL windows have passed, everything is fetched live again.
    let later = NOW + ITEM_TTL_SECS as i64 + TOP_TTL_SECS as i64;
    let mut src2 = source_of(
        Ok(vec![1]),
        vec![(1, FetchOutcome::Success(story(1, 5, later)))],
    );
    let out = get_top_stories(&mut kv, &mut src2, later).unwrap();
    assert_eq!(src2.calls, 2);
    assert_eq!(out.len(), 1);
}

#[test]
fn cache_miss_everywhere_still_yields_full_result() {
    // With an empty cache every resolution is live, and the result is still
    // complete and correctly ranked.
    let mut kv = MemCache::new();
    let items: Vec<(i32, FetchOutcome)> =
        (1..=5).map(|id| (id, FetchOutcome::Success(story(id, id * 10, NOW)))).collect();
    let mut src = source_of(Ok((1..=5).collect()), items);
    let out = get_top_stories(&mut kv, &mut src, NOW).unwrap();
    let ids: Vec<i32> = out.iter().map(|s| s.id).collect();
    assert_eq!(ids, vec![5, 4, 3, 2, 1]);
    assert_eq!(src.calls, 6);
}

#[test]
fn early_exit_stops_after_target_count() {
    // 100 candidates whose first 20 all resolve fresh: the engine must not
    // invoke resolution for the remaining 80.
    let mut kv = MemCache::new();
    let items: Vec<(i32, FetchOutcome)> =
        (1..=100).map(|id| (id, FetchOutcome::Success(story(id, id, NOW)))).collect();
    let mut src = source_of(Ok((1..=100).collect()), items);
    let out = get_top_stories(&mut kv, &mut src, NOW).unwrap();
    assert_eq!(out.len(), 20);
    assert_eq!(src.calls, 1 + 20, "resolution stops at the target count");
}

#[test]
fn result_is_capped_sorted_and_fresh() {
    let mut kv = MemCache::new();
    let items: Vec<(i32, FetchOutcome)> = (1..=60)
        .map(|id| (id, FetchOutcome::Success(story(id, (id * 7) % 31, NOW - (id as i64) * 3600))))
        .collect();
    let mut src = source_of(Ok((1..=60).collect()), items);
    let out = get_top_stories(&mut kv, &mut src, NOW).unwrap();
    assert!(out.len() <= 20);
    for w in out.windows(2) {
        assert!(w[0].score.unwrap_or(0) >= w[1].score.unwrap_or(0));
    }
    for s in &out {
        assert!(s.time >= NOW - WEEK);
    }
}

#[test]
fn absent_score_ranks_as_zero() {
    let mut kv = MemCache::new();
    let mut no_score = story(2, 0, NOW);
    no_score.score = None;
    let mut src = source_of(
        Ok(vec![1, 2, 3]),
        vec![
            (1, FetchOutcome::Success(story(1, -4, NOW))),
            (2, FetchOutcome::Success(no_score)),
            (3, FetchOutcome::Success(story(3, 2, NOW))),
        ],
    );
    let out = get_top_stories(&mut kv, &mut src, NOW).unwrap();
    let ids: Vec<i32> = out.iter().map(|s| s.id).collect();
    assert_eq!(ids, vec![3, 2, 1]); // 2 > 0 (absent) > -4
}

#[test]
fn failed_item_fetches_degrade_by_omission() {
    // Soft-failure tolerance: failures and decode errors drop stories, never
    // the request.
    let mut kv = MemCache::new();
    let mut src = source_of(
        Ok(vec![1, 2, 3, 4]),
        vec![
            (1, FetchOutcome::Failure(FetchError::Network)),
            (2, FetchOutcome::Success(story(2, 8, NOW))),
            (3, FetchOutcome::Failure(FetchError::Decode)),
            (4, FetchOutcome::Success(story(4, 3, NOW))),
        ],
    );
    let out = get_top_stories(&mut kv, &mut src, NOW).unwrap();
    let ids: Vec<i32> = out.iter().map(|s| s.id).collect();
    assert_eq!(ids, vec![2, 4]);
}

#[test]
fn top_list_failure_is_the_only_hard_failure() {
    let mut kv = MemCache::new();
    let mut src = source_of(Err(FetchError::Network), vec![]);
    let err = get_top_stories(&mut kv, &mut src, NOW).unwrap_err();
    assert_eq!(err, EngineError::TopFetch(FetchError::Network));
    assert_eq!(err.status(), 500);
    assert_eq!(err.message(), "Error fetching top stories");
    assert_eq!(src.calls, 1);
}

#[test]
fn missing_cache_binding_fails_before_any_upstream_call() {
    let mut binding = CacheBinding::Missing;
    let mut src = source_of(Ok(vec![1, 2, 3]), vec![]);
    let err = handle_request(&mut binding, &mut src, NOW).unwrap_err();
    assert_eq!(err, EngineError::CacheUnavailable);
    assert_eq!(err.status(), 500);
    assert_eq!(err.message(), "KV unavailable");
    assert_eq!(src.calls, 0, "no upstream call attempted");
}

#[test]
fn bound_cache_binding_serves_the_request() {
    let mut binding = CacheBinding::Kv(MemCache::new());
    let mut src = source_of(
        Ok(vec![9]),
        vec![(9, FetchOutcome::Success(story(9, 1, NOW)))],
    );
    let out = handle_request(&mut binding, &mut src, NOW).unwrap();
    assert_eq!(out.len(), 1);
    assert_eq!(out[0].id, 9);
}

#[test]
fn candidate_list_prefix_is_bounded() {
    // Only the first 100 candidates are ever scanned.
    let mut kv = MemCache::new();
    let items: Vec<(i32, FetchOutcome)> =
        (1..=200).map(|id| (id, FetchOutcome::Failure(FetchError::Network))).collect();
    let mut src = source_of(Ok((1..=200).collect()), items);
    let out = get_top_stories(&mut kv, &mut src, NOW).unwrap();
    assert!(out.is_empty());
    assert_eq!(src.calls, 1 + 100);
}

#[test]
fn corrupt_cached_list_counts_as_a_miss() {
    let mut kv = MemCache::new();
    kv.put(Key::TopStories, "not json".to_string(), TOP_TTL_SECS, NOW);
    let mut src = source_of(
        Ok(vec![1]),
        vec![(1, FetchOutcome::Success(story(1, 2, NOW)))],
    );
    let ids = resolve_candidate_ids(&mut kv, &mut src, NOW).unwrap();
    assert_eq!(ids, vec![1]);
    assert_eq!(src.calls, 1, "fell back to the live fetch");
}

#[test]
fn corrupt_cached_story_counts_as_a_miss() {
    let mut kv = MemCache::new();
    kv.put(Key::Item(7), "garbled".to_string(), ITEM_TTL_SECS, NOW);
    let mut src = source_of(
        Ok(vec![7]),
        vec![(7, FetchOutcome::Success(story(7, 2, NOW)))],
    );
    let st = resolve_story(&mut kv, &mut src, 7, NOW).expect("resolved live");
    assert_eq!(st.id, 7);
    assert_eq!(src.calls, 1);
}

#[test]
fn resolve_story_prefers_the_cache() {
    let mut kv = MemCache::new();
    let mut src = source_of(
        Ok(vec![7]),
        vec![(7, FetchOutcome::Success(story(7, 2, NOW)))],
    );
    let first = resolve_story(&mut kv, &mut src, 7, NOW).unwrap();
    assert_eq!(src.calls, 1);
    let second = resolve_story(&mut kv, &mut src, 7, NOW + 10).unwrap();
    assert_eq!(src.calls, 1, "second resolution hit the cache");
    assert_eq!(first.id, second.id);
    assert_eq!(first.title, second.title);
}

#[test]
fn aggregator_accepts_fresh_rejects_stale_and_stops_at_twenty() {
    let mut agg = Aggregator::new(NOW - WEEK);
    assert!(!agg.offer(None));
    assert!(!agg.offer(Some(story(1, 1, NOW - WEEK - 1)))); // stale
    for id in 2..=20 {
        assert!(!agg.offer(Some(story(id, id, NOW))));
    }
    assert!(!agg.is_done());
    assert!(agg.offer(Some(story(21, 21, NOW))));
    let out = agg.finish();
    assert_eq!(out.len(), 20);
    assert_eq!(out[0].id, 21);
}

#[test]
fn recency_boundary_is_inclusive() {
    // A story submitted exactly at the cutoff passes; one second older is
    // dropped.
    let mut kv = MemCache::new();
    let mut src = source_of(
        Ok(vec![1, 2]),
        vec![
            (1, FetchOutcome::Success(story(1, 9, NOW - WEEK))),
            (2, FetchOutcome::Success(story(2, 9, NOW - WEEK - 1))),
        ],
    );
    let out = get_top_stories(&mut kv, &mut src, NOW).unwrap();
    let ids: Vec<i32> = out.iter().map(|s| s.id).collect();
    assert_eq!(ids, vec![1]);
}

#[test]
fn manually_cached_list_is_used_without_a_list_fetch() {
    let mut kv = MemCache::new();
    kv.put(Key::TopStories, edge_api::codec::ids_to_json(&vec![5]), TOP_TTL_SECS, NOW);
    let mut src = source_of(
        Err(FetchError::Network), // the list endpoint would fail if called
        vec![(5, FetchOutcome::Success(story(5, 1, NOW)))],
    );
    let out = get_top_stories(&mut kv, &mut src, NOW).unwrap();
    assert_eq!(out.len(), 1);
    assert_eq!(out[0].id, 5);
    assert_eq!(src.calls, 1, "only the story itself was fetched");
}
