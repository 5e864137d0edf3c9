use jayjay::graph_stats::{ChangeInfo, DiffStats, GraphDiffStatsCache};

fn change(id: &str, is_empty: bool, is_working_copy: bool) -> ChangeInfo {
    ChangeInfo { commit_id: id.to_string(), is_empty, is_working_copy }
}

fn stats(files_changed: u32, insertions: u32, deletions: u32) -> DiffStats {
    DiffStats { files_changed, insertions, deletions }
}

#[test]
fn working_copy_stats_are_seeded_into_the_cache() {
    let wc = change("wc", false, true);
    let graph = vec![wc.clone(), change("parent", false, false)];
    let mut cache = GraphDiffStatsCache::new();
    cache.seed_working_copy_graph_diff_stats(Some(stats(1, 2, 0)), Some(&wc), &graph, Some(&wc));
    assert_eq!(cache.cached(&"wc".to_string()), Some(stats(1, 2, 0)));
    assert_eq!(cache.change_stats(), Some(stats(1, 2, 0)));
}

#[test]
fn zero_working_copy_stats_are_not_cached() {
    let wc = change("wc", true, true);
    let graph = vec![wc.clone()];
    let mut cache = GraphDiffStatsCache::new();
    cache.seed_working_copy_graph_diff_stats(Some(stats(0, 0, 0)), Some(&wc), &graph, None);
    assert_eq!(cache.cached(&"wc".to_string()), None);
    cache.seed_working_copy_graph_diff_stats(None, Some(&wc), &graph, None);
    assert_eq!(cache.cached(&"wc".to_string()), None);
    cache.seed_working_copy_graph_diff_stats(Some(stats(1, 1, 1)), None, &graph, None);
    assert_eq!(cache.cached(&"wc".to_string()), None);
}

#[test]
fn empty_change_is_never_queued() {
    let empty = change("empty", true, true);
    let graph = vec![empty.clone()];
    let mut cache = GraphDiffStatsCache::new();
    assert_eq!(cache.ensure_graph_diff_stats(&empty, Some(&empty), true), None);
    assert_eq!(cache.queued_jobs(), 0);
    assert_eq!(cache.in_flight(), None);
    let _ = graph;
}

#[test]
fn selecting_a_change_computes_and_caches_its_stats() {
    let parent = change("parent", false, false);
    let graph = vec![change("wc", false, true), parent.clone()];
    let mut cache = GraphDiffStatsCache::new();
    let job = cache.ensure_graph_diff_stats(&parent, Some(&parent), true);
    assert_eq!(job, Some(("parent".to_string(), "parent".to_string())));
    assert_eq!(cache.in_flight(), Some("parent".to_string()));
    let next = cache.finish_graph_diff_stats(
        "parent".to_string(),
        Some(stats(1, 1, 0)),
        &graph,
        Some(&parent),
        true,
    );
    assert_eq!(next, None);
    assert_eq!(cache.in_flight(), None);
    assert_eq!(cache.cached(&"parent".to_string()), Some(stats(1, 1, 0)));
    assert_eq!(cache.change_stats(), Some(stats(1, 1, 0)));
}

#[test]
fn only_one_job_runs_and_the_queue_follows() {
    let a = change("a", false, false);
    let b = change("b", false, false);
    let graph = vec![a.clone(), b.clone()];
    let mut cache = GraphDiffStatsCache::new();
    assert_eq!(cache.ensure_graph_diff_stats(&a, None, true), Some(("a".to_string(), "a".to_string())));
    assert_eq!(cache.ensure_graph_diff_stats(&b, None, true), None);
    assert_eq!(cache.queued_jobs(), 1);
    // Asking again neither queues twice nor restarts.
    assert_eq!(cache.ensure_graph_diff_stats(&a, None, true), None);
    assert_eq!(cache.ensure_graph_diff_stats(&b, None, true), None);
    assert_eq!(cache.queued_jobs(), 1);
    let next = cache.finish_graph_diff_stats("a".to_string(), Some(stats(2, 5, 1)), &graph, None, true);
    assert_eq!(next, Some(("b".to_string(), "b".to_string())));
    assert_eq!(cache.in_flight(), Some("b".to_string()));
    assert_eq!(cache.queued_jobs(), 0);
    // A cached commit is shown without a new job.
    assert_eq!(cache.ensure_graph_diff_stats(&a, Some(&a), true), None);
    assert_eq!(cache.change_stats(), Some(stats(2, 5, 1)));
}

#[test]
fn failed_job_caches_nothing() {
    let a = change("a", false, false);
    let graph = vec![a.clone()];
    let mut cache = GraphDiffStatsCache::new();
    let _ = cache.ensure_graph_diff_stats(&a, None, true);
    let next = cache.finish_graph_diff_stats("a".to_string(), None, &graph, None, true);
    assert_eq!(next, None);
    assert_eq!(cache.cached(&"a".to_string()), None);
    assert_eq!(cache.in_flight(), None);
}

#[test]
fn without_repository_the_job_is_dropped() {
    let a = change("a", false, false);
    let mut cache = GraphDiffStatsCache::new();
    assert_eq!(cache.ensure_graph_diff_stats(&a, None, false), None);
    assert_eq!(cache.queued_jobs(), 0);
    assert_eq!(cache.in_flight(), None);
}

#[test]
fn stats_of_commits_outside_the_graph_are_not_stored() {
    let graph = vec![change("a", false, false)];
    let mut cache = GraphDiffStatsCache::new();
    cache.store_graph_diff_stats("deadbeef".to_string(), stats(1, 9, 3), &graph, None);
    assert_eq!(cache.cached(&"deadbeef".to_string()), None);
}

#[test]
fn refresh_drops_stats_of_commits_that_left_the_graph() {
    let old_graph = vec![change("deadbeef", false, false), change("keep", false, false)];
    let mut cache = GraphDiffStatsCache::new();
    cache.store_graph_diff_stats("deadbeef".to_string(), stats(1, 9, 3), &old_graph, None);
    cache.store_graph_diff_stats("keep".to_string(), stats(1, 1, 1), &old_graph, None);
    assert_eq!(cache.cached(&"deadbeef".to_string()), Some(stats(1, 9, 3)));
    let new_graph = vec![change("keep", false, false), change("new", false, false)];
    let x = change("gone", false, false);
    let _ = cache.ensure_graph_diff_stats(&change("new", false, false), None, true);
    let _ = cache.ensure_graph_diff_stats(&x, None, true);
    assert_eq!(cache.queued_jobs(), 1);
    cache.retain_graph_diff_stats(&new_graph);
    assert_eq!(cache.cached(&"deadbeef".to_string()), None);
    assert_eq!(cache.cached(&"keep".to_string()), Some(stats(1, 1, 1)));
    assert_eq!(cache.queued_jobs(), 0);
}

#[test]
fn storing_again_replaces_the_stats() {
    let graph = vec![change("a", false, false)];
    let mut cache = GraphDiffStatsCache::new();
    cache.store_graph_diff_stats("a".to_string(), stats(1, 1, 1), &graph, None);
    cache.store_graph_diff_stats("a".to_string(), stats(2, 2, 2), &graph, None);
    assert_eq!(cache.cached(&"a".to_string()), Some(stats(2, 2, 2)));
}
