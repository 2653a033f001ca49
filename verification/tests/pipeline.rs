use std::sync::Arc;
use vismatch_svc::image_hash::calc_similarity_list;
use vismatch_svc::image_hash::ImageDistEntry;
use vismatch_svc::image_hash::ImageHashEntry;
use vismatch_svc::metric::ImageHash;
use vismatch_svc::metric::MetricError;
use vismatch_svc::pipeline::compare_in_project;
use vismatch_svc::pipeline::rank_entries;
use vismatch_svc::pipeline::CompareError;
use vismatch_svc::registry::ProjectRegistry;

fn dist_entry(name: &str, distance: u64) -> ImageDistEntry {
    ImageDistEntry { image_name: name.to_owned(), distance }
}

fn entry(name: &str, bits: Vec<bool>) -> ImageHashEntry {
    ImageHashEntry { image_name: name.to_owned(), hash: ImageHash { bits } }
}

/// Bit vector of length 4 with the given number of leading set bits.
fn bits_with(ones: usize) -> Vec<bool> {
    let mut v = vec![false; 4];
    for i in 0..ones {
        v[i] = true;
    }
    v
}

#[test]
fn ranking_is_stable_for_ties() {
    let list = vec![dist_entry("A", 5), dist_entry("B", 2), dist_entry("C", 2), dist_entry("D", 9)];
    let ranked = rank_entries(list);
    let names: Vec<&str> = ranked.iter().map(|e| e.image_name.as_str()).collect();
    assert_eq!(names, vec!["B", "C", "A", "D"]);
    assert_eq!(ranked[0].distance, 2);
    assert_eq!(ranked[1].distance, 2);
}

#[test]
fn similarity_list_keeps_list_order() {
    let query = ImageHash { bits: bits_with(0) };
    let list = vec![entry("one", bits_with(1)), entry("three", bits_with(3))];
    let dists = calc_similarity_list(&query, &list).unwrap();
    assert_eq!(dists.len(), 2);
    assert_eq!(dists[0].image_name, "one");
    assert_eq!(dists[0].distance, 1);
    assert_eq!(dists[1].image_name, "three");
    assert_eq!(dists[1].distance, 3);
}

#[test]
fn comparison_ranks_a_whole_project() {
    let mut registry = ProjectRegistry::new();
    let list = vec![
        entry("far", bits_with(3)),
        entry("near", bits_with(1)),
        entry("exact", bits_with(0)),
    ];
    registry.insert_project("holiday".to_owned(), list);
    let query = ImageHash { bits: bits_with(0) };
    let ranked = compare_in_project(&query, &"holiday".to_owned(), &registry).unwrap();
    let names: Vec<&str> = ranked.iter().map(|e| e.image_name.as_str()).collect();
    assert_eq!(names, vec!["exact", "near", "far"]);
    assert_eq!(ranked[0].distance, 0);
    assert_eq!(ranked[2].distance, 3);
}

#[test]
fn unknown_project_is_a_not_found_error() {
    let registry = ProjectRegistry::new();
    let query = ImageHash { bits: bits_with(0) };
    let r = compare_in_project(&query, &"nonexistent".to_owned(), &registry);
    assert_eq!(r.unwrap_err(), CompareError::ProjectNotFound);
}

#[test]
fn mismatched_entry_length_is_a_metric_error() {
    let mut registry = ProjectRegistry::new();
    registry.insert_project("p".to_owned(), vec![entry("odd", vec![true, false, true])]);
    let query = ImageHash { bits: bits_with(0) };
    let r = compare_in_project(&query, &"p".to_owned(), &registry);
    assert_eq!(r.unwrap_err(), CompareError::Metric(MetricError::LengthMismatch));
}

#[test]
fn concurrent_comparisons_all_succeed() {
    let mut registry = ProjectRegistry::new();
    let list = vec![
        entry("a", bits_with(2)),
        entry("b", bits_with(0)),
        entry("c", bits_with(4)),
        entry("d", bits_with(1)),
    ];
    registry.insert_project("shared".to_owned(), list);
    let shared = Arc::new(tokio::sync::RwLock::new(registry));

    let rt = tokio::runtime::Runtime::new().unwrap();
    let results = rt.block_on(async {
        let mut handles = Vec::new();
        for _ in 0..8 {
            let reg = Arc::clone(&shared);
            handles.push(tokio::spawn(async move {
                let guard = reg.read().await;
                let query = ImageHash { bits: bits_with(0) };
                compare_in_project(&query, &"shared".to_owned(), &guard)
            }));
        }
        let mut out = Vec::new();
        for h in handles {
            out.push(h.await.unwrap());
        }
        out
    });

    assert_eq!(results.len(), 8);
    for r in results {
        let ranked = r.unwrap();
        assert_eq!(ranked.len(), 4);
        for w in ranked.windows(2) {
            assert!(w[0].distance <= w[1].distance);
        }
        assert_eq!(ranked[0].image_name, "b");
    }
}
