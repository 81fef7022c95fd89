use celestial::lod::{
    is_most_detailed_level, level_subdivisions, lod_level_for_distance, terrain_cache_key,
    which_part_to_preload, PreloadDetectionResult, PreloadDetectionResultAction, PreloadResult,
    TerrainIcosphere, WaterIcosphere,
};
use std::collections::HashMap;

#[test]
fn lod_levels_by_distance() {
    assert_eq!(lod_level_for_distance(0), 3);
    assert_eq!(lod_level_for_distance(1_999_999), 3);
    assert_eq!(lod_level_for_distance(2_000_000), 2);
    assert_eq!(lod_level_for_distance(4_999_999), 2);
    assert_eq!(lod_level_for_distance(5_000_000), 1);
    assert_eq!(lod_level_for_distance(u64::MAX), 1);
}

#[test]
fn lod_level_is_monotone() {
    let distances = [0u64, 10, 2_000_000, 3_000_000, 5_000_000, 9_000_000];
    for w in distances.windows(2) {
        assert!(lod_level_for_distance(w[0]) >= lod_level_for_distance(w[1]));
    }
}

#[test]
fn subdivisions_per_level() {
    assert_eq!(level_subdivisions(1), 3);
    assert_eq!(level_subdivisions(2), 4);
    assert_eq!(level_subdivisions(3), 5);
    assert!(is_most_detailed_level(3));
    assert!(!is_most_detailed_level(2));
}

#[test]
fn plan_inserts_missing_and_updates_wrong_levels() {
    let mut loaded = HashMap::new();
    loaded.insert(1u16, 3u8);
    loaded.insert(2u16, 1u8);
    let plan = which_part_to_preload(&vec![1, 2, 3], &vec![10, 10, 6_000_000], &loaded);
    assert_eq!(
        plan,
        vec![
            PreloadDetectionResult { base_segment: 2, level: 3, action: PreloadDetectionResultAction::Update },
            PreloadDetectionResult { base_segment: 3, level: 1, action: PreloadDetectionResultAction::Insert },
        ]
    );
}

#[test]
fn preload_converges_law() {
    let segs = vec![0u16, 1, 2, 3];
    let dists = vec![0u64, 3_000_000, 7_000_000, 1];
    let mut water = WaterIcosphere::new();
    let (first, plan) = water.preload(&segs, &dists);
    assert_eq!(first, PreloadResult::ChangesMade);
    assert_eq!(plan.len(), 4);
    assert_eq!(water.loaded_level(0), Some(3));
    assert_eq!(water.loaded_level(1), Some(2));
    assert_eq!(water.loaded_level(2), Some(1));
    let (second, plan) = water.preload(&segs, &dists);
    assert_eq!(second, PreloadResult::NotChanged);
    assert!(plan.is_empty());
}

#[test]
fn lowest_quality_moves_everything_to_level_one() {
    let mut water = WaterIcosphere::new();
    water.preload(&vec![0, 1, 2], &vec![0, 3_000_000, 9_000_000]);
    let (result, plan) = water.preload_lowest_quality();
    assert_eq!(result, PreloadResult::ChangesMade);
    let mut segs: Vec<u16> = plan.iter().map(|p| p.base_segment).collect();
    segs.sort();
    assert_eq!(segs, vec![0, 1]);
    for seg in 0..3 {
        assert_eq!(water.loaded_level(seg), Some(1));
    }
    assert_eq!(water.loaded_level(3), None);
    let (again, plan) = water.preload_lowest_quality();
    assert_eq!(again, PreloadResult::NotChanged);
    assert!(plan.is_empty());
}

#[test]
fn terrain_physics_only_at_most_detailed_level() {
    let mut terrain = TerrainIcosphere::new("earth");
    terrain.preload(&vec![5, 6], &vec![100, 2_500_000]);
    assert!(terrain.should_have_physics(5));
    assert!(!terrain.should_have_physics(6));
    assert!(!terrain.should_have_physics(7));
    terrain.preload(&vec![5, 6], &vec![2_500_000, 100]);
    assert!(!terrain.should_have_physics(5));
    assert!(terrain.should_have_physics(6));
}

#[test]
fn terrain_geometry_plan() {
    let terrain = TerrainIcosphere::new("earth");
    let plan = terrain.geometry_plan(12, 3);
    assert_eq!(plan.subdivisions, 5);
    assert_eq!(plan.cache_key, "celestial::terrain::earth::12");
    assert!(plan.with_physics);
    let plan = terrain.geometry_plan(0, 1);
    assert_eq!(plan.subdivisions, 3);
    assert!(!plan.with_physics);
    assert_eq!(terrain_cache_key("moon", 65535), "celestial::terrain::moon::65535");
}

#[test]
fn only_loaded_segments_are_drawn() {
    let mut terrain = TerrainIcosphere::new("moon");
    assert_eq!(terrain.drawn_segments(&vec![0, 1, 2]), Vec::<u16>::new());
    terrain.preload(&vec![2, 0], &vec![10, 6_000_000]);
    assert_eq!(terrain.drawn_segments(&vec![0, 1, 2]), vec![0, 2]);
    let mut water = WaterIcosphere::new();
    water.preload(&vec![1], &vec![3_000_000]);
    assert_eq!(water.drawn_segments(&vec![0, 1, 2]), vec![1]);
}

#[test]
fn second_preload_changes_nothing_with_repeated_segment() {
    let mut terrain = TerrainIcosphere::new("earth");
    let segs = vec![5, 7, 5];
    let dists = vec![0, 6_000_000, 1_000];
    let (first, _) = terrain.preload(&segs, &dists);
    assert_eq!(first, PreloadResult::ChangesMade);
    let (second, plan) = terrain.preload(&segs, &dists);
    assert_eq!(second, PreloadResult::NotChanged);
    assert!(plan.is_empty());
    assert_eq!(terrain.loaded_level(5), Some(3));
    assert_eq!(terrain.loaded_level(7), Some(1));
}
