//! Level-of-detail planning for icosphere segments.
//!
//! A celestial body's surface is drawn as segments of an icosphere, each at
//! one of three levels of detail chosen from its distance to the camera.
//! The bookkeeping of which segment is loaded at which level, what has to be
//! (re)loaded, and what a loaded segment carries is decided here; producing
//! the geometry itself is left to the caller.
use vstd::prelude::*;
use std::collections::HashMap;
use vstd::std_specs::iter::IteratorSpec;
use crate::text::{push_decimal, push_str, spec_decimal, string_of};

verus! {

broadcast use {vstd::std_specs::hash::group_hash_axioms, vstd::seq_lib::group_seq_properties};

/// Distance (in whole units) under which a segment is drawn at the most detailed level.
pub const ICO_NEAR_THRESHOLD: u64 = 2000000;

/// Distance (in whole units) under which a segment is drawn at least at the middle level.
pub const ICO_MID_THRESHOLD: u64 = 5000000;

/// The number of levels of detail; levels are numbered from 1 (coarsest).
pub const ICO_LEVEL_COUNT: u8 = 3;

/// What has to happen to a segment's loaded geometry.
#[derive(PartialEq, Eq, Structural, Clone, Copy, Debug)]
pub enum PreloadDetectionResultAction {
    /// The segment is not loaded yet.
    Insert,
    /// The segment is loaded, at another level.
    Update,
}

/// A segment to (re)load, and at which level.
#[derive(PartialEq, Eq, Structural, Clone, Copy, Debug)]
pub struct PreloadDetectionResult {
    pub base_segment: u16,
    pub level: u8,
    pub action: PreloadDetectionResultAction,
}

/// Whether a preload pass changed anything.
#[derive(Ord, PartialOrd, Eq, PartialEq, Structural, Clone, Copy, Debug)]
pub enum PreloadResult {
    ChangesMade,
    NotChanged,
}

/// The level of detail that a segment at `distance` should have.
pub open spec fn spec_lod_level(distance: int) -> u8 {
    if distance < ICO_NEAR_THRESHOLD {
        3
    } else if distance < ICO_MID_THRESHOLD {
        2
    } else {
        1
    }
}

/// Picks the level of detail of a segment from its distance to the camera,
/// rounded down to whole units: the nearer, the more detailed.
pub fn lod_level_for_distance(distance: u64) -> (level: u8)
    ensures
        level == spec_lod_level(distance as int),
        1 <= level <= ICO_LEVEL_COUNT,
{
    let mut level: u8 = 1;
    if distance < ICO_MID_THRESHOLD {
        level = 2;
    }
    if distance < ICO_NEAR_THRESHOLD {
        level = 3;
    }
    level
}

/// Law: a nearer segment is never drawn with less detail than a farther one.
pub proof fn lemma_lod_level_monotone(near: int, far: int)
    requires
        near <= far,
    ensures
        spec_lod_level(near) >= spec_lod_level(far),
{
}

/// The icosphere subdivisions used for a level of detail.
pub open spec fn spec_level_subdivisions(level: u8) -> u8 {
    if level == 1 {
        3
    } else if level == 2 {
        4
    } else {
        5
    }
}

/// The icosphere subdivisions used for `level`, which must be a valid level.
pub fn level_subdivisions(level: u8) -> (subdivisions: u8)
    requires
        1 <= level <= ICO_LEVEL_COUNT,
    ensures
        subdivisions == spec_level_subdivisions(level),
{
    if level == 1 {
        3
    } else if level == 2 {
        4
    } else {
        5
    }
}

/// Whether `level` is the most detailed level.
pub fn is_most_detailed_level(level: u8) -> (most: bool)
    ensures
        most == (level == ICO_LEVEL_COUNT),
{
    level == ICO_LEVEL_COUNT
}

// ---------------------------------------------------------------------------
// Planning
// ---------------------------------------------------------------------------

/// What has to be done for one segment at `distance`, given what is loaded.
pub open spec fn spec_plan_item(seg: u16, distance: u64, loaded: Map<u16, u8>) -> Option<
    PreloadDetectionResult,
> {
    let level = spec_lod_level(distance as int);
    if loaded.contains_key(seg) {
        if loaded[seg] != level {
            Some(
                PreloadDetectionResult {
                    base_segment: seg,
                    level,
                    action: PreloadDetectionResultAction::Update,
                },
            )
        } else {
            None
        }
    } else {
        Some(
            PreloadDetectionResult {
                base_segment: seg,
                level,
                action: PreloadDetectionResultAction::Insert,
            },
        )
    }
}

/// The plan for the segments `segs`, the one at position `i` being at
/// distance `dists[i]`: one item per segment that is missing or loaded at
/// the wrong level, in segment order.
pub open spec fn spec_preload_plan(segs: Seq<u16>, dists: Seq<u64>, loaded: Map<u16, u8>) -> Seq<
    PreloadDetectionResult,
>
    decreases segs.len(),
{
    if segs.len() == 0 {
        Seq::empty()
    } else {
        let rest = spec_preload_plan(segs.drop_last(), dists, loaded);
        match spec_plan_item(segs.last(), dists[segs.len() - 1], loaded) {
            Some(p) => rest.push(p),
            None => rest,
        }
    }
}

/// The loaded levels after carrying out `plan` on `loaded`.
pub open spec fn spec_apply_plan(loaded: Map<u16, u8>, plan: Seq<PreloadDetectionResult>) -> Map<
    u16,
    u8,
>
    decreases plan.len(),
{
    if plan.len() == 0 {
        loaded
    } else {
        spec_apply_plan(loaded, plan.drop_last()).insert(plan.last().base_segment, plan.last().level)
    }
}

/// Every `Update` in `plan` is for a segment that `loaded` holds.
pub open spec fn updates_are_loaded(loaded: Map<u16, u8>, plan: Seq<PreloadDetectionResult>) -> bool {
    forall|j: int|
        0 <= j < plan.len() && (#[trigger] plan[j]).action == PreloadDetectionResultAction::Update
            ==> loaded.contains_key(plan[j].base_segment)
}

/// Finds the segments to load or reload: each segment (the one at position
/// `i` being at distance `distances[i]`) that is not loaded yet, or is loaded
/// at another level than its distance asks for.
pub fn which_part_to_preload(
    base_segments: &Vec<u16>,
    distances: &Vec<u64>,
    currently_loaded: &HashMap<u16, u8>,
) -> (plan: Vec<PreloadDetectionResult>)
    requires
        distances@.len() >= base_segments@.len(),
    ensures
        plan@ == spec_preload_plan(base_segments@, distances@, currently_loaded@),
{
    let mut plan: Vec<PreloadDetectionResult> = Vec::new();
    let mut i: usize = 0;
    while i < base_segments.len()
        invariant
            i <= base_segments@.len(),
            distances@.len() >= base_segments@.len(),
            plan@ == spec_preload_plan(base_segments@.take(i as int), distances@, currently_loaded@),
        decreases base_segments@.len() - i,
    {
        let seg = base_segments[i];
        let level = lod_level_for_distance(distances[i]);
        proof {
            assert(base_segments@.take(i + 1).drop_last() =~= base_segments@.take(i as int));
            assert(base_segments@.take(i + 1).last() == seg);
        }
        match currently_loaded.get(&seg) {
            Some(loaded_level) => {
                if *loaded_level != level {
                    plan.push(
                        PreloadDetectionResult {
                            base_segment: seg,
                            level,
                            action: PreloadDetectionResultAction::Update,
                        },
                    );
                }
            },
            None => {
                plan.push(
                    PreloadDetectionResult {
                        base_segment: seg,
                        level,
                        action: PreloadDetectionResultAction::Insert,
                    },
                );
            },
        }
        i = i + 1;
    }
    assert(base_segments@.take(i as int) =~= base_segments@);
    plan
}

/// Records the levels of the segments of `plan` as loaded.
pub fn apply_preload_plan(loaded: &mut HashMap<u16, u8>, plan: &Vec<PreloadDetectionResult>) -> (result: PreloadResult)
    requires
        updates_are_loaded(old(loaded)@, plan@),
    ensures
        final(loaded)@ == spec_apply_plan(old(loaded)@, plan@),
        result == (if plan@.len() > 0 {
            PreloadResult::ChangesMade
        } else {
            PreloadResult::NotChanged
        }),
{
    let mut i: usize = 0;
    while i < plan.len()
        invariant
            i <= plan@.len(),
            loaded@ == spec_apply_plan(old(loaded)@, plan@.take(i as int)),
        decreases plan@.len() - i,
    {
        let item = plan[i];
        loaded.insert(item.base_segment, item.level);
        proof {
            assert(plan@.take(i + 1).drop_last() =~= plan@.take(i as int));
        }
        i = i + 1;
    }
    assert(plan@.take(i as int) =~= plan@);
    if plan.len() > 0 {
        PreloadResult::ChangesMade
    } else {
        PreloadResult::NotChanged
    }
}

/// Whether any of the preload passes of a frame changed something, in which
/// case the frame's drawing commands must be recorded again.
pub fn any_changes_made(results: &Vec<PreloadResult>) -> (changed: bool)
    ensures
        changed == (exists|i: int| 0 <= i < results@.len() && #[trigger] results@[i] == PreloadResult::ChangesMade),
{
    let mut i: usize = 0;
    while i < results.len()
        invariant
            i <= results@.len(),
            forall|j: int| 0 <= j < i ==> results@[j] != PreloadResult::ChangesMade,
        decreases results@.len() - i,
    {
        if results[i] == PreloadResult::ChangesMade {
            return true;
        }
        i = i + 1;
    }
    false
}

// ---------------------------------------------------------------------------
// Laws of planning
// ---------------------------------------------------------------------------

proof fn lemma_apply_push(loaded: Map<u16, u8>, plan: Seq<PreloadDetectionResult>, p: PreloadDetectionResult)
    ensures
        spec_apply_plan(loaded, plan.push(p)) == spec_apply_plan(loaded, plan).insert(p.base_segment, p.level),
{
    assert(plan.push(p).drop_last() =~= plan);
}

proof fn lemma_apply_keeps_keys(loaded: Map<u16, u8>, plan: Seq<PreloadDetectionResult>, k: u16)
    requires
        loaded.contains_key(k),
    ensures
        spec_apply_plan(loaded, plan).contains_key(k),
    decreases plan.len(),
{
    if plan.len() > 0 {
        lemma_apply_keeps_keys(loaded, plan.drop_last(), k);
    }
}

/// A plan for segments other than `k` leaves `k` as it was.
proof fn lemma_plan_leaves_others(
    segs: Seq<u16>,
    dists: Seq<u64>,
    base: Map<u16, u8>,
    loaded: Map<u16, u8>,
    k: u16,
)
    requires
        forall|i: int| 0 <= i < segs.len() ==> segs[i] != k,
    ensures
        spec_apply_plan(base, spec_preload_plan(segs, dists, loaded)).contains_key(k)
            == base.contains_key(k),
        base.contains_key(k) ==> spec_apply_plan(base, spec_preload_plan(segs, dists, loaded))[k]
            == base[k],
    decreases segs.len(),
{
    if segs.len() > 0 {
        lemma_plan_leaves_others(segs.drop_last(), dists, base, loaded, k);
        let rest = spec_preload_plan(segs.drop_last(), dists, loaded);
        match spec_plan_item(segs.last(), dists[segs.len() - 1], loaded) {
            Some(p) => lemma_apply_push(base, rest, p),
            None => {},
        }
    }
}

/// Once every segment is loaded at the level its distance asks for, there is
/// nothing to plan.
proof fn lemma_plan_empty_when_settled(segs: Seq<u16>, dists: Seq<u64>, loaded: Map<u16, u8>)
    requires
        dists.len() >= segs.len(),
        forall|i: int|
            0 <= i < segs.len() ==> loaded.contains_key(#[trigger] segs[i]) && loaded[segs[i]]
                == spec_lod_level(dists[i] as int),
    ensures
        spec_preload_plan(segs, dists, loaded) == Seq::<PreloadDetectionResult>::empty(),
    decreases segs.len(),
{
    if segs.len() > 0 {
        let n = segs.len() - 1;
        assert(segs[n] == segs.last());
        lemma_plan_empty_when_settled(segs.drop_last(), dists, loaded);
    }
}

/// A plan only updates segments that are loaded.
pub proof fn lemma_plan_updates_are_loaded(segs: Seq<u16>, dists: Seq<u64>, loaded: Map<u16, u8>)
    ensures
        updates_are_loaded(loaded, spec_preload_plan(segs, dists, loaded)),
    decreases segs.len(),
{
    if segs.len() > 0 {
        lemma_plan_updates_are_loaded(segs.drop_last(), dists, loaded);
    }
}

/// Where a segment is listed more than once, every listing asks for the
/// same level.
pub open spec fn levels_agree(segs: Seq<u16>, dists: Seq<u64>) -> bool {
    forall|i: int, j: int|
        0 <= i < segs.len() && 0 <= j < segs.len() && #[trigger] segs[i] == #[trigger] segs[j]
            ==> spec_lod_level(dists[i] as int) == spec_lod_level(dists[j] as int)
}

/// Law: carrying out the plan brings every segment to the level its distance
/// asks for, after which there is nothing left to plan and a second pass
/// changes nothing. (Where a segment is listed twice at distances of
/// different levels, the later listing wins, so the law asks that listings
/// of one segment agree on its level.)
pub proof fn lemma_preload_converges(segs: Seq<u16>, dists: Seq<u64>, loaded: Map<u16, u8>)
    requires
        levels_agree(segs, dists),
        dists.len() >= segs.len(),
    ensures
        ({
            let after = spec_apply_plan(loaded, spec_preload_plan(segs, dists, loaded));
            &&& forall|i: int|
                0 <= i < segs.len() ==> after.contains_key(#[trigger] segs[i]) && after[segs[i]]
                    == spec_lod_level(dists[i] as int)
            &&& spec_preload_plan(segs, dists, after) == Seq::<PreloadDetectionResult>::empty()
            &&& spec_apply_plan(after, spec_preload_plan(segs, dists, after)) == after
        }),
    decreases segs.len(),
{
    let after = spec_apply_plan(loaded, spec_preload_plan(segs, dists, loaded));
    if segs.len() > 0 {
        let n = segs.len() - 1;
        let init = segs.drop_last();
        assert forall|i: int, j: int|
            0 <= i < init.len() && 0 <= j < init.len() && #[trigger] init[i] == #[trigger] init[j]
                implies spec_lod_level(dists[i] as int) == spec_lod_level(dists[j] as int) by {
            assert(init[i] == segs[i] && init[j] == segs[j]);
        }
        lemma_preload_converges(init, dists, loaded);
        let rest = spec_preload_plan(init, dists, loaded);
        let s = segs[n];
        match spec_plan_item(segs.last(), dists[n], loaded) {
            Some(p) => {
                lemma_apply_push(loaded, rest, p);
            },
            None => {
                if exists|i: int| 0 <= i < n && init[i] == s {
                    let i = choose|i: int| 0 <= i < n && init[i] == s;
                    assert(segs[i] == segs[n]);
                } else {
                    assert forall|i: int| 0 <= i < init.len() implies init[i] != s by {}
                    lemma_plan_leaves_others(init, dists, loaded, loaded, s);
                }
            },
        }
        assert forall|i: int| 0 <= i < segs.len() implies after.contains_key(#[trigger] segs[i])
            && after[segs[i]] == spec_lod_level(dists[i] as int) by {
            if i < n {
                assert(init[i] == segs[i]);
                if segs[i] == s {
                    assert(spec_lod_level(dists[i] as int) == spec_lod_level(dists[n] as int));
                }
            }
        }
    }
    lemma_plan_empty_when_settled(segs, dists, after);
}

// ---------------------------------------------------------------------------
// Falling back to the lowest level
// ---------------------------------------------------------------------------

/// `plan` moves every loaded segment that is not at level 1 to level 1, each
/// once, and touches nothing else.
pub open spec fn is_lowest_quality_plan(loaded: Map<u16, u8>, plan: Seq<PreloadDetectionResult>) -> bool {
    &&& forall|j: int|
        0 <= j < plan.len() ==> {
            &&& (#[trigger] plan[j]).level == 1
            &&& plan[j].action == PreloadDetectionResultAction::Update
            &&& loaded.contains_key(plan[j].base_segment)
            &&& loaded[plan[j].base_segment] != 1
        }
    &&& forall|k: u16|
        #[trigger] loaded.contains_key(k) && loaded[k] != 1 ==> exists|j: int|
            0 <= j < plan.len() && (#[trigger] plan[j]).base_segment == k
    &&& forall|j1: int, j2: int|
        0 <= j1 < j2 < plan.len() ==> (#[trigger] plan[j1]).base_segment
            != (#[trigger] plan[j2]).base_segment
}

/// The plan that moves every loaded segment to the lowest level. The order
/// of the items follows the map's iteration order, which is not specified.
pub fn lowest_quality_plan(loaded: &HashMap<u16, u8>) -> (plan: Vec<PreloadDetectionResult>)
    ensures
        is_lowest_quality_plan(loaded@, plan@),
{
    let mut plan: Vec<PreloadDetectionResult> = Vec::new();
    let ghost entries = loaded.iter().remaining();
    for kv in it: loaded.iter()
        invariant
            it.seq() == entries,
            entries.no_duplicates(),
            forall|i: int|
                0 <= i < entries.len() ==> loaded@.contains_key(*(#[trigger] entries[i]).0)
                    && loaded@[*entries[i].0] == *entries[i].1,
            forall|k: u16| #[trigger] loaded@.contains_key(k) ==> entries.contains((&k, &loaded@[k])),
            forall|j: int|
                0 <= j < plan@.len() ==> {
                    &&& (#[trigger] plan@[j]).level == 1
                    &&& plan@[j].action == PreloadDetectionResultAction::Update
                    &&& loaded@.contains_key(plan@[j].base_segment)
                    &&& loaded@[plan@[j].base_segment] != 1
                    &&& exists|i: int|
                        0 <= i < it.index() && *(#[trigger] entries[i]).0 == plan@[j].base_segment
                },
            forall|i: int|
                0 <= i < it.index() && *(#[trigger] entries[i]).1 != 1 ==> exists|j: int|
                    0 <= j < plan@.len() && (#[trigger] plan@[j]).base_segment == *entries[i].0,
            forall|j1: int, j2: int|
                0 <= j1 < j2 < plan@.len() ==> (#[trigger] plan@[j1]).base_segment
                    != (#[trigger] plan@[j2]).base_segment,
    {
        let (k, v) = kv;
        let ghost idx = it.index();
        assert(kv == entries[idx]);
        let ghost old_plan = plan@;
        if *v != 1 {
            plan.push(
                PreloadDetectionResult {
                    base_segment: *k,
                    level: 1,
                    action: PreloadDetectionResultAction::Update,
                },
            );
            proof {
                assert forall|j: int| 0 <= j < old_plan.len() implies (#[trigger] old_plan[j]).base_segment
                    != *k by {
                    let i = choose|i: int|
                        0 <= i < idx && *(#[trigger] entries[i]).0 == old_plan[j].base_segment;
                    assert(entries[i] != entries[idx]);
                    assert(loaded@[*entries[i].0] == *entries[i].1);
                }
                assert(*entries[idx].0 == plan@[old_plan.len() as int].base_segment);
            }
        }
        proof {
            assert forall|i: int| 0 <= i <= idx && *(#[trigger] entries[i]).1 != 1 implies exists|
                j: int,
            | 0 <= j < plan@.len() && (#[trigger] plan@[j]).base_segment == *entries[i].0 by {
                if i == idx {
                    assert(plan@[old_plan.len() as int].base_segment == *entries[i].0);
                } else {
                    let j = choose|j: int|
                        0 <= j < old_plan.len() && (#[trigger] old_plan[j]).base_segment
                            == *entries[i].0;
                    assert(plan@[j] == old_plan[j]);
                }
            }
        }
    }
    proof {
        assert forall|k: u16| #[trigger] loaded@.contains_key(k) && loaded@[k] != 1 implies exists|
            j: int,
        | 0 <= j < plan@.len() && (#[trigger] plan@[j]).base_segment == k by {
            assert(entries.contains((&k, &loaded@[k])));
            let i = choose|i: int| 0 <= i < entries.len() && entries[i] == (&k, &loaded@[k]);
            assert(*entries[i].1 != 1);
        }
    }
    plan
}

/// Law: carrying out the lowest-quality plan leaves the same segments
/// loaded, all at level 1.
pub proof fn lemma_lowest_quality_plan_result(
    loaded: Map<u16, u8>,
    plan: Seq<PreloadDetectionResult>,
    k: u16,
)
    requires
        is_lowest_quality_plan(loaded, plan),
    ensures
        spec_apply_plan(loaded, plan).contains_key(k) == loaded.contains_key(k),
        loaded.contains_key(k) ==> spec_apply_plan(loaded, plan)[k] == 1,
{
    lemma_apply_levels(loaded, plan, k);
    if loaded.contains_key(k) && loaded[k] != 1 {
        let j = choose|j: int| 0 <= j < plan.len() && (#[trigger] plan[j]).base_segment == k;
    }
}

/// Carrying out a plan whose items all are for loaded segments and all at
/// level 1: a segment is loaded afterwards iff it was, and is at level 1 if
/// the plan names it, else at its old level.
proof fn lemma_apply_levels(loaded: Map<u16, u8>, plan: Seq<PreloadDetectionResult>, k: u16)
    requires
        forall|j: int|
            0 <= j < plan.len() ==> (#[trigger] plan[j]).level == 1 && loaded.contains_key(
                plan[j].base_segment,
            ),
    ensures
        spec_apply_plan(loaded, plan).contains_key(k) == loaded.contains_key(k),
        (exists|j: int| 0 <= j < plan.len() && (#[trigger] plan[j]).base_segment == k)
            ==> spec_apply_plan(loaded, plan)[k] == 1,
        !(exists|j: int| 0 <= j < plan.len() && (#[trigger] plan[j]).base_segment == k)
            && loaded.contains_key(k) ==> spec_apply_plan(loaded, plan)[k] == loaded[k],
    decreases plan.len(),
{
    if plan.len() > 0 {
        let init = plan.drop_last();
        assert forall|j: int| 0 <= j < init.len() implies (#[trigger] init[j]).level == 1
            && loaded.contains_key(init[j].base_segment) by {
            assert(init[j] == plan[j]);
        }
        lemma_apply_levels(loaded, init, k);
        let last = plan.last();
        assert(last == plan[plan.len() - 1]);
        if exists|j: int| 0 <= j < plan.len() && (#[trigger] plan[j]).base_segment == k {
            if last.base_segment != k {
                let j = choose|j: int| 0 <= j < plan.len() && (#[trigger] plan[j]).base_segment == k;
                assert(init[j] == plan[j]);
            }
        } else {
            assert forall|j: int| 0 <= j < init.len() implies (#[trigger] init[j]).base_segment != k by {
                assert(init[j] == plan[j]);
            }
        }
    }
}

// ---------------------------------------------------------------------------
// Loaded segments of a body's terrain and water
// ---------------------------------------------------------------------------

/// The segments of `segs` that are loaded, in the order of `segs`.
pub open spec fn spec_drawn_segments(segs: Seq<u16>, loaded: Map<u16, u8>) -> Seq<u16> {
    segs.filter(|s: u16| loaded.contains_key(s))
}

/// The segments to draw, in the order of `segs`: those that are loaded.
fn drawn_segments(segs: &Vec<u16>, loaded: &HashMap<u16, u8>) -> (drawn: Vec<u16>)
    ensures
        drawn@ == spec_drawn_segments(segs@, loaded@),
{
    let mut drawn: Vec<u16> = Vec::new();
    let mut i: usize = 0;
    while i < segs.len()
        invariant
            i <= segs@.len(),
            drawn@ == spec_drawn_segments(segs@.take(i as int), loaded@),
        decreases segs.len() - i,
    {
        let seg = segs[i];
        proof {
            segs@.take(i as int).lemma_filter_push(seg, |s: u16| loaded@.contains_key(s));
            assert(segs@.take(i + 1) == segs@.take(i as int).push(seg));
        }
        if loaded.contains_key(&seg) {
            drawn.push(seg);
        }
        i = i + 1;
    }
    assert(segs@.take(i as int) == segs@);
    drawn
}

/// What loading one terrain segment at a level involves.
pub struct SegmentGeometryPlan {
    /// How finely the segment is subdivided.
    pub subdivisions: u8,
    /// The key under which the segment's vertices are cached for collisions.
    pub cache_key: String,
    /// Whether the segment gets collision physics (and its vertices are
    /// written to the cache); otherwise its cache entry is purged.
    pub with_physics: bool,
}

/// The cache key of a terrain segment: `celestial::terrain::<body>::<segment>`.
pub open spec fn spec_terrain_cache_key(body_name: Seq<char>, base_segment: u16) -> Seq<char> {
    "celestial::terrain::"@ + body_name + "::"@ + spec_decimal(base_segment as nat)
}

/// Builds the cache key of a terrain segment.
pub fn terrain_cache_key(body_name: &str, base_segment: u16) -> (key: String)
    ensures
        key@ == spec_terrain_cache_key(body_name@, base_segment),
{
    let mut chars: Vec<char> = Vec::new();
    push_str(&mut chars, "celestial::terrain::");
    push_str(&mut chars, body_name);
    push_str(&mut chars, "::");
    push_decimal(base_segment as u64, &mut chars);
    assert(chars@ =~= spec_terrain_cache_key(body_name@, base_segment));
    string_of(&chars)
}

/// The loaded segments of a body's terrain: for each loaded segment, its
/// level of detail.
pub struct TerrainIcosphere {
    body_name: String,
    currently_loaded: HashMap<u16, u8>,
}

impl View for TerrainIcosphere {
    type V = Map<u16, u8>;

    closed spec fn view(&self) -> Map<u16, u8> {
        self.currently_loaded@
    }
}

impl TerrainIcosphere {
    /// The name of the body.
    pub closed spec fn spec_body_name(&self) -> Seq<char> {
        self.body_name@
    }

    /// A terrain with no segment loaded yet.
    pub fn new(body_name: &str) -> (terrain: Self)
        ensures
            terrain@ == Map::<u16, u8>::empty(),
            terrain.spec_body_name() == body_name@,
    {
        let name = string_of(&crate::text::chars_of(body_name));
        TerrainIcosphere { body_name: name, currently_loaded: HashMap::new() }
    }

    /// Plans and records a preload pass: the segments at position `i` of
    /// `base_segments` is at distance `distances[i]`. Returns whether
    /// anything changes and the segments whose geometry must be (re)built.
    pub fn preload(&mut self, base_segments: &Vec<u16>, distances: &Vec<u64>) -> (r: (
        PreloadResult,
        Vec<PreloadDetectionResult>,
    ))
        requires
            distances@.len() >= base_segments@.len(),
        ensures
            r.1@ == spec_preload_plan(base_segments@, distances@, old(self)@),
            final(self)@ == spec_apply_plan(old(self)@, r.1@),
            final(self).spec_body_name() == old(self).spec_body_name(),
            r.0 == (if r.1@.len() > 0 {
                PreloadResult::ChangesMade
            } else {
                PreloadResult::NotChanged
            }),
    {
        let plan = which_part_to_preload(base_segments, distances, &self.currently_loaded);
        proof {
            lemma_plan_updates_are_loaded(base_segments@, distances@, self@);
        }
        let result = apply_preload_plan(&mut self.currently_loaded, &plan);
        (result, plan)
    }

    /// The level at which a segment is loaded, if it is.
    pub fn loaded_level(&self, base_index: u16) -> (level: Option<u8>)
        ensures
            level == (if self@.contains_key(base_index) {
                Some(self@[base_index])
            } else {
                None
            }),
    {
        match self.currently_loaded.get(&base_index) {
            Some(l) => Some(*l),
            None => None,
        }
    }

    /// Whether a segment carries collision physics: it does when it is
    /// loaded at the most detailed level.
    pub fn should_have_physics(&self, base_index: u16) -> (physics: bool)
        ensures
            physics == (self@.contains_key(base_index) && self@[base_index] == ICO_LEVEL_COUNT),
    {
        match self.currently_loaded.get(&base_index) {
            Some(l) => is_most_detailed_level(*l),
            None => false,
        }
    }

    /// The segments to draw, in the order of `base_segments`: the loaded ones.
    pub fn drawn_segments(&self, base_segments: &Vec<u16>) -> (drawn: Vec<u16>)
        ensures
            drawn@ == spec_drawn_segments(base_segments@, self@),
    {
        drawn_segments(base_segments, &self.currently_loaded)
    }

    /// What loading `base_segment` at `level` involves.
    pub fn geometry_plan(&self, base_segment: u16, level: u8) -> (plan: SegmentGeometryPlan)
        requires
            1 <= level <= ICO_LEVEL_COUNT,
        ensures
            plan.subdivisions == spec_level_subdivisions(level),
            plan.cache_key@ == spec_terrain_cache_key(self.spec_body_name(), base_segment),
            plan.with_physics == (level == ICO_LEVEL_COUNT),
    {
        SegmentGeometryPlan {
            subdivisions: level_subdivisions(level),
            cache_key: terrain_cache_key(self.body_name.as_str(), base_segment),
            with_physics: is_most_detailed_level(level),
        }
    }
}

/// The loaded segments of a body's water: for each loaded segment, its
/// level of detail.
pub struct WaterIcosphere {
    currently_loaded: HashMap<u16, u8>,
}

impl View for WaterIcosphere {
    type V = Map<u16, u8>;

    closed spec fn view(&self) -> Map<u16, u8> {
        self.currently_loaded@
    }
}

impl WaterIcosphere {
    /// Water with no segment loaded yet.
    pub fn new() -> (water: Self)
        ensures
            water@ == Map::<u16, u8>::empty(),
    {
        WaterIcosphere { currently_loaded: HashMap::new() }
    }

    /// Plans and records a preload pass, as for terrain.
    pub fn preload(&mut self, base_segments: &Vec<u16>, distances: &Vec<u64>) -> (r: (
        PreloadResult,
        Vec<PreloadDetectionResult>,
    ))
        requires
            distances@.len() >= base_segments@.len(),
        ensures
            r.1@ == spec_preload_plan(base_segments@, distances@, old(self)@),
            final(self)@ == spec_apply_plan(old(self)@, r.1@),
            r.0 == (if r.1@.len() > 0 {
                PreloadResult::ChangesMade
            } else {
                PreloadResult::NotChanged
            }),
    {
        let plan = which_part_to_preload(base_segments, distances, &self.currently_loaded);
        proof {
            lemma_plan_updates_are_loaded(base_segments@, distances@, self@);
        }
        let result = apply_preload_plan(&mut self.currently_loaded, &plan);
        (result, plan)
    }

    /// Moves every loaded segment to the lowest level. Returns whether
    /// anything changes and the segments whose geometry must be rebuilt.
    pub fn preload_lowest_quality(&mut self) -> (r: (PreloadResult, Vec<PreloadDetectionResult>))
        ensures
            is_lowest_quality_plan(old(self)@, r.1@),
            final(self)@ == spec_apply_plan(old(self)@, r.1@),
            r.0 == (if r.1@.len() > 0 {
                PreloadResult::ChangesMade
            } else {
                PreloadResult::NotChanged
            }),
    {
        let plan = lowest_quality_plan(&self.currently_loaded);
        let result = apply_preload_plan(&mut self.currently_loaded, &plan);
        (result, plan)
    }

    /// The level at which a segment is loaded, if it is.
    pub fn loaded_level(&self, base_index: u16) -> (level: Option<u8>)
        ensures
            level == (if self@.contains_key(base_index) {
                Some(self@[base_index])
            } else {
                None
            }),
    {
        match self.currently_loaded.get(&base_index) {
            Some(l) => Some(*l),
            None => None,
        }
    }

    /// The segments to draw, in the order of `base_segments`: the loaded ones.
    pub fn drawn_segments(&self, base_segments: &Vec<u16>) -> (drawn: Vec<u16>)
        ensures
            drawn@ == spec_drawn_segments(base_segments@, self@),
    {
        drawn_segments(base_segments, &self.currently_loaded)
    }

    /// The subdivisions of a water segment loaded at `level`.
    pub fn geometry_subdivisions(&self, level: u8) -> (subdivisions: u8)
        requires
            1 <= level <= ICO_LEVEL_COUNT,
        ensures
            subdivisions == spec_level_subdivisions(level),
    {
        level_subdivisions(level)
    }
}

/// Law: after a preload pass (whose listings of one segment agree on its
/// level), a terrain segment carries collision physics exactly when it is
/// nearer than the near threshold.
pub proof fn lemma_physics_after_preload(
    segs: Seq<u16>,
    dists: Seq<u64>,
    loaded: Map<u16, u8>,
    i: int,
)
    requires
        levels_agree(segs, dists),
        dists.len() >= segs.len(),
        0 <= i < segs.len(),
    ensures
        ({
            let after = spec_apply_plan(loaded, spec_preload_plan(segs, dists, loaded));
            (after.contains_key(segs[i]) && after[segs[i]] == ICO_LEVEL_COUNT) <==> dists[i]
                < ICO_NEAR_THRESHOLD
        }),
{
    lemma_preload_converges(segs, dists, loaded);
}

} // verus!
