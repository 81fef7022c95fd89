//! The celestial bodies being rendered.
//!
//! Each frame the simulation names the bodies of the hierarchy closest to
//! the camera. A body that is not rendered yet is added, with terrain and
//! water surfaces where it has them; a rendered body keeps its surfaces
//! (and what they have loaded); a body that is no longer named is dropped.
use vstd::prelude::*;
use crate::lod::{
    PreloadDetectionResult, PreloadResult, TerrainIcosphere, WaterIcosphere, spec_apply_plan,
    spec_preload_plan,
};

verus! {

broadcast use vstd::seq_lib::group_seq_properties;

/// A body of the hierarchy closest to the camera, as the simulation names it.
pub struct HierarchyBody {
    pub name: String,
    /// Whether the body has a terrain surface.
    pub has_terrain: bool,
    /// Whether the body has a water surface.
    pub has_water: bool,
}

/// A body being rendered, with its surfaces.
pub struct RenderedBody {
    pub name: String,
    pub terrain_icosphere: Option<TerrainIcosphere>,
    pub water_icosphere: Option<WaterIcosphere>,
}

/// What a rendered body holds: for each surface it has, the levels of its
/// loaded segments (and, for terrain, the body name it was made with).
pub struct RenderedBodyView {
    pub terrain: Option<(Seq<char>, Map<u16, u8>)>,
    pub water: Option<Map<u16, u8>>,
}

pub open spec fn body_view(b: RenderedBody) -> RenderedBodyView {
    RenderedBodyView {
        terrain: match b.terrain_icosphere {
            Some(t) => Some((t.spec_body_name(), t@)),
            None => None,
        },
        water: match b.water_icosphere {
            Some(w) => Some(w@),
            None => None,
        },
    }
}

/// A body that has just been added: its surfaces, with nothing loaded.
pub open spec fn fresh_body_view(name: Seq<char>, has_terrain: bool, has_water: bool) -> RenderedBodyView {
    RenderedBodyView {
        terrain: if has_terrain {
            Some((name, Map::<u16, u8>::empty()))
        } else {
            None
        },
        water: if has_water {
            Some(Map::<u16, u8>::empty())
        } else {
            None
        },
    }
}

/// The rendered bodies by name.
pub open spec fn body_map(bodies: Seq<RenderedBody>) -> Map<Seq<char>, RenderedBodyView>
    decreases bodies.len(),
{
    if bodies.len() == 0 {
        Map::empty()
    } else {
        body_map(bodies.drop_last()).insert(bodies.last().name@, body_view(bodies.last()))
    }
}

/// No two bodies share a name.
pub open spec fn unique_names(bodies: Seq<RenderedBody>) -> bool {
    forall|i: int, j: int|
        0 <= i < j < bodies.len() ==> (#[trigger] bodies[i]).name@ != (#[trigger] bodies[j]).name@
}

/// The names of the hierarchy bodies.
pub open spec fn hierarchy_names(bodies: Seq<HierarchyBody>) -> Seq<Seq<char>> {
    bodies.map_values(|b: HierarchyBody| b.name@)
}

/// The first hierarchy body named `name` (there must be one).
pub open spec fn first_named(bodies: Seq<HierarchyBody>, name: Seq<char>) -> HierarchyBody
    decreases bodies.len(),
{
    if bodies.len() == 0 || bodies[0].name@ == name {
        bodies[0]
    } else {
        first_named(bodies.drop_first(), name)
    }
}

proof fn lemma_body_map(bodies: Seq<RenderedBody>)
    requires
        unique_names(bodies),
    ensures
        forall|n: Seq<char>|
            #[trigger] body_map(bodies).contains_key(n) <==> exists|i: int|
                0 <= i < bodies.len() && (#[trigger] bodies[i]).name@ == n,
        forall|i: int|
            0 <= i < bodies.len() ==> #[trigger] body_map(bodies)[bodies[i].name@] == body_view(
                bodies[i],
            ),
    decreases bodies.len(),
{
    if bodies.len() > 0 {
        let init = bodies.drop_last();
        assert forall|i: int, j: int| 0 <= i < j < init.len() implies (#[trigger] init[i]).name@
            != (#[trigger] init[j]).name@ by {
            assert(init[i] == bodies[i] && init[j] == bodies[j]);
        }
        lemma_body_map(init);
        let last = bodies.last();
        assert(last == bodies[bodies.len() - 1]);
        assert forall|n: Seq<char>| #[trigger] body_map(bodies).contains_key(n) <==> exists|i: int|
            0 <= i < bodies.len() && (#[trigger] bodies[i]).name@ == n by {
            if body_map(init).contains_key(n) {
                let i = choose|i: int| 0 <= i < init.len() && (#[trigger] init[i]).name@ == n;
                assert(bodies[i] == init[i]);
            }
            if exists|i: int| 0 <= i < bodies.len() && (#[trigger] bodies[i]).name@ == n {
                let i = choose|i: int| 0 <= i < bodies.len() && (#[trigger] bodies[i]).name@ == n;
                if i < bodies.len() - 1 {
                    assert(init[i] == bodies[i]);
                }
            }
        }
        assert forall|i: int| 0 <= i < bodies.len() implies #[trigger] body_map(bodies)[bodies[i].name@]
            == body_view(bodies[i]) by {
            if i < bodies.len() - 1 {
                assert(init[i] == bodies[i]);
                assert(bodies[i].name@ != last.name@);
            }
        }
    }
}


/// The rendered bodies after an update with the hierarchy `closest`: the
/// bodies it names, each as it was where it was rendered, else fresh.
pub open spec fn spec_hierarchy_update(
    old: Map<Seq<char>, RenderedBodyView>,
    closest: Seq<HierarchyBody>,
) -> Map<Seq<char>, RenderedBodyView> {
    Map::new(
        |n: Seq<char>| hierarchy_names(closest).contains(n),
        |n: Seq<char>|
            if old.contains_key(n) {
                old[n]
            } else {
                let b = first_named(closest, n);
                fresh_body_view(n, b.has_terrain, b.has_water)
            },
    )
}

/// Law: updating twice with the same hierarchy changes nothing the second
/// time.
pub proof fn lemma_update_idempotent(old: Map<Seq<char>, RenderedBodyView>, closest: Seq<HierarchyBody>)
    ensures
        spec_hierarchy_update(spec_hierarchy_update(old, closest), closest) == spec_hierarchy_update(
            old,
            closest,
        ),
{
    assert(spec_hierarchy_update(spec_hierarchy_update(old, closest), closest) =~= spec_hierarchy_update(
        old,
        closest,
    ));
}

/// A body in the result of an update that has gone through the first `i`
/// hierarchy bodies: it is named among them, and it is the old body where
/// there was one, else a fresh body for the first hierarchy body of its name.
pub open spec fn result_entry_ok(
    old_map: Map<Seq<char>, RenderedBodyView>,
    closest: Seq<HierarchyBody>,
    i: int,
    b: RenderedBody,
) -> bool {
    &&& hierarchy_names(closest.take(i)).contains(b.name@)
    &&& if old_map.contains_key(b.name@) {
        old_map[b.name@] == body_view(b)
    } else {
        let f = first_named(closest, b.name@);
        body_view(b) == fresh_body_view(b.name@, f.has_terrain, f.has_water)
    }
}

proof fn lemma_hierarchy_names_take(closest: Seq<HierarchyBody>, i: int)
    requires
        0 <= i <= closest.len(),
    ensures
        forall|k: int|
            0 <= k < i ==> hierarchy_names(closest.take(i)).contains(#[trigger] closest[k].name@),
        forall|n: Seq<char>|
            #[trigger] hierarchy_names(closest.take(i)).contains(n) ==> exists|k: int|
                0 <= k < i && (#[trigger] closest[k]).name@ == n,
        i < closest.len() ==> hierarchy_names(closest.take(i + 1)).contains(closest[i].name@),
{
    assert forall|k: int| 0 <= k < i implies hierarchy_names(closest.take(i)).contains(
        #[trigger] closest[k].name@,
    ) by {
        assert(hierarchy_names(closest.take(i))[k] == closest[k].name@);
    }
    assert forall|n: Seq<char>| #[trigger] hierarchy_names(closest.take(i)).contains(n) implies exists|
        k: int,
    | 0 <= k < i && (#[trigger] closest[k]).name@ == n by {
        let k = choose|k: int|
            0 <= k < hierarchy_names(closest.take(i)).len() && hierarchy_names(closest.take(i))[k]
                == n;
        assert(hierarchy_names(closest.take(i))[k] == closest[k].name@);
    }
    if i < closest.len() {
        assert(hierarchy_names(closest.take(i + 1))[i] == closest[i].name@);
    }
}

proof fn lemma_entry_ok_grows(
    old_map: Map<Seq<char>, RenderedBodyView>,
    closest: Seq<HierarchyBody>,
    i: int,
    b: RenderedBody,
)
    requires
        0 <= i < closest.len(),
        result_entry_ok(old_map, closest, i, b),
    ensures
        result_entry_ok(old_map, closest, i + 1, b),
{
    lemma_hierarchy_names_take(closest, i);
    lemma_hierarchy_names_take(closest, i + 1);
    let k = choose|k: int| 0 <= k < i && (#[trigger] closest[k]).name@ == b.name@;
}

/// The first hierarchy body with a name is the one at position `i` when no
/// earlier body has that name.
proof fn lemma_first_named(closest: Seq<HierarchyBody>, i: int)
    requires
        0 <= i < closest.len(),
        forall|k: int| 0 <= k < i ==> (#[trigger] closest[k]).name@ != closest[i].name@,
    ensures
        first_named(closest, closest[i].name@) == closest[i],
    decreases i,
{
    if i > 0 {
        let rest = closest.drop_first();
        assert forall|k: int| 0 <= k < i - 1 implies (#[trigger] rest[k]).name@ != rest[i - 1].name@ by {
            assert(rest[k] == closest[k + 1]);
        }
        lemma_first_named(rest, i - 1);
        assert(closest[0].name@ != closest[i].name@);
    }
}


proof fn lemma_body_map_update(bodies: Seq<RenderedBody>, p: int, b: RenderedBody)
    requires
        unique_names(bodies),
        0 <= p < bodies.len(),
        b.name@ == bodies[p].name@,
    ensures
        unique_names(bodies.update(p, b)),
        body_map(bodies.update(p, b)) == body_map(bodies).insert(b.name@, body_view(b)),
{
    let nb = bodies.update(p, b);
    assert forall|i: int, j: int| 0 <= i < j < nb.len() implies (#[trigger] nb[i]).name@
        != (#[trigger] nb[j]).name@ by {
        assert(nb[i].name@ == bodies[i].name@);
        assert(nb[j].name@ == bodies[j].name@);
    }
    lemma_body_map(bodies);
    lemma_body_map(nb);
    assert forall|n: Seq<char>| #[trigger] body_map(nb).contains_key(n) <==> body_map(bodies).insert(
        b.name@,
        body_view(b),
    ).contains_key(n) by {
        if body_map(nb).contains_key(n) {
            let i = choose|i: int| 0 <= i < nb.len() && (#[trigger] nb[i]).name@ == n;
            assert(bodies[i].name@ == nb[i].name@);
        }
        if body_map(bodies).contains_key(n) {
            let i = choose|i: int| 0 <= i < bodies.len() && (#[trigger] bodies[i]).name@ == n;
            assert(bodies[i].name@ == nb[i].name@);
        }
        assert(nb[p].name@ == b.name@);
    }
    assert forall|n: Seq<char>| #[trigger] body_map(nb).contains_key(n) implies body_map(nb)[n]
        == body_map(bodies).insert(b.name@, body_view(b))[n] by {
        let i = choose|i: int| 0 <= i < nb.len() && (#[trigger] nb[i]).name@ == n;
        if i != p {
            assert(nb[i] == bodies[i]);
            assert(bodies[i].name@ != bodies[p].name@);
        }
    }
    assert(body_map(nb) =~= body_map(bodies).insert(b.name@, body_view(b)));
}

/// The segments of one body and their distances for a frame's preload pass:
/// for its terrain and for its water.
pub struct BodyPreloadPass {
    pub name: String,
    pub terrain_segments: Vec<u16>,
    pub terrain_distances: Vec<u64>,
    pub water_segments: Vec<u16>,
    pub water_distances: Vec<u64>,
}

/// The pass has a distance for each segment.
pub open spec fn pass_well_formed(p: BodyPreloadPass) -> bool {
    &&& p.terrain_distances@.len() >= p.terrain_segments@.len()
    &&& p.water_distances@.len() >= p.water_segments@.len()
}

/// The terrain plan of a pass on a body, where it has terrain.
pub open spec fn spec_terrain_plan(v: RenderedBodyView, p: BodyPreloadPass) -> Option<Seq<PreloadDetectionResult>> {
    match v.terrain {
        Some(t) => Some(spec_preload_plan(p.terrain_segments@, p.terrain_distances@, t.1)),
        None => None,
    }
}

/// The water plan of a pass on a body, where it has water.
pub open spec fn spec_water_plan(v: RenderedBodyView, p: BodyPreloadPass) -> Option<Seq<PreloadDetectionResult>> {
    match v.water {
        Some(w) => Some(spec_preload_plan(p.water_segments@, p.water_distances@, w)),
        None => None,
    }
}

/// A body after a preload pass on its terrain and water.
pub open spec fn spec_body_after_pass(v: RenderedBodyView, p: BodyPreloadPass) -> RenderedBodyView {
    RenderedBodyView {
        terrain: match v.terrain {
            Some(t) => Some((t.0, spec_apply_plan(t.1, spec_preload_plan(p.terrain_segments@, p.terrain_distances@, t.1)))),
            None => None,
        },
        water: match v.water {
            Some(w) => Some(spec_apply_plan(w, spec_preload_plan(p.water_segments@, p.water_distances@, w))),
            None => None,
        },
    }
}

/// A plan changes something.
pub open spec fn plan_changes(plan: Option<Seq<PreloadDetectionResult>>) -> bool {
    match plan {
        Some(p) => p.len() > 0,
        None => false,
    }
}

/// The rendered bodies after the preload passes, taken in order; a pass
/// for a body that is not rendered does nothing.
pub open spec fn spec_after_passes(m: Map<Seq<char>, RenderedBodyView>, passes: Seq<BodyPreloadPass>) -> Map<
    Seq<char>,
    RenderedBodyView,
>
    decreases passes.len(),
{
    if passes.len() == 0 {
        m
    } else {
        let before = spec_after_passes(m, passes.drop_last());
        let p = passes.last();
        if before.contains_key(p.name@) {
            before.insert(p.name@, spec_body_after_pass(before[p.name@], p))
        } else {
            before
        }
    }
}

/// The rendered body that the pass at position `i` finds, if its body is
/// rendered.
pub open spec fn body_before_pass(m: Map<Seq<char>, RenderedBodyView>, passes: Seq<BodyPreloadPass>, i: int) -> Option<
    RenderedBodyView,
> {
    let before = spec_after_passes(m, passes.take(i));
    if before.contains_key(passes[i].name@) {
        Some(before[passes[i].name@])
    } else {
        None
    }
}

/// The plans that the pass at position `i` makes, for terrain and water.
pub open spec fn pass_plans(m: Map<Seq<char>, RenderedBodyView>, passes: Seq<BodyPreloadPass>, i: int) -> (
    Option<Seq<PreloadDetectionResult>>,
    Option<Seq<PreloadDetectionResult>>,
) {
    match body_before_pass(m, passes, i) {
        Some(v) => (spec_terrain_plan(v, passes[i]), spec_water_plan(v, passes[i])),
        None => (None, None),
    }
}

/// The pass at position `i` changes something.
pub open spec fn pass_changes(m: Map<Seq<char>, RenderedBodyView>, passes: Seq<BodyPreloadPass>, i: int) -> bool {
    plan_changes(pass_plans(m, passes, i).0) || plan_changes(pass_plans(m, passes, i).1)
}

/// Law: a pass plans a body's terrain from the pass's terrain segments and
/// distances against the terrain's loaded levels, and its water from the
/// pass's water segments and distances against the water's loaded levels;
/// afterwards each surface holds its plan carried out. A surface the body
/// lacks gets no plan.
pub proof fn lemma_pass_plans_surfaces(
    m: Map<Seq<char>, RenderedBodyView>,
    passes: Seq<BodyPreloadPass>,
    i: int,
)
    requires
        0 <= i < passes.len(),
    ensures
        body_before_pass(m, passes, i) matches Some(v) ==> {
            &&& (v.terrain matches Some(t) ==> pass_plans(m, passes, i).0 == Some(
                spec_preload_plan(passes[i].terrain_segments@, passes[i].terrain_distances@, t.1),
            ) && spec_after_passes(m, passes.take(i + 1))[passes[i].name@].terrain == Some(
                (
                    t.0,
                    spec_apply_plan(
                        t.1,
                        spec_preload_plan(passes[i].terrain_segments@, passes[i].terrain_distances@, t.1),
                    ),
                ),
            ))
            &&& (v.terrain is None ==> pass_plans(m, passes, i).0 is None)
            &&& (v.water matches Some(w) ==> pass_plans(m, passes, i).1 == Some(
                spec_preload_plan(passes[i].water_segments@, passes[i].water_distances@, w),
            ) && spec_after_passes(m, passes.take(i + 1))[passes[i].name@].water == Some(
                spec_apply_plan(
                    w,
                    spec_preload_plan(passes[i].water_segments@, passes[i].water_distances@, w),
                ),
            ))
            &&& (v.water is None ==> pass_plans(m, passes, i).1 is None)
        },
        body_before_pass(m, passes, i) is None ==> pass_plans(m, passes, i) == (
            None::<Seq<PreloadDetectionResult>>,
            None::<Seq<PreloadDetectionResult>>,
        ) && spec_after_passes(m, passes.take(i + 1)) == spec_after_passes(m, passes.take(i)),
{
    assert(passes.take(i + 1).drop_last() == passes.take(i));
    assert(passes.take(i + 1).last() == passes[i]);
}

/// Law: what a pass plans for a body's water does not depend on the pass's
/// terrain segments or distances, and what it plans for the terrain does not
/// depend on its water segments or distances.
pub proof fn lemma_pass_surfaces_independent(v: RenderedBodyView, p: BodyPreloadPass, q: BodyPreloadPass)
    ensures
        p.water_segments@ == q.water_segments@ && p.water_distances@ == q.water_distances@
            ==> spec_water_plan(v, p) == spec_water_plan(v, q) && spec_body_after_pass(v, p).water
            == spec_body_after_pass(v, q).water,
        p.terrain_segments@ == q.terrain_segments@ && p.terrain_distances@ == q.terrain_distances@
            ==> spec_terrain_plan(v, p) == spec_terrain_plan(v, q) && spec_body_after_pass(v, p).terrain
            == spec_body_after_pass(v, q).terrain,
{
}

/// What a preload pass on one body gave: the plans whose geometry must be
/// built, for the terrain and the water where the body has them.
pub struct BodyPreloadOutcome {
    pub terrain: Option<Vec<PreloadDetectionResult>>,
    pub water: Option<Vec<PreloadDetectionResult>>,
}

/// The plans of an outcome, as sequences.
pub open spec fn outcome_plans(o: BodyPreloadOutcome) -> (Option<Seq<PreloadDetectionResult>>, Option<Seq<PreloadDetectionResult>>) {
    (
        match o.terrain {
            Some(t) => Some(t@),
            None => None,
        },
        match o.water {
            Some(w) => Some(w@),
            None => None,
        },
    )
}

/// The bodies being rendered, by name.
pub struct CelestialHierarchy {
    rendered_bodies: Vec<RenderedBody>,
}

impl View for CelestialHierarchy {
    type V = Map<Seq<char>, RenderedBodyView>;

    closed spec fn view(&self) -> Map<Seq<char>, RenderedBodyView> {
        body_map(self.rendered_bodies@)
    }
}

/// Whether `name` is the name of one of `bodies`.
fn is_named(bodies: &Vec<HierarchyBody>, name: &String) -> (found: bool)
    ensures
        found == hierarchy_names(bodies@).contains(name@),
{
    let mut i: usize = 0;
    while i < bodies.len()
        invariant
            i <= bodies@.len(),
            forall|j: int| 0 <= j < i ==> bodies@[j].name@ != name@,
        decreases bodies@.len() - i,
    {
        if bodies[i].name == *name {
            assert(hierarchy_names(bodies@)[i as int] == name@);
            return true;
        }
        i = i + 1;
    }
    assert forall|j: int| 0 <= j < hierarchy_names(bodies@).len() implies hierarchy_names(bodies@)[j]
        != name@ by {
        assert(hierarchy_names(bodies@)[j] == bodies@[j].name@);
    }
    false
}

/// The position of the rendered body named `name`, if there is one.
fn position_of(bodies: &Vec<RenderedBody>, name: &String) -> (pos: Option<usize>)
    ensures
        match pos {
            Some(p) => p < bodies@.len() && bodies@[p as int].name@ == name@,
            None => forall|j: int| 0 <= j < bodies@.len() ==> bodies@[j].name@ != name@,
        },
{
    let mut i: usize = 0;
    while i < bodies.len()
        invariant
            i <= bodies@.len(),
            forall|j: int| 0 <= j < i ==> bodies@[j].name@ != name@,
        decreases bodies@.len() - i,
    {
        if bodies[i].name == *name {
            return Some(i);
        }
        i = i + 1;
    }
    None
}

impl CelestialHierarchy {
    #[verifier::type_invariant]
    closed spec fn wf(self) -> bool {
        unique_names(self.rendered_bodies@)
    }

    /// No body rendered yet.
    pub fn new() -> (hierarchy: Self)
        ensures
            hierarchy@ == Map::<Seq<char>, RenderedBodyView>::empty(),
    {
        CelestialHierarchy { rendered_bodies: Vec::new() }
    }

    /// The rendered body named `name`, if there is one.
    pub fn get_rendered_body(&self, name: &String) -> (body: Option<&RenderedBody>)
        ensures
            body is Some <==> self@.contains_key(name@),
            body matches Some(b) ==> b.name@ == name@ && body_view(*b) == self@[name@],
    {
        proof {
            use_type_invariant(self);
            lemma_body_map(self.rendered_bodies@);
        }
        match position_of(&self.rendered_bodies, name) {
            Some(p) => Some(&self.rendered_bodies[p]),
            None => None,
        }
    }

    /// Brings the rendered bodies in line with the bodies of the hierarchy
    /// closest to the camera: adds the missing ones, keeps those still
    /// named as they are, drops the others.
    pub fn update(&mut self, closest_hierarchy: &Vec<HierarchyBody>)
        ensures
            final(self)@ == spec_hierarchy_update(old(self)@, closest_hierarchy@),
            forall|n: Seq<char>|
                #[trigger] final(self)@.contains_key(n) <==> hierarchy_names(
                    closest_hierarchy@,
                ).contains(n),
            forall|n: Seq<char>|
                #[trigger] final(self)@.contains_key(n) && old(self)@.contains_key(n)
                    ==> final(self)@[n] == old(self)@[n],
            forall|n: Seq<char>|
                #[trigger] final(self)@.contains_key(n) && !old(self)@.contains_key(n) ==> {
                    let b = first_named(closest_hierarchy@, n);
                    final(self)@[n] == fresh_body_view(n, b.has_terrain, b.has_water)
                },
    {
        proof {
            use_type_invariant(&*self);
            lemma_body_map(self.rendered_bodies@);
        }
        let ghost old_map = self@;
        let ghost closest = closest_hierarchy@;
        let mut remaining: Vec<RenderedBody> = Vec::new();
        std::mem::swap(&mut remaining, &mut self.rendered_bodies);
        let mut result: Vec<RenderedBody> = Vec::new();
        let mut i: usize = 0;
        while i < closest_hierarchy.len()
            invariant
                i <= closest.len(),
                closest == closest_hierarchy@,
                unique_names(result@),
                forall|n: Seq<char>|
                    #[trigger] old_map.contains_key(n) ==> (exists|j: int|
                        0 <= j < remaining@.len() && (#[trigger] remaining@[j]).name@ == n) || (
                    exists|j: int| 0 <= j < result@.len() && (#[trigger] result@[j]).name@ == n),
                forall|j: int|
                    0 <= j < remaining@.len() ==> old_map.contains_key(
                        (#[trigger] remaining@[j]).name@,
                    ) && old_map[remaining@[j].name@] == body_view(remaining@[j]),
                forall|j: int|
                    0 <= j < result@.len() ==> result_entry_ok(
                        old_map,
                        closest,
                        i as int,
                        #[trigger] result@[j],
                    ),
                forall|k: int|
                    0 <= k < i ==> exists|j: int|
                        0 <= j < result@.len() && (#[trigger] result@[j]).name@ == (
                        #[trigger] closest[k]).name@,
            decreases closest.len() - i,
        {
            let wanted = &closest_hierarchy[i];
            let ghost before_result = result@;
            proof {
                assert forall|j: int| 0 <= j < result@.len() implies result_entry_ok(
                    old_map,
                    closest,
                    i + 1,
                    #[trigger] result@[j],
                ) by {
                    lemma_entry_ok_grows(old_map, closest, i as int, result@[j]);
                }
            }
            match position_of(&result, &wanted.name) {
                Some(p) => {
                    assert(result@[p as int].name@ == closest[i as int].name@);
                },
                None => {
                    match position_of(&remaining, &wanted.name) {
                        Some(p) => {
                            let ghost before = remaining@;
                            let body = remaining.remove(p);
                            proof {
                                assert(body == before[p as int]);
                                assert forall|j: int| 0 <= j < remaining@.len() implies old_map.contains_key(
                                    (#[trigger] remaining@[j]).name@,
                                ) && old_map[remaining@[j].name@] == body_view(remaining@[j]) by {
                                    if j < p {
                                        assert(remaining@[j] == before[j]);
                                    } else {
                                        assert(remaining@[j] == before[j + 1]);
                                    }
                                }
                                lemma_hierarchy_names_take(closest, i as int);
                            }
                            result.push(body);
                            proof {
                                assert forall|n: Seq<char>| #[trigger] old_map.contains_key(n) implies (
                                exists|j: int|
                                    0 <= j < remaining@.len() && (#[trigger] remaining@[j]).name@
                                        == n) || (exists|j: int|
                                    0 <= j < result@.len() && (#[trigger] result@[j]).name@ == n) by {
                                    if exists|j: int|
                                        0 <= j < before.len() && (#[trigger] before[j]).name@ == n {
                                        let j = choose|j: int|
                                            0 <= j < before.len() && (#[trigger] before[j]).name@ == n;
                                        if j < p {
                                            assert(remaining@[j] == before[j]);
                                        } else if j > p {
                                            assert(remaining@[j - 1] == before[j]);
                                        } else {
                                            assert(result@[result@.len() - 1] == before[j]);
                                        }
                                    } else {
                                        let j = choose|j: int|
                                            0 <= j < before_result.len() && (#[trigger] before_result[j]).name@ == n;
                                        assert(result@[j] == before_result[j]);
                                    }
                                }
                            }
                        },
                        None => {
                            let terrain_icosphere = if wanted.has_terrain {
                                Some(TerrainIcosphere::new(wanted.name.as_str()))
                            } else {
                                None
                            };
                            let water_icosphere = if wanted.has_water {
                                Some(WaterIcosphere::new())
                            } else {
                                None
                            };
                            let body = RenderedBody {
                                name: wanted.name.clone(),
                                terrain_icosphere,
                                water_icosphere,
                            };
                            proof {
                                assert forall|k: int| 0 <= k < i implies (#[trigger] closest[k]).name@
                                    != closest[i as int].name@ by {
                                    let j = choose|j: int|
                                        0 <= j < before_result.len() && (#[trigger] before_result[j]).name@
                                            == closest[k].name@;
                                }
                                lemma_first_named(closest, i as int);
                                lemma_hierarchy_names_take(closest, i as int);
                                assert(!old_map.contains_key(wanted.name@));
                            }
                            result.push(body);
                            proof {
                                assert forall|n: Seq<char>| #[trigger] old_map.contains_key(n) implies (
                                exists|j: int|
                                    0 <= j < remaining@.len() && (#[trigger] remaining@[j]).name@
                                        == n) || (exists|j: int|
                                    0 <= j < result@.len() && (#[trigger] result@[j]).name@ == n) by {
                                    if exists|j: int|
                                        0 <= j < before_result.len() && (#[trigger] before_result[j]).name@ == n {
                                        let j = choose|j: int|
                                            0 <= j < before_result.len() && (#[trigger] before_result[j]).name@ == n;
                                        assert(result@[j] == before_result[j]);
                                    }
                                }
                            }
                        },
                    }
                    proof {
                        assert forall|x: int, y: int| 0 <= x < y < result@.len() implies (
                        #[trigger] result@[x]).name@ != (#[trigger] result@[y]).name@ by {
                            assert(result@[x] == before_result[x]);
                            if y < result@.len() - 1 {
                                assert(result@[y] == before_result[y]);
                            }
                        }
                        assert forall|j: int| 0 <= j < result@.len() implies result_entry_ok(
                            old_map,
                            closest,
                            i + 1,
                            #[trigger] result@[j],
                        ) by {
                            if j < result@.len() - 1 {
                                assert(result@[j] == before_result[j]);
                            }
                        }
                        assert(result@[result@.len() - 1].name@ == closest[i as int].name@);
                    }
                },
            }
            proof {
                assert forall|k: int| 0 <= k < i + 1 implies exists|j: int|
                    0 <= j < result@.len() && (#[trigger] result@[j]).name@ == (
                    #[trigger] closest[k]).name@ by {
                    if k < i {
                        let j = choose|j: int|
                            0 <= j < before_result.len() && (#[trigger] before_result[j]).name@
                                == closest[k].name@;
                        assert(result@[j] == before_result[j]);
                    }
                }
            }
            i = i + 1;
        }
        proof {
            lemma_body_map(result@);
            lemma_hierarchy_names_take(closest, closest.len() as int);
            assert(closest.take(closest.len() as int) =~= closest);
            assert forall|n: Seq<char>| #[trigger] body_map(result@).contains_key(n)
                <==> hierarchy_names(closest).contains(n) by {
                if hierarchy_names(closest).contains(n) {
                    let k = choose|k: int| 0 <= k < closest.len() && hierarchy_names(closest)[k] == n;
                    assert(hierarchy_names(closest)[k] == closest[k].name@);
                }
                if body_map(result@).contains_key(n) {
                    let j = choose|j: int| 0 <= j < result@.len() && (#[trigger] result@[j]).name@ == n;
                    assert(result_entry_ok(old_map, closest, closest.len() as int, result@[j]));
                }
            }
            assert(body_map(result@) =~= spec_hierarchy_update(old_map, closest));
        }
        self.rendered_bodies = result;
    }

    /// Runs a preload pass on the terrain of the body named `name`: see
    /// `TerrainIcosphere::preload`. `None` where no such body is rendered
    /// or it has no terrain.
    pub fn preload_terrain(
        &mut self,
        name: &String,
        base_segments: &Vec<u16>,
        distances: &Vec<u64>,
    ) -> (r: Option<(PreloadResult, Vec<PreloadDetectionResult>)>)
        requires
            distances@.len() >= base_segments@.len(),
        ensures
            r is Some <==> (old(self)@.contains_key(name@) && old(self)@[name@].terrain is Some),
            r is None ==> final(self)@ == old(self)@,
            r matches Some(res) ==> {
                let before = old(self)@[name@];
                let (terrain_name, loaded) = before.terrain->0;
                &&& res.1@ == spec_preload_plan(base_segments@, distances@, loaded)
                &&& final(self)@ == old(self)@.insert(
                    name@,
                    RenderedBodyView {
                        terrain: Some((terrain_name, spec_apply_plan(loaded, res.1@))),
                        water: before.water,
                    },
                )
                &&& res.0 == (if res.1@.len() > 0 {
                    PreloadResult::ChangesMade
                } else {
                    PreloadResult::NotChanged
                })
            },
    {
        proof {
            use_type_invariant(&*self);
            lemma_body_map(self.rendered_bodies@);
        }
        let mut bodies: Vec<RenderedBody> = Vec::new();
        std::mem::swap(&mut bodies, &mut self.rendered_bodies);
        let ghost old_bodies = bodies@;
        let p = match position_of(&bodies, name) {
            Some(p) => p,
            None => {
                std::mem::swap(&mut bodies, &mut self.rendered_bodies);
                return None;
            },
        };
        let body = bodies.remove(p);
        let RenderedBody { name: body_name, terrain_icosphere, water_icosphere } = body;
        let mut result = None;
        let terrain_icosphere = match terrain_icosphere {
            Some(mut t) => {
                result = Some(t.preload(base_segments, distances));
                Some(t)
            },
            None => None,
        };
        let new_body = RenderedBody { name: body_name, terrain_icosphere, water_icosphere };
        bodies.insert(p, new_body);
        proof {
            assert(bodies@ =~= old_bodies.update(p as int, new_body));
            lemma_body_map_update(old_bodies, p as int, new_body);
        }
        std::mem::swap(&mut bodies, &mut self.rendered_bodies);
        result
    }

    /// Runs a preload pass on the water of the body named `name`: see
    /// `WaterIcosphere::preload`. `None` where no such body is rendered or
    /// it has no water.
    pub fn preload_water(
        &mut self,
        name: &String,
        base_segments: &Vec<u16>,
        distances: &Vec<u64>,
    ) -> (r: Option<(PreloadResult, Vec<PreloadDetectionResult>)>)
        requires
            distances@.len() >= base_segments@.len(),
        ensures
            r is Some <==> (old(self)@.contains_key(name@) && old(self)@[name@].water is Some),
            r is None ==> final(self)@ == old(self)@,
            r matches Some(res) ==> {
                let before = old(self)@[name@];
                let loaded = before.water->0;
                &&& res.1@ == spec_preload_plan(base_segments@, distances@, loaded)
                &&& final(self)@ == old(self)@.insert(
                    name@,
                    RenderedBodyView {
                        terrain: before.terrain,
                        water: Some(spec_apply_plan(loaded, res.1@)),
                    },
                )
                &&& res.0 == (if res.1@.len() > 0 {
                    PreloadResult::ChangesMade
                } else {
                    PreloadResult::NotChanged
                })
            },
    {
        proof {
            use_type_invariant(&*self);
            lemma_body_map(self.rendered_bodies@);
        }
        let mut bodies: Vec<RenderedBody> = Vec::new();
        std::mem::swap(&mut bodies, &mut self.rendered_bodies);
        let ghost old_bodies = bodies@;
        let p = match position_of(&bodies, name) {
            Some(p) => p,
            None => {
                std::mem::swap(&mut bodies, &mut self.rendered_bodies);
                return None;
            },
        };
        let body = bodies.remove(p);
        let RenderedBody { name: body_name, terrain_icosphere, water_icosphere } = body;
        let mut result = None;
        let water_icosphere = match water_icosphere {
            Some(mut w) => {
                result = Some(w.preload(base_segments, distances));
                Some(w)
            },
            None => None,
        };
        let new_body = RenderedBody { name: body_name, terrain_icosphere, water_icosphere };
        bodies.insert(p, new_body);
        proof {
            assert(bodies@ =~= old_bodies.update(p as int, new_body));
            lemma_body_map_update(old_bodies, p as int, new_body);
        }
        std::mem::swap(&mut bodies, &mut self.rendered_bodies);
        result
    }

    /// A frame's preload pass over the rendered bodies, `passes` taken in
    /// order (the bodies nearest first): each rendered body named by a pass
    /// has its terrain and then its water planned and recorded. Returns
    /// whether anything changed, in which case the frame must be recorded
    /// again, and what each pass gave.
    pub fn preload_bodies(&mut self, passes: &Vec<BodyPreloadPass>) -> (r: (bool, Vec<BodyPreloadOutcome>))
        requires
            forall|i: int| 0 <= i < passes@.len() ==> pass_well_formed(#[trigger] passes@[i]),
        ensures
            final(self)@ == spec_after_passes(old(self)@, passes@),
            r.0 == exists|i: int| 0 <= i < passes@.len() && #[trigger] pass_changes(old(self)@, passes@, i),
            r.1@.len() == passes@.len(),
            forall|i: int|
                0 <= i < passes@.len() ==> #[trigger] outcome_plans(r.1@[i]) == pass_plans(
                    old(self)@,
                    passes@,
                    i,
                ),
    {
        let ghost start = self@;
        let mut changed = false;
        let mut outcomes: Vec<BodyPreloadOutcome> = Vec::new();
        let mut i: usize = 0;
        while i < passes.len()
            invariant
                i <= passes@.len(),
                forall|k: int| 0 <= k < passes@.len() ==> pass_well_formed(#[trigger] passes@[k]),
                self@ == spec_after_passes(start, passes@.take(i as int)),
                changed == exists|k: int| 0 <= k < i && #[trigger] pass_changes(start, passes@, k),
                outcomes@.len() == i,
                forall|k: int|
                    0 <= k < i ==> #[trigger] outcome_plans(outcomes@[k]) == pass_plans(
                        start,
                        passes@,
                        k,
                    ),
            decreases passes.len() - i,
        {
            let pass = &passes[i];
            assert(pass_well_formed(passes@[i as int]));
            let ghost before = self@;
            proof {
                assert(passes@.take(i + 1).drop_last() == passes@.take(i as int));
                assert(passes@.take(i + 1).last() == passes@[i as int]);
            }
            let t = self.preload_terrain(&pass.name, &pass.terrain_segments, &pass.terrain_distances);
            let w = self.preload_water(&pass.name, &pass.water_segments, &pass.water_distances);
            let mut this_changed = false;
            let terrain_plan = match t {
                Some((res, plan)) => {
                    if res == PreloadResult::ChangesMade {
                        this_changed = true;
                    }
                    Some(plan)
                },
                None => None,
            };
            let water_plan = match w {
                Some((res, plan)) => {
                    if res == PreloadResult::ChangesMade {
                        this_changed = true;
                    }
                    Some(plan)
                },
                None => None,
            };
            let outcome = BodyPreloadOutcome { terrain: terrain_plan, water: water_plan };
            proof {
                let n = pass.name@;
                if before.contains_key(n) {
                    let v = before[n];
                    let nv = spec_body_after_pass(v, *pass);
                    assert(self@[n].terrain == nv.terrain);
                    assert(self@[n].water == nv.water);
                    assert(self@ =~= before.insert(n, nv));
                } else {
                    assert(self@ == before);
                }
                assert(self@ == spec_after_passes(start, passes@.take(i + 1)));
            }
            let ghost outcomes_before = outcomes@;
            outcomes.push(outcome);
            if this_changed {
                changed = true;
            }
            proof {
                assert(outcome_plans(outcome) == pass_plans(start, passes@, i as int));
                assert(this_changed == pass_changes(start, passes@, i as int));
                assert forall|k: int| 0 <= k < i + 1 implies #[trigger] outcome_plans(outcomes@[k])
                    == pass_plans(start, passes@, k) by {
                    if k < i {
                        assert(outcomes@[k] == outcomes_before[k]);
                    }
                }
            }
            i = i + 1;
        }
        assert(passes@.take(i as int) == passes@);
        (changed, outcomes)
    }

}


/// Body `a` is drawn before body `b`: it is nearer to the camera, or as near
/// and listed earlier.
pub open spec fn drawn_before(distances: Seq<u64>, a: int, b: int) -> bool {
    distances[a] < distances[b] || (distances[a] == distances[b] && a < b)
}

/// `order` lists the positions of the bodies in drawing order.
pub open spec fn is_draw_order(distances: Seq<u64>, order: Seq<usize>) -> bool {
    &&& order.len() == distances.len()
    &&& forall|i: int| 0 <= i < order.len() ==> (#[trigger] order[i]) < distances.len()
    &&& forall|i: int, j: int|
        0 <= i < j < order.len() ==> drawn_before(
            distances,
            #[trigger] order[i] as int,
            #[trigger] order[j] as int,
        )
}

/// The order in which the rendered bodies are drawn, nearest to the camera
/// first: the body at position `i` is at a distance whose key is
/// `distances[i]` (keys are ordered as the distances they stand for), and
/// bodies as near as each other keep their order.
pub fn order_by_distance(distances: &Vec<u64>) -> (order: Vec<usize>)
    ensures
        is_draw_order(distances@, order@),
{
    let ghost d = distances@;
    let mut order: Vec<usize> = Vec::new();
    let mut k: usize = 0;
    while k < distances.len()
        invariant
            k <= d.len(),
            d == distances@,
            order@.len() == k,
            forall|i: int| 0 <= i < order@.len() ==> (#[trigger] order@[i]) < k,
            forall|i: int, j: int|
                0 <= i < j < order@.len() ==> drawn_before(
                    d,
                    #[trigger] order@[i] as int,
                    #[trigger] order@[j] as int,
                ),
        decreases d.len() - k,
    {
        let dk = distances[k];
        let mut p: usize = order.len();
        while p > 0 && distances[order[p - 1]] > dk
            invariant
                p <= order@.len(),
                d == distances@,
                k < d.len(),
                dk == d[k as int],
                forall|i: int| 0 <= i < order@.len() ==> (#[trigger] order@[i]) < k,
                forall|j: int| p <= j < order@.len() ==> d[(#[trigger] order@[j]) as int] > dk,
            decreases p,
        {
            p = p - 1;
        }
        let ghost before = order@;
        proof {
            assert forall|j: int| 0 <= j < p implies d[(#[trigger] before[j]) as int] <= dk by {
                assert(d[before[p - 1] as int] <= dk);
                if j < p - 1 {
                    assert(drawn_before(d, before[j] as int, before[p - 1] as int));
                }
            }
        }
        order.insert(p, k);
        proof {
            assert forall|i: int, j: int| 0 <= i < j < order@.len() implies drawn_before(
                d,
                #[trigger] order@[i] as int,
                #[trigger] order@[j] as int,
            ) by {
                if j < p {
                    assert(order@[i] == before[i] && order@[j] == before[j]);
                } else if j == p {
                    assert(order@[i] == before[i]);
                    assert(d[before[i] as int] <= dk);
                } else if i < p {
                    assert(order@[i] == before[i] && order@[j] == before[j - 1]);
                } else if i == p {
                    assert(order@[j] == before[j - 1]);
                } else {
                    assert(order@[i] == before[i - 1] && order@[j] == before[j - 1]);
                }
            }
            assert forall|i: int| 0 <= i < order@.len() implies (#[trigger] order@[i]) < k + 1 by {
                if i < p {
                    assert(order@[i] == before[i]);
                } else if i > p {
                    assert(order@[i] == before[i - 1]);
                }
            }
        }
        k = k + 1;
    }
    order
}

/// Law: a drawing order draws every body exactly once.
pub proof fn lemma_draw_order_draws_each_once(distances: Seq<u64>, order: Seq<usize>, b: int)
    requires
        is_draw_order(distances, order),
        0 <= b < distances.len(),
    ensures
        exists|i: int| 0 <= i < order.len() && order[i] == b,
        forall|i: int, j: int|
            0 <= i < order.len() && 0 <= j < order.len() && #[trigger] order[i] == #[trigger] order[j]
                ==> i == j,
{
    let n = distances.len() as int;
    let ints = order.map_values(|x: usize| x as int);
    assert forall|i: int, j: int|
        0 <= i < order.len() && 0 <= j < order.len() && #[trigger] order[i] == #[trigger] order[j]
            implies i == j by {
        if i < j {
            assert(drawn_before(distances, order[i] as int, order[j] as int));
        } else if j < i {
            assert(drawn_before(distances, order[j] as int, order[i] as int));
        }
    }
    assert(ints.no_duplicates()) by {
        assert forall|i: int, j: int| 0 <= i < ints.len() && 0 <= j < ints.len() && i != j implies ints[i]
            != ints[j] by {
            assert(ints[i] == order[i] as int && ints[j] == order[j] as int);
        }
    }
    ints.unique_seq_to_set();
    let range = vstd::set_lib::set_int_range(0, n);
    vstd::set_lib::lemma_int_range(0, n);
    assert(ints.to_set().subset_of(range)) by {
        assert forall|x: int| ints.to_set().contains(x) implies range.contains(x) by {
            let i = choose|i: int| 0 <= i < ints.len() && ints[i] == x;
            assert(order[i] < distances.len());
        }
    }
    vstd::set_lib::lemma_len_subset(ints.to_set(), range);
    vstd::set_lib::lemma_subset_equality(ints.to_set(), range);
    assert(range.contains(b));
    assert(ints.to_set().contains(b));
    let i = choose|i: int| 0 <= i < ints.len() && ints[i] == b;
    assert(order[i] == b);
}

} // verus!
