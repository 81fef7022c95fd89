//! The steps of recording a frame's drawing commands.
//!
//! The command buffer is begun and the buffers staged for the device are
//! copied (the common buffer, each mesh's buffer, the output and the cloud
//! buffers); the meshes are drawn; then each rendered body, nearest first, is
//! drawn into cleared targets (clouds, its terrain and water where it has
//! them, its atmosphere) and merged into the image; the user interface and
//! the final output come last, and the command buffer is ended. The commands
//! of each step are issued on the graphics device by the caller.
use vstd::prelude::*;

verus! {

broadcast use vstd::seq_lib::group_seq_properties;

/// One step of recording a frame.
#[derive(PartialEq, Eq, Structural, Clone, Copy, Debug)]
pub enum RecordStep {
    /// Begin the command buffer.
    BeginCommands,
    /// Copy the common buffer from its staging buffer.
    CopyCommonBuffer,
    /// Copy the buffer of the mesh at this position from its staging buffer.
    CopyMeshBuffer(usize),
    /// Copy the output buffer from its staging buffer.
    CopyOutputBuffer,
    /// Copy the low-frequency cloud buffer from its staging buffer.
    CopyLowFreqCloudBuffer,
    /// Copy the high-frequency cloud buffer from its staging buffer.
    CopyHighFreqCloudBuffer,
    /// Draw the meshes.
    Meshes,
    /// Copy the body's data to the device and clear the targets it is drawn into.
    ClearBodyTargets(usize),
    /// Generate the clouds.
    Clouds,
    /// Draw the body's terrain.
    Terrain(usize),
    /// Draw the body's water.
    Water(usize),
    /// Draw the body's atmosphere.
    Atmosphere(usize),
    /// Merge what was drawn for the body into the image.
    Merge(usize),
    /// Draw the user interface.
    Ui,
    /// Write the final output.
    Output,
    /// End the command buffer.
    EndCommands,
}

/// Which surfaces a rendered body has.
#[derive(PartialEq, Eq, Structural, Clone, Copy, Debug)]
pub struct BodySurfaces {
    pub has_terrain: bool,
    pub has_water: bool,
}

/// The steps for the body at position `i`.
pub open spec fn spec_body_steps(i: usize, surfaces: BodySurfaces) -> Seq<RecordStep> {
    seq![RecordStep::ClearBodyTargets(i), RecordStep::Clouds] + (if surfaces.has_terrain {
        seq![RecordStep::Terrain(i)]
    } else {
        Seq::empty()
    }) + (if surfaces.has_water {
        seq![RecordStep::Water(i)]
    } else {
        Seq::empty()
    }) + seq![RecordStep::Atmosphere(i), RecordStep::Merge(i)]
}

/// The steps for the bodies, taken in `order`.
pub open spec fn spec_bodies_steps(bodies: Seq<BodySurfaces>, order: Seq<usize>) -> Seq<RecordStep>
    decreases order.len(),
{
    if order.len() == 0 {
        Seq::empty()
    } else {
        spec_bodies_steps(bodies, order.drop_last()) + spec_body_steps(
            order.last(),
            bodies[order.last() as int],
        )
    }
}

/// The copies of the buffers of `mesh_count` meshes, in their order.
pub open spec fn spec_mesh_copies(mesh_count: nat) -> Seq<RecordStep> {
    Seq::new(mesh_count, |i: int| RecordStep::CopyMeshBuffer(i as usize))
}

/// The steps before any body: beginning, the staging copies, the meshes.
pub open spec fn spec_frame_start(mesh_count: nat) -> Seq<RecordStep> {
    seq![RecordStep::BeginCommands, RecordStep::CopyCommonBuffer] + spec_mesh_copies(mesh_count)
        + seq![
        RecordStep::CopyOutputBuffer,
        RecordStep::CopyLowFreqCloudBuffer,
        RecordStep::CopyHighFreqCloudBuffer,
        RecordStep::Meshes,
    ]
}

/// The steps after the last body.
pub open spec fn spec_frame_end() -> Seq<RecordStep> {
    seq![RecordStep::Ui, RecordStep::Output, RecordStep::EndCommands]
}

/// The steps of recording a frame with `mesh_count` meshes whose bodies are
/// drawn in `order`.
pub open spec fn spec_record_steps(mesh_count: nat, bodies: Seq<BodySurfaces>, order: Seq<usize>) -> Seq<
    RecordStep,
> {
    spec_frame_start(mesh_count) + spec_bodies_steps(bodies, order) + spec_frame_end()
}

/// The steps of recording a frame: there are `mesh_count` meshes,
/// `bodies[i]` says which surfaces the body at position `i` has, and `order`
/// is the order in which the bodies are drawn.
pub fn record_steps(mesh_count: usize, bodies: &Vec<BodySurfaces>, order: &Vec<usize>) -> (steps: Vec<
    RecordStep,
>)
    requires
        forall|k: int| 0 <= k < order@.len() ==> (#[trigger] order@[k]) < bodies@.len(),
    ensures
        steps@ == spec_record_steps(mesh_count as nat, bodies@, order@),
{
    let mut steps: Vec<RecordStep> = Vec::new();
    steps.push(RecordStep::BeginCommands);
    steps.push(RecordStep::CopyCommonBuffer);
    let mut m: usize = 0;
    while m < mesh_count
        invariant
            m <= mesh_count,
            steps@ == seq![RecordStep::BeginCommands, RecordStep::CopyCommonBuffer] + spec_mesh_copies(
                m as nat,
            ),
        decreases mesh_count - m,
    {
        steps.push(RecordStep::CopyMeshBuffer(m));
        assert(spec_mesh_copies((m + 1) as nat) == spec_mesh_copies(m as nat).push(
            RecordStep::CopyMeshBuffer(m),
        ));
        m = m + 1;
    }
    steps.push(RecordStep::CopyOutputBuffer);
    steps.push(RecordStep::CopyLowFreqCloudBuffer);
    steps.push(RecordStep::CopyHighFreqCloudBuffer);
    steps.push(RecordStep::Meshes);
    assert(steps@ == spec_frame_start(mesh_count as nat));
    let mut k: usize = 0;
    assert(order@.take(0) == Seq::<usize>::empty());
    while k < order.len()
        invariant
            k <= order@.len(),
            forall|j: int| 0 <= j < order@.len() ==> (#[trigger] order@[j]) < bodies@.len(),
            steps@ == spec_frame_start(mesh_count as nat) + spec_bodies_steps(
                bodies@,
                order@.take(k as int),
            ),
        decreases order.len() - k,
    {
        let i = order[k];
        let surfaces = bodies[i];
        let ghost before = steps@;
        steps.push(RecordStep::ClearBodyTargets(i));
        steps.push(RecordStep::Clouds);
        if surfaces.has_terrain {
            steps.push(RecordStep::Terrain(i));
        }
        if surfaces.has_water {
            steps.push(RecordStep::Water(i));
        }
        steps.push(RecordStep::Atmosphere(i));
        steps.push(RecordStep::Merge(i));
        proof {
            assert(order@.take(k + 1).drop_last() == order@.take(k as int));
            assert(steps@ == before + spec_body_steps(i, surfaces));
        }
        k = k + 1;
    }
    assert(order@.take(k as int) == order@);
    steps.push(RecordStep::Ui);
    steps.push(RecordStep::Output);
    steps.push(RecordStep::EndCommands);
    steps
}

/// The steps of one body hold a step for body `b` only if it is that body.
proof fn lemma_body_steps_contains(i: usize, surfaces: BodySurfaces, b: usize)
    ensures
        spec_body_steps(i, surfaces).contains(RecordStep::Merge(b)) <==> i == b,
        spec_body_steps(i, surfaces).contains(RecordStep::Terrain(b)) <==> i == b && surfaces.has_terrain,
        spec_body_steps(i, surfaces).contains(RecordStep::Water(b)) <==> i == b && surfaces.has_water,
{
    let s = spec_body_steps(i, surfaces);
    let t: Seq<RecordStep> = if surfaces.has_terrain {
        seq![RecordStep::Terrain(i)]
    } else {
        Seq::empty()
    };
    let w: Seq<RecordStep> = if surfaces.has_water {
        seq![RecordStep::Water(i)]
    } else {
        Seq::empty()
    };
    let head = seq![RecordStep::ClearBodyTargets(i), RecordStep::Clouds];
    let tail = seq![RecordStep::Atmosphere(i), RecordStep::Merge(i)];
    assert(s == head + t + w + tail);
    let n = s.len() as int;
    assert(s[n - 1] == RecordStep::Merge(i));
    if surfaces.has_terrain {
        assert(s[2] == RecordStep::Terrain(i));
    }
    if surfaces.has_water {
        assert(s[2 + t.len() as int] == RecordStep::Water(i));
    }
    assert forall|k: int| 0 <= k < n implies match #[trigger] s[k] {
        RecordStep::Merge(x) => x == i,
        RecordStep::Terrain(x) => x == i && surfaces.has_terrain,
        RecordStep::Water(x) => x == i && surfaces.has_water,
        _ => true,
    } by {
        if k < 2 {
            assert(s[k] == head[k]);
        } else if k < 2 + t.len() {
            assert(s[k] == t[k - 2]);
        } else if k < 2 + t.len() + w.len() {
            assert(s[k] == w[k - 2 - t.len()]);
        } else {
            assert(s[k] == tail[k - 2 - t.len() - w.len()]);
        }
    }
}

/// Law: in a frame's steps, a body is merged into the image exactly when it
/// is in the drawing order, and its terrain and water are drawn exactly when
/// it is and has them.
pub proof fn lemma_record_steps_cover_bodies(
    mesh_count: nat,
    bodies: Seq<BodySurfaces>,
    order: Seq<usize>,
    b: usize,
)
    requires
        forall|k: int| 0 <= k < order.len() ==> (#[trigger] order[k]) < bodies.len(),
    ensures
        spec_record_steps(mesh_count, bodies, order).contains(RecordStep::Merge(b)) <==> order.contains(b),
        spec_record_steps(mesh_count, bodies, order).contains(RecordStep::Terrain(b)) <==> order.contains(b)
            && bodies[b as int].has_terrain,
        spec_record_steps(mesh_count, bodies, order).contains(RecordStep::Water(b)) <==> order.contains(b)
            && bodies[b as int].has_water,
{
    let inner = spec_bodies_steps(bodies, order);
    let all = spec_record_steps(mesh_count, bodies, order);
    let pre = spec_frame_start(mesh_count);
    let post = spec_frame_end();
    assert(all == pre + inner + post);
    let head = seq![RecordStep::BeginCommands, RecordStep::CopyCommonBuffer];
    let copies = spec_mesh_copies(mesh_count);
    let tail = seq![
        RecordStep::CopyOutputBuffer,
        RecordStep::CopyLowFreqCloudBuffer,
        RecordStep::CopyHighFreqCloudBuffer,
        RecordStep::Meshes,
    ];
    assert(pre == head + copies + tail);
    assert forall|k: int| 0 <= k < pre.len() implies !(#[trigger] pre[k] is Merge || pre[k] is Terrain
        || pre[k] is Water) by {
        if k < 2 {
            assert(pre[k] == head[k]);
        } else if k < 2 + copies.len() {
            assert(pre[k] == copies[k - 2]);
        } else {
            assert(pre[k] == tail[k - 2 - copies.len()]);
        }
    }
    assert forall|x: RecordStep|
        (x is Merge || x is Terrain || x is Water) implies (#[trigger] all.contains(x) <==> inner.contains(x)) by {
        if all.contains(x) {
            let k = choose|k: int| 0 <= k < all.len() && all[k] == x;
            if k < pre.len() {
                assert(all[k] == pre[k]);
            } else if k < pre.len() + inner.len() {
                assert(all[k] == inner[k - pre.len()]);
            } else {
                assert(all[k] == post[k - pre.len() - inner.len()]);
            }
        }
        if inner.contains(x) {
            let k = choose|k: int| 0 <= k < inner.len() && inner[k] == x;
            assert(all[k + pre.len()] == inner[k]);
        }
    }
    lemma_bodies_steps_cover(bodies, order, b);
    assert(all.contains(RecordStep::Merge(b)) <==> inner.contains(RecordStep::Merge(b)));
    assert(all.contains(RecordStep::Terrain(b)) <==> inner.contains(RecordStep::Terrain(b)));
    assert(all.contains(RecordStep::Water(b)) <==> inner.contains(RecordStep::Water(b)));
}

proof fn lemma_bodies_steps_cover(bodies: Seq<BodySurfaces>, order: Seq<usize>, b: usize)
    requires
        forall|k: int| 0 <= k < order.len() ==> (#[trigger] order[k]) < bodies.len(),
    ensures
        spec_bodies_steps(bodies, order).contains(RecordStep::Merge(b)) <==> order.contains(b),
        spec_bodies_steps(bodies, order).contains(RecordStep::Terrain(b)) <==> order.contains(b)
            && bodies[b as int].has_terrain,
        spec_bodies_steps(bodies, order).contains(RecordStep::Water(b)) <==> order.contains(b)
            && bodies[b as int].has_water,
    decreases order.len(),
{
    if order.len() > 0 {
        let init = order.drop_last();
        let last = order.last();
        assert forall|k: int| 0 <= k < init.len() implies (#[trigger] init[k]) < bodies.len() by {
            assert(init[k] == order[k]);
        }
        lemma_bodies_steps_cover(bodies, init, b);
        lemma_body_steps_contains(last, bodies[last as int], b);
        let a = spec_bodies_steps(bodies, init);
        let c = spec_body_steps(last, bodies[last as int]);
        assert(spec_bodies_steps(bodies, order) == a + c);
        assert forall|x: RecordStep| #[trigger] (a + c).contains(x) <==> a.contains(x) || c.contains(x) by {
            if (a + c).contains(x) {
                let k = choose|k: int| 0 <= k < (a + c).len() && (a + c)[k] == x;
                if k < a.len() {
                    assert(a[k] == x);
                } else {
                    assert(c[k - a.len()] == x);
                }
            }
            if a.contains(x) {
                let k = choose|k: int| 0 <= k < a.len() && a[k] == x;
                assert((a + c)[k] == x);
            }
            if c.contains(x) {
                let k = choose|k: int| 0 <= k < c.len() && c[k] == x;
                assert((a + c)[k + a.len()] == x);
            }
        }
        assert(order == init.push(last));
        assert(order.contains(b) <==> init.contains(b) || last == b) by {
            if order.contains(b) {
                let k = choose|k: int| 0 <= k < order.len() && order[k] == b;
                if k < init.len() {
                    assert(init[k] == b);
                }
            }
            if init.contains(b) {
                let k = choose|k: int| 0 <= k < init.len() && init[k] == b;
                assert(order[k] == b);
            }
            if last == b {
                assert(order[order.len() - 1] == b);
            }
        }
    }
}

} // verus!
