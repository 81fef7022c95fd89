use celestial::meshes::{
    texture_bindings, BindingSource,
    component_ids, newest_created, texture_slots, MaterialSlot, MaterialSources, MeshSlot,
    RenderedMeshes,
};

fn slot(id: u64, within_cutoff: bool) -> MeshSlot {
    MeshSlot { id, within_cutoff }
}

#[test]
fn creation_requests_skip_rendered_and_far_components() {
    let mut meshes: RenderedMeshes<&str> = RenderedMeshes::new();
    meshes.put(1, "one");
    let slots = vec![slot(1, true), slot(2, true), slot(3, false), slot(4, true)];
    assert_eq!(meshes.creation_requests(&slots), vec![2, 4]);
    assert_eq!(meshes.creation_requests(&vec![]), Vec::<u64>::new());
}

#[test]
fn newest_created_keeps_last_success() {
    assert_eq!(newest_created::<&str>(vec![]), None);
    assert_eq!(newest_created(vec![(1, Some("a")), (2, None)]), Some((1, "a")));
    assert_eq!(newest_created(vec![(1, Some("a")), (2, Some("b"))]), Some((2, "b")));
    assert_eq!(newest_created::<&str>(vec![(1, None), (2, None)]), None);
}

#[test]
fn first_entity_wins_law() {
    let mut meshes: RenderedMeshes<&str> = RenderedMeshes::new();
    meshes.put(9, "old");
    meshes.add_new_meshes(vec![Some((5, "first")), None, Some((5, "second")), Some((7, "seven"))]);
    assert_eq!(meshes.get(5), Some(&"first"));
    assert_eq!(meshes.get(7), Some(&"seven"));
    assert_eq!(meshes.get(9), Some(&"old"));
    assert_eq!(meshes.get(1), None);
}

#[test]
fn component_ids_flatten_in_order() {
    let entities = vec![vec![slot(3, true), slot(1, false)], vec![], vec![slot(2, true)]];
    assert_eq!(component_ids(&entities), vec![3, 1, 2]);
    assert_eq!(component_ids(&vec![]), Vec::<u64>::new());
}

#[test]
fn retain_drops_vanished_components() {
    let mut meshes: RenderedMeshes<u32> = RenderedMeshes::new();
    meshes.put(1, 10);
    meshes.put(2, 20);
    meshes.put(3, 30);
    meshes.retain_detected(&vec![3, 1, 1, 8]);
    assert_eq!(meshes.get(1), Some(&10));
    assert_eq!(meshes.get(2), None);
    assert_eq!(meshes.get(3), Some(&30));
    assert!(!meshes.contains(8));
}

#[test]
fn all_components_rendered_checks_every_slot() {
    let mut meshes: RenderedMeshes<u32> = RenderedMeshes::new();
    meshes.put(1, 10);
    assert!(meshes.all_components_rendered(&vec![vec![slot(1, true)], vec![]]));
    assert!(!meshes.all_components_rendered(&vec![vec![slot(1, true)], vec![slot(2, false)]]));
    assert!(meshes.all_components_rendered(&vec![]));
}

#[test]
fn take_and_put_round_trip() {
    let mut meshes: RenderedMeshes<u32> = RenderedMeshes::new();
    assert_eq!(meshes.take(4), None);
    meshes.put(4, 40);
    assert_eq!(meshes.take(4), Some(40));
    assert!(!meshes.contains(4));
}

#[test]
fn frame_law_on_values() {
    let mut meshes: RenderedMeshes<u32> = RenderedMeshes::new();
    meshes.put(1, 10);
    meshes.put(2, 20);
    let entities = vec![vec![slot(1, true), slot(3, true)], vec![slot(4, false)]];
    let mut new_meshes = Vec::new();
    for slots in &entities {
        let attempts: Vec<(u64, Option<u32>)> =
            meshes.creation_requests(slots).into_iter().map(|id| (id, Some(id as u32 * 10))).collect();
        new_meshes.push(newest_created(attempts));
    }
    assert_eq!(new_meshes, vec![Some((3, 30)), None]);
    meshes.add_new_meshes(new_meshes);
    meshes.retain_detected(&component_ids(&entities));
    assert_eq!(meshes.get(1), Some(&10));
    assert_eq!(meshes.get(2), None);
    assert_eq!(meshes.get(3), Some(&30));
    assert!(!meshes.contains(4));
    assert!(!meshes.all_components_rendered(&entities));
}

#[test]
fn texture_slots_in_load_order() {
    let all = MaterialSources {
        color_is_texture: true,
        roughness_is_texture: true,
        metalness_is_texture: true,
        emission_is_texture: true,
        has_normal_texture: true,
        has_bump_texture: true,
    };
    assert_eq!(
        texture_slots(all),
        vec![
            MaterialSlot::Color,
            MaterialSlot::Roughness,
            MaterialSlot::Metalness,
            MaterialSlot::Emission,
            MaterialSlot::Normal,
            MaterialSlot::Bump
        ]
    );
    let some = MaterialSources {
        color_is_texture: false,
        roughness_is_texture: true,
        metalness_is_texture: false,
        emission_is_texture: false,
        has_normal_texture: false,
        has_bump_texture: true,
    };
    assert_eq!(texture_slots(some), vec![MaterialSlot::Roughness, MaterialSlot::Bump]);
    let none = MaterialSources { roughness_is_texture: false, has_bump_texture: false, ..some };
    assert_eq!(texture_slots(none), Vec::<MaterialSlot>::new());
}

#[test]
fn texture_bindings_fall_back_to_the_empty_image() {
    let m = MaterialSources {
        color_is_texture: true,
        roughness_is_texture: false,
        metalness_is_texture: false,
        emission_is_texture: true,
        has_normal_texture: false,
        has_bump_texture: true,
    };
    assert_eq!(
        texture_bindings(m),
        vec![
            (1, BindingSource::Texture(MaterialSlot::Color)),
            (2, BindingSource::Empty),
            (3, BindingSource::Empty),
            (4, BindingSource::Texture(MaterialSlot::Emission)),
            (5, BindingSource::Empty),
            (6, BindingSource::Texture(MaterialSlot::Bump)),
        ]
    );
}
