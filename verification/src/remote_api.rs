//! The remote command protocol.
//!
//! A remote client sends messages named `command.<name>` with a text
//! payload, and gets back a reply: the handler's output (or `{}` when it has
//! none) on success, `{"error":<message>}` on failure. This module decides
//! which handler a message goes to, reads and writes the payloads that are
//! plain values, and builds the replies. The handlers themselves work on the
//! game world, which is outside this library.
use vstd::prelude::*;
use std::collections::VecDeque;
use crate::text::{chars_of, parse_u64, push_decimal, push_str, spec_decimal, spec_parse_unsigned, string_of};

verus! {

broadcast use vstd::seq_lib::group_seq_properties;

/// Whether the characters `n` spell out `s`.
pub fn chars_equal_str(n: &Vec<char>, s: &str) -> (equal: bool)
    ensures
        equal == (n@ == s@),
{
    let m = chars_of(s);
    if n.len() != m.len() {
        return false;
    }
    let mut i: usize = 0;
    while i < n.len()
        invariant
            i <= n@.len(),
            n@.len() == m@.len(),
            m@ == s@,
            forall|j: int| 0 <= j < i ==> n@[j] == m@[j],
        decreases n@.len() - i,
    {
        if n[i] != m[i] {
            return false;
        }
        i = i + 1;
    }
    assert(n@ =~= m@);
    true
}

/// A command of the remote protocol: which handler a message goes to.
#[derive(PartialEq, Eq, Structural, Clone, Copy, Debug)]
pub enum ApiCommand {
    DeserializeWorld,
    AddEntity,
    RemoveEntity,
    GetEntity,
    ReplaceEntityComponents,
    FindAllEntitiesByComponents,
    RaycastRealPhysics,
    ResetWorld,
    SerializeWorld,
    GetAllCelestialBodyNames,
    GetCelestialBodyPosition,
    GetCelestialBodyDefinition,
    GetCelestialBodySurfaceVelocity,
    GetCelestialBodyOrientation,
    GetCelestialBodyParent,
    GetCelestialBodySatellites,
    GetAltitudeOverCelestialBody,
    GetClosestCelestialBody,
    GetGravityFlux,
    GetUniverseClock,
    SetUniverseClock,
    ClearUniverseClock,
    GetFirstPersonCameraControl,
    SetFirstPersonCameraControl,
    ClearFirstPersonCameraControl,
    GetThirdPersonOrbitCameraControl,
    SetThirdPersonOrbitCameraControl,
    ClearThirdPersonOrbitCameraControl,
    GetThirdPersonStaticCameraControl,
    SetThirdPersonStaticCameraControl,
    ClearThirdPersonStaticCameraControl,
    GetTransform,
    SetTransform,
    ClearTransform,
    GetRealPhysics,
    SetRealPhysics,
    ClearRealPhysics,
    GetSimplePhysics,
    SetSimplePhysics,
    ClearSimplePhysics,
    GetGlueToCelestialBody,
    SetGlueToCelestialBody,
    ClearGlueToCelestialBody,
    GetShipControl,
    SetShipControl,
    ClearShipControl,
    GetUiColor,
    SetUiColor,
    ClearUiColor,
    GetUiHoverColor,
    SetUiHoverColor,
    ClearUiHoverColor,
    GetUiBox,
    SetUiBox,
    ClearUiBox,
    GetUiHoverCursor,
    SetUiHoverCursor,
    ClearUiHoverCursor,
    GetUiTexture,
    SetUiTexture,
    ClearUiTexture,
    GetUiText,
    SetUiText,
    ClearUiText,
    GetSetPhysicsKinematics,
    AddSetPhysicsKinematics,
    RemoveSetPhysicsKinematics,
    GetMesh,
    AddMesh,
    RemoveMesh,
    GetCameraFocus,
    SetCameraFocus,
    GetIsGroundCollider,
    SetIsGroundCollider,
    GetIsCelestialBodySurface,
    SetIsCelestialBodySurface,
    GetIsPlayer,
    SetIsPlayer,
    GetControlFocus,
    SetControlFocus,
    GetUiIsRaycastable,
    SetUiIsRaycastable,
    GetUiRequireFreeCursor,
    SetUiRequireFreeCursor,
}

/// The command that a message name selects, if any.
pub open spec fn spec_command_for_name(name: Seq<char>) -> Option<ApiCommand> {
    if name == "command.deserialize_world"@ {
        Some(ApiCommand::DeserializeWorld)
    } else if name == "command.add_entity"@ {
        Some(ApiCommand::AddEntity)
    } else if name == "command.remove_entity"@ {
        Some(ApiCommand::RemoveEntity)
    } else if name == "command.get_entity"@ {
        Some(ApiCommand::GetEntity)
    } else if name == "command.replace_entity_components"@ {
        Some(ApiCommand::ReplaceEntityComponents)
    } else if name == "command.find_all_entities_by_components"@ {
        Some(ApiCommand::FindAllEntitiesByComponents)
    } else if name == "command.get_debug_real_physics_wireframe"@ {
        Some(ApiCommand::FindAllEntitiesByComponents)
    } else if name == "command.raycast_real_physics"@ {
        Some(ApiCommand::RaycastRealPhysics)
    } else if name == "command.reset_world"@ {
        Some(ApiCommand::ResetWorld)
    } else if name == "command.serialize_world"@ {
        Some(ApiCommand::SerializeWorld)
    } else if name == "command.get_all_celestial_body_names"@ {
        Some(ApiCommand::GetAllCelestialBodyNames)
    } else if name == "command.get_celestial_body_position"@ {
        Some(ApiCommand::GetCelestialBodyPosition)
    } else if name == "command.get_celestial_body_definition"@ {
        Some(ApiCommand::GetCelestialBodyDefinition)
    } else if name == "command.get_celestial_body_surface_velocity"@ {
        Some(ApiCommand::GetCelestialBodySurfaceVelocity)
    } else if name == "command.get_celestial_body_orientation"@ {
        Some(ApiCommand::GetCelestialBodyOrientation)
    } else if name == "command.get_celestial_body_parent"@ {
        Some(ApiCommand::GetCelestialBodyParent)
    } else if name == "command.get_celestial_body_satellites"@ {
        Some(ApiCommand::GetCelestialBodySatellites)
    } else if name == "command.get_altitude_over_celestial_body"@ {
        Some(ApiCommand::GetAltitudeOverCelestialBody)
    } else if name == "command.get_closest_celestial_body"@ {
        Some(ApiCommand::GetClosestCelestialBody)
    } else if name == "command.get_gravity_flux"@ {
        Some(ApiCommand::GetGravityFlux)
    } else if name == "command.get_universe_clock"@ {
        Some(ApiCommand::GetUniverseClock)
    } else if name == "command.set_universe_clock"@ {
        Some(ApiCommand::SetUniverseClock)
    } else if name == "command.clear_universe_clock"@ {
        Some(ApiCommand::ClearUniverseClock)
    } else if name == "command.get_first_person_camera_control"@ {
        Some(ApiCommand::GetFirstPersonCameraControl)
    } else if name == "command.set_first_person_camera_control"@ {
        Some(ApiCommand::SetFirstPersonCameraControl)
    } else if name == "command.clear_first_person_camera_control"@ {
        Some(ApiCommand::ClearFirstPersonCameraControl)
    } else if name == "command.get_third_person_orbit_camera_control"@ {
        Some(ApiCommand::GetThirdPersonOrbitCameraControl)
    } else if name == "command.set_third_person_orbit_camera_control"@ {
        Some(ApiCommand::SetThirdPersonOrbitCameraControl)
    } else if name == "command.clear_third_person_orbit_camera_control"@ {
        Some(ApiCommand::ClearThirdPersonOrbitCameraControl)
    } else if name == "command.get_third_person_static_camera_control"@ {
        Some(ApiCommand::GetThirdPersonStaticCameraControl)
    } else if name == "command.set_third_person_static_camera_control"@ {
        Some(ApiCommand::SetThirdPersonStaticCameraControl)
    } else if name == "command.clear_third_person_static_camera_control"@ {
        Some(ApiCommand::ClearThirdPersonStaticCameraControl)
    } else if name == "command.get_transform"@ {
        Some(ApiCommand::GetTransform)
    } else if name == "command.set_transform"@ {
        Some(ApiCommand::SetTransform)
    } else if name == "command.clear_transform"@ {
        Some(ApiCommand::ClearTransform)
    } else if name == "command.get_real_physics"@ {
        Some(ApiCommand::GetRealPhysics)
    } else if name == "command.set_real_physics"@ {
        Some(ApiCommand::SetRealPhysics)
    } else if name == "command.clear_real_physics"@ {
        Some(ApiCommand::ClearRealPhysics)
    } else if name == "command.get_simple_physics"@ {
        Some(ApiCommand::GetSimplePhysics)
    } else if name == "command.set_simple_physics"@ {
        Some(ApiCommand::SetSimplePhysics)
    } else if name == "command.clear_simple_physics"@ {
        Some(ApiCommand::ClearSimplePhysics)
    } else if name == "command.get_glue_to_celestial_body"@ {
        Some(ApiCommand::GetGlueToCelestialBody)
    } else if name == "command.set_glue_to_celestial_body"@ {
        Some(ApiCommand::SetGlueToCelestialBody)
    } else if name == "command.clear_glue_to_celestial_body"@ {
        Some(ApiCommand::ClearGlueToCelestialBody)
    } else if name == "command.get_ship_control"@ {
        Some(ApiCommand::GetShipControl)
    } else if name == "command.set_ship_control"@ {
        Some(ApiCommand::SetShipControl)
    } else if name == "command.clear_ship_control"@ {
        Some(ApiCommand::ClearShipControl)
    } else if name == "command.get_ui_color"@ {
        Some(ApiCommand::GetUiColor)
    } else if name == "command.set_ui_color"@ {
        Some(ApiCommand::SetUiColor)
    } else if name == "command.clear_ui_color"@ {
        Some(ApiCommand::ClearUiColor)
    } else if name == "command.get_ui_hover_color"@ {
        Some(ApiCommand::GetUiHoverColor)
    } else if name == "command.set_ui_hover_color"@ {
        Some(ApiCommand::SetUiHoverColor)
    } else if name == "command.clear_ui_hover_color"@ {
        Some(ApiCommand::ClearUiHoverColor)
    } else if name == "command.get_ui_box"@ {
        Some(ApiCommand::GetUiBox)
    } else if name == "command.set_ui_box"@ {
        Some(ApiCommand::SetUiBox)
    } else if name == "command.clear_ui_box"@ {
        Some(ApiCommand::ClearUiBox)
    } else if name == "command.get_ui_hover_cursor"@ {
        Some(ApiCommand::GetUiHoverCursor)
    } else if name == "command.set_ui_hover_cursor"@ {
        Some(ApiCommand::SetUiHoverCursor)
    } else if name == "command.clear_ui_hover_cursor"@ {
        Some(ApiCommand::ClearUiHoverCursor)
    } else if name == "command.get_ui_texture"@ {
        Some(ApiCommand::GetUiTexture)
    } else if name == "command.set_ui_texture"@ {
        Some(ApiCommand::SetUiTexture)
    } else if name == "command.clear_ui_texture"@ {
        Some(ApiCommand::ClearUiTexture)
    } else if name == "command.get_ui_text"@ {
        Some(ApiCommand::GetUiText)
    } else if name == "command.set_ui_text"@ {
        Some(ApiCommand::SetUiText)
    } else if name == "command.clear_ui_text"@ {
        Some(ApiCommand::ClearUiText)
    } else if name == "command.get_set_physics_kinematics"@ {
        Some(ApiCommand::GetSetPhysicsKinematics)
    } else if name == "command.add_set_physics_kinematics"@ {
        Some(ApiCommand::AddSetPhysicsKinematics)
    } else if name == "command.remove_set_physics_kinematics"@ {
        Some(ApiCommand::RemoveSetPhysicsKinematics)
    } else if name == "command.get_mesh"@ {
        Some(ApiCommand::GetMesh)
    } else if name == "command.add_mesh"@ {
        Some(ApiCommand::AddMesh)
    } else if name == "command.remove_mesh"@ {
        Some(ApiCommand::RemoveMesh)
    } else if name == "command.get_camera_focus"@ {
        Some(ApiCommand::GetCameraFocus)
    } else if name == "command.set_camera_focus"@ {
        Some(ApiCommand::SetCameraFocus)
    } else if name == "command.get_is_ground_collider"@ {
        Some(ApiCommand::GetIsGroundCollider)
    } else if name == "command.set_is_ground_collider"@ {
        Some(ApiCommand::SetIsGroundCollider)
    } else if name == "command.get_is_celestial_body_surface"@ {
        Some(ApiCommand::GetIsCelestialBodySurface)
    } else if name == "command.set_is_celestial_body_surface"@ {
        Some(ApiCommand::SetIsCelestialBodySurface)
    } else if name == "command.get_is_player"@ {
        Some(ApiCommand::GetIsPlayer)
    } else if name == "command.set_is_player"@ {
        Some(ApiCommand::SetIsPlayer)
    } else if name == "command.get_control_focus"@ {
        Some(ApiCommand::GetControlFocus)
    } else if name == "command.set_control_focus"@ {
        Some(ApiCommand::SetControlFocus)
    } else if name == "command.get_ui_is_raycastable"@ {
        Some(ApiCommand::GetUiIsRaycastable)
    } else if name == "command.set_ui_is_raycastable"@ {
        Some(ApiCommand::SetUiIsRaycastable)
    } else if name == "command.get_ui_require_free_cursor"@ {
        Some(ApiCommand::GetUiRequireFreeCursor)
    } else if name == "command.set_ui_require_free_cursor"@ {
        Some(ApiCommand::SetUiRequireFreeCursor)
    } else {
        None
    }
}

/// The message name of each command: `command.` followed by the name of
/// its handler.
pub open spec fn command_name(c: ApiCommand) -> Seq<char> {
    match c {
        ApiCommand::DeserializeWorld => "command.deserialize_world"@,
        ApiCommand::AddEntity => "command.add_entity"@,
        ApiCommand::RemoveEntity => "command.remove_entity"@,
        ApiCommand::GetEntity => "command.get_entity"@,
        ApiCommand::ReplaceEntityComponents => "command.replace_entity_components"@,
        ApiCommand::FindAllEntitiesByComponents => "command.find_all_entities_by_components"@,
        ApiCommand::RaycastRealPhysics => "command.raycast_real_physics"@,
        ApiCommand::ResetWorld => "command.reset_world"@,
        ApiCommand::SerializeWorld => "command.serialize_world"@,
        ApiCommand::GetAllCelestialBodyNames => "command.get_all_celestial_body_names"@,
        ApiCommand::GetCelestialBodyPosition => "command.get_celestial_body_position"@,
        ApiCommand::GetCelestialBodyDefinition => "command.get_celestial_body_definition"@,
        ApiCommand::GetCelestialBodySurfaceVelocity => "command.get_celestial_body_surface_velocity"@,
        ApiCommand::GetCelestialBodyOrientation => "command.get_celestial_body_orientation"@,
        ApiCommand::GetCelestialBodyParent => "command.get_celestial_body_parent"@,
        ApiCommand::GetCelestialBodySatellites => "command.get_celestial_body_satellites"@,
        ApiCommand::GetAltitudeOverCelestialBody => "command.get_altitude_over_celestial_body"@,
        ApiCommand::GetClosestCelestialBody => "command.get_closest_celestial_body"@,
        ApiCommand::GetGravityFlux => "command.get_gravity_flux"@,
        ApiCommand::GetUniverseClock => "command.get_universe_clock"@,
        ApiCommand::SetUniverseClock => "command.set_universe_clock"@,
        ApiCommand::ClearUniverseClock => "command.clear_universe_clock"@,
        ApiCommand::GetFirstPersonCameraControl => "command.get_first_person_camera_control"@,
        ApiCommand::SetFirstPersonCameraControl => "command.set_first_person_camera_control"@,
        ApiCommand::ClearFirstPersonCameraControl => "command.clear_first_person_camera_control"@,
        ApiCommand::GetThirdPersonOrbitCameraControl => "command.get_third_person_orbit_camera_control"@,
        ApiCommand::SetThirdPersonOrbitCameraControl => "command.set_third_person_orbit_camera_control"@,
        ApiCommand::ClearThirdPersonOrbitCameraControl => "command.clear_third_person_orbit_camera_control"@,
        ApiCommand::GetThirdPersonStaticCameraControl => "command.get_third_person_static_camera_control"@,
        ApiCommand::SetThirdPersonStaticCameraControl => "command.set_third_person_static_camera_control"@,
        ApiCommand::ClearThirdPersonStaticCameraControl => "command.clear_third_person_static_camera_control"@,
        ApiCommand::GetTransform => "command.get_transform"@,
        ApiCommand::SetTransform => "command.set_transform"@,
        ApiCommand::ClearTransform => "command.clear_transform"@,
        ApiCommand::GetRealPhysics => "command.get_real_physics"@,
        ApiCommand::SetRealPhysics => "command.set_real_physics"@,
        ApiCommand::ClearRealPhysics => "command.clear_real_physics"@,
        ApiCommand::GetSimplePhysics => "command.get_simple_physics"@,
        ApiCommand::SetSimplePhysics => "command.set_simple_physics"@,
        ApiCommand::ClearSimplePhysics => "command.clear_simple_physics"@,
        ApiCommand::GetGlueToCelestialBody => "command.get_glue_to_celestial_body"@,
        ApiCommand::SetGlueToCelestialBody => "command.set_glue_to_celestial_body"@,
        ApiCommand::ClearGlueToCelestialBody => "command.clear_glue_to_celestial_body"@,
        ApiCommand::GetShipControl => "command.get_ship_control"@,
        ApiCommand::SetShipControl => "command.set_ship_control"@,
        ApiCommand::ClearShipControl => "command.clear_ship_control"@,
        ApiCommand::GetUiColor => "command.get_ui_color"@,
        ApiCommand::SetUiColor => "command.set_ui_color"@,
        ApiCommand::ClearUiColor => "command.clear_ui_color"@,
        ApiCommand::GetUiHoverColor => "command.get_ui_hover_color"@,
        ApiCommand::SetUiHoverColor => "command.set_ui_hover_color"@,
        ApiCommand::ClearUiHoverColor => "command.clear_ui_hover_color"@,
        ApiCommand::GetUiBox => "command.get_ui_box"@,
        ApiCommand::SetUiBox => "command.set_ui_box"@,
        ApiCommand::ClearUiBox => "command.clear_ui_box"@,
        ApiCommand::GetUiHoverCursor => "command.get_ui_hover_cursor"@,
        ApiCommand::SetUiHoverCursor => "command.set_ui_hover_cursor"@,
        ApiCommand::ClearUiHoverCursor => "command.clear_ui_hover_cursor"@,
        ApiCommand::GetUiTexture => "command.get_ui_texture"@,
        ApiCommand::SetUiTexture => "command.set_ui_texture"@,
        ApiCommand::ClearUiTexture => "command.clear_ui_texture"@,
        ApiCommand::GetUiText => "command.get_ui_text"@,
        ApiCommand::SetUiText => "command.set_ui_text"@,
        ApiCommand::ClearUiText => "command.clear_ui_text"@,
        ApiCommand::GetSetPhysicsKinematics => "command.get_set_physics_kinematics"@,
        ApiCommand::AddSetPhysicsKinematics => "command.add_set_physics_kinematics"@,
        ApiCommand::RemoveSetPhysicsKinematics => "command.remove_set_physics_kinematics"@,
        ApiCommand::GetMesh => "command.get_mesh"@,
        ApiCommand::AddMesh => "command.add_mesh"@,
        ApiCommand::RemoveMesh => "command.remove_mesh"@,
        ApiCommand::GetCameraFocus => "command.get_camera_focus"@,
        ApiCommand::SetCameraFocus => "command.set_camera_focus"@,
        ApiCommand::GetIsGroundCollider => "command.get_is_ground_collider"@,
        ApiCommand::SetIsGroundCollider => "command.set_is_ground_collider"@,
        ApiCommand::GetIsCelestialBodySurface => "command.get_is_celestial_body_surface"@,
        ApiCommand::SetIsCelestialBodySurface => "command.set_is_celestial_body_surface"@,
        ApiCommand::GetIsPlayer => "command.get_is_player"@,
        ApiCommand::SetIsPlayer => "command.set_is_player"@,
        ApiCommand::GetControlFocus => "command.get_control_focus"@,
        ApiCommand::SetControlFocus => "command.set_control_focus"@,
        ApiCommand::GetUiIsRaycastable => "command.get_ui_is_raycastable"@,
        ApiCommand::SetUiIsRaycastable => "command.set_ui_is_raycastable"@,
        ApiCommand::GetUiRequireFreeCursor => "command.get_ui_require_free_cursor"@,
        ApiCommand::SetUiRequireFreeCursor => "command.set_ui_require_free_cursor"@,
    }
}

/// Law: a message name that selects a command is that command's name; the
/// one exception is the wireframe command, which selects
/// `FindAllEntitiesByComponents`.
pub proof fn lemma_routed_name_is_command_name(name: Seq<char>)
    ensures
        spec_command_for_name(name) matches Some(c) ==> name == command_name(c) || (c
            == ApiCommand::FindAllEntitiesByComponents && name == "command.get_debug_real_physics_wireframe"@),
{
}

/// Law: every command's name selects that command; and so distinct
/// commands have distinct names.
pub proof fn lemma_command_name_routes(c: ApiCommand)
    ensures
        spec_command_for_name(command_name(c)) == Some(c),
{
    reveal_strlit("command.deserialize_world");
    reveal_strlit("command.add_entity");
    reveal_strlit("command.remove_entity");
    reveal_strlit("command.get_entity");
    reveal_strlit("command.replace_entity_components");
    reveal_strlit("command.find_all_entities_by_components");
    reveal_strlit("command.get_debug_real_physics_wireframe");
    reveal_strlit("command.raycast_real_physics");
    reveal_strlit("command.reset_world");
    reveal_strlit("command.serialize_world");
    reveal_strlit("command.get_all_celestial_body_names");
    reveal_strlit("command.get_celestial_body_position");
    reveal_strlit("command.get_celestial_body_definition");
    reveal_strlit("command.get_celestial_body_surface_velocity");
    reveal_strlit("command.get_celestial_body_orientation");
    reveal_strlit("command.get_celestial_body_parent");
    reveal_strlit("command.get_celestial_body_satellites");
    reveal_strlit("command.get_altitude_over_celestial_body");
    reveal_strlit("command.get_closest_celestial_body");
    reveal_strlit("command.get_gravity_flux");
    reveal_strlit("command.get_universe_clock");
    reveal_strlit("command.set_universe_clock");
    reveal_strlit("command.clear_universe_clock");
    reveal_strlit("command.get_first_person_camera_control");
    reveal_strlit("command.set_first_person_camera_control");
    reveal_strlit("command.clear_first_person_camera_control");
    reveal_strlit("command.get_third_person_orbit_camera_control");
    reveal_strlit("command.set_third_person_orbit_camera_control");
    reveal_strlit("command.clear_third_person_orbit_camera_control");
    reveal_strlit("command.get_third_person_static_camera_control");
    reveal_strlit("command.set_third_person_static_camera_control");
    reveal_strlit("command.clear_third_person_static_camera_control");
    reveal_strlit("command.get_transform");
    reveal_strlit("command.set_transform");
    reveal_strlit("command.clear_transform");
    reveal_strlit("command.get_real_physics");
    reveal_strlit("command.set_real_physics");
    reveal_strlit("command.clear_real_physics");
    reveal_strlit("command.get_simple_physics");
    reveal_strlit("command.set_simple_physics");
    reveal_strlit("command.clear_simple_physics");
    reveal_strlit("command.get_glue_to_celestial_body");
    reveal_strlit("command.set_glue_to_celestial_body");
    reveal_strlit("command.clear_glue_to_celestial_body");
    reveal_strlit("command.get_ship_control");
    reveal_strlit("command.set_ship_control");
    reveal_strlit("command.clear_ship_control");
    reveal_strlit("command.get_ui_color");
    reveal_strlit("command.set_ui_color");
    reveal_strlit("command.clear_ui_color");
    reveal_strlit("command.get_ui_hover_color");
    reveal_strlit("command.set_ui_hover_color");
    reveal_strlit("command.clear_ui_hover_color");
    reveal_strlit("command.get_ui_box");
    reveal_strlit("command.set_ui_box");
    reveal_strlit("command.clear_ui_box");
    reveal_strlit("command.get_ui_hover_cursor");
    reveal_strlit("command.set_ui_hover_cursor");
    reveal_strlit("command.clear_ui_hover_cursor");
    reveal_strlit("command.get_ui_texture");
    reveal_strlit("command.set_ui_texture");
    reveal_strlit("command.clear_ui_texture");
    reveal_strlit("command.get_ui_text");
    reveal_strlit("command.set_ui_text");
    reveal_strlit("command.clear_ui_text");
    reveal_strlit("command.get_set_physics_kinematics");
    reveal_strlit("command.add_set_physics_kinematics");
    reveal_strlit("command.remove_set_physics_kinematics");
    reveal_strlit("command.get_mesh");
    reveal_strlit("command.add_mesh");
    reveal_strlit("command.remove_mesh");
    reveal_strlit("command.get_camera_focus");
    reveal_strlit("command.set_camera_focus");
    reveal_strlit("command.get_is_ground_collider");
    reveal_strlit("command.set_is_ground_collider");
    reveal_strlit("command.get_is_celestial_body_surface");
    reveal_strlit("command.set_is_celestial_body_surface");
    reveal_strlit("command.get_is_player");
    reveal_strlit("command.set_is_player");
    reveal_strlit("command.get_control_focus");
    reveal_strlit("command.set_control_focus");
    reveal_strlit("command.get_ui_is_raycastable");
    reveal_strlit("command.set_ui_is_raycastable");
    reveal_strlit("command.get_ui_require_free_cursor");
    reveal_strlit("command.set_ui_require_free_cursor");
    assert("command.deserialize_world"@.len() == 25);
    assert("command.add_entity"@.len() == 18);
    assert("command.remove_entity"@.len() == 21);
    assert("command.get_entity"@.len() == 18);
    assert("command.replace_entity_components"@.len() == 33);
    assert("command.find_all_entities_by_components"@.len() == 39);
    assert("command.get_debug_real_physics_wireframe"@.len() == 40);
    assert("command.raycast_real_physics"@.len() == 28);
    assert("command.reset_world"@.len() == 19);
    assert("command.serialize_world"@.len() == 23);
    assert("command.get_all_celestial_body_names"@.len() == 36);
    assert("command.get_celestial_body_position"@.len() == 35);
    assert("command.get_celestial_body_definition"@.len() == 37);
    assert("command.get_celestial_body_surface_velocity"@.len() == 43);
    assert("command.get_celestial_body_orientation"@.len() == 38);
    assert("command.get_celestial_body_parent"@.len() == 33);
    assert("command.get_celestial_body_satellites"@.len() == 37);
    assert("command.get_altitude_over_celestial_body"@.len() == 40);
    assert("command.get_closest_celestial_body"@.len() == 34);
    assert("command.get_gravity_flux"@.len() == 24);
    assert("command.get_universe_clock"@.len() == 26);
    assert("command.set_universe_clock"@.len() == 26);
    assert("command.clear_universe_clock"@.len() == 28);
    assert("command.get_first_person_camera_control"@.len() == 39);
    assert("command.set_first_person_camera_control"@.len() == 39);
    assert("command.clear_first_person_camera_control"@.len() == 41);
    assert("command.get_third_person_orbit_camera_control"@.len() == 45);
    assert("command.set_third_person_orbit_camera_control"@.len() == 45);
    assert("command.clear_third_person_orbit_camera_control"@.len() == 47);
    assert("command.get_third_person_static_camera_control"@.len() == 46);
    assert("command.set_third_person_static_camera_control"@.len() == 46);
    assert("command.clear_third_person_static_camera_control"@.len() == 48);
    assert("command.get_transform"@.len() == 21);
    assert("command.set_transform"@.len() == 21);
    assert("command.clear_transform"@.len() == 23);
    assert("command.get_real_physics"@.len() == 24);
    assert("command.set_real_physics"@.len() == 24);
    assert("command.clear_real_physics"@.len() == 26);
    assert("command.get_simple_physics"@.len() == 26);
    assert("command.set_simple_physics"@.len() == 26);
    assert("command.clear_simple_physics"@.len() == 28);
    assert("command.get_glue_to_celestial_body"@.len() == 34);
    assert("command.set_glue_to_celestial_body"@.len() == 34);
    assert("command.clear_glue_to_celestial_body"@.len() == 36);
    assert("command.get_ship_control"@.len() == 24);
    assert("command.set_ship_control"@.len() == 24);
    assert("command.clear_ship_control"@.len() == 26);
    assert("command.get_ui_color"@.len() == 20);
    assert("command.set_ui_color"@.len() == 20);
    assert("command.clear_ui_color"@.len() == 22);
    assert("command.get_ui_hover_color"@.len() == 26);
    assert("command.set_ui_hover_color"@.len() == 26);
    assert("command.clear_ui_hover_color"@.len() == 28);
    assert("command.get_ui_box"@.len() == 18);
    assert("command.set_ui_box"@.len() == 18);
    assert("command.clear_ui_box"@.len() == 20);
    assert("command.get_ui_hover_cursor"@.len() == 27);
    assert("command.set_ui_hover_cursor"@.len() == 27);
    assert("command.clear_ui_hover_cursor"@.len() == 29);
    assert("command.get_ui_texture"@.len() == 22);
    assert("command.set_ui_texture"@.len() == 22);
    assert("command.clear_ui_texture"@.len() == 24);
    assert("command.get_ui_text"@.len() == 19);
    assert("command.set_ui_text"@.len() == 19);
    assert("command.clear_ui_text"@.len() == 21);
    assert("command.get_set_physics_kinematics"@.len() == 34);
    assert("command.add_set_physics_kinematics"@.len() == 34);
    assert("command.remove_set_physics_kinematics"@.len() == 37);
    assert("command.get_mesh"@.len() == 16);
    assert("command.add_mesh"@.len() == 16);
    assert("command.remove_mesh"@.len() == 19);
    assert("command.get_camera_focus"@.len() == 24);
    assert("command.set_camera_focus"@.len() == 24);
    assert("command.get_is_ground_collider"@.len() == 30);
    assert("command.set_is_ground_collider"@.len() == 30);
    assert("command.get_is_celestial_body_surface"@.len() == 37);
    assert("command.set_is_celestial_body_surface"@.len() == 37);
    assert("command.get_is_player"@.len() == 21);
    assert("command.set_is_player"@.len() == 21);
    assert("command.get_control_focus"@.len() == 25);
    assert("command.set_control_focus"@.len() == 25);
    assert("command.get_ui_is_raycastable"@.len() == 29);
    assert("command.set_ui_is_raycastable"@.len() == 29);
    assert("command.get_ui_require_free_cursor"@.len() == 34);
    assert("command.set_ui_require_free_cursor"@.len() == 34);
    match c {
        ApiCommand::DeserializeWorld => {
        },
        ApiCommand::AddEntity => {
        },
        ApiCommand::RemoveEntity => {
        },
        ApiCommand::GetEntity => {
            assert("command.add_entity"@[8] != "command.get_entity"@[8]);
        },
        ApiCommand::ReplaceEntityComponents => {
        },
        ApiCommand::FindAllEntitiesByComponents => {
        },
        ApiCommand::RaycastRealPhysics => {
        },
        ApiCommand::ResetWorld => {
        },
        ApiCommand::SerializeWorld => {
        },
        ApiCommand::GetAllCelestialBodyNames => {
        },
        ApiCommand::GetCelestialBodyPosition => {
        },
        ApiCommand::GetCelestialBodyDefinition => {
        },
        ApiCommand::GetCelestialBodySurfaceVelocity => {
        },
        ApiCommand::GetCelestialBodyOrientation => {
        },
        ApiCommand::GetCelestialBodyParent => {
            assert("command.replace_entity_components"@[8] != "command.get_celestial_body_parent"@[8]);
        },
        ApiCommand::GetCelestialBodySatellites => {
            assert("command.get_celestial_body_definition"@[27] != "command.get_celestial_body_satellites"@[27]);
        },
        ApiCommand::GetAltitudeOverCelestialBody => {
            assert("command.get_debug_real_physics_wireframe"@[12] != "command.get_altitude_over_celestial_body"@[12]);
        },
        ApiCommand::GetClosestCelestialBody => {
        },
        ApiCommand::GetGravityFlux => {
        },
        ApiCommand::GetUniverseClock => {
        },
        ApiCommand::SetUniverseClock => {
            assert("command.get_universe_clock"@[8] != "command.set_universe_clock"@[8]);
        },
        ApiCommand::ClearUniverseClock => {
            assert("command.raycast_real_physics"@[8] != "command.clear_universe_clock"@[8]);
        },
        ApiCommand::GetFirstPersonCameraControl => {
            assert("command.find_all_entities_by_components"@[8] != "command.get_first_person_camera_control"@[8]);
        },
        ApiCommand::SetFirstPersonCameraControl => {
            assert("command.find_all_entities_by_components"@[8] != "command.set_first_person_camera_control"@[8]);
            assert("command.get_first_person_camera_control"@[8] != "command.set_first_person_camera_control"@[8]);
        },
        ApiCommand::ClearFirstPersonCameraControl => {
        },
        ApiCommand::GetThirdPersonOrbitCameraControl => {
        },
        ApiCommand::SetThirdPersonOrbitCameraControl => {
            assert("command.get_third_person_orbit_camera_control"@[8] != "command.set_third_person_orbit_camera_control"@[8]);
        },
        ApiCommand::ClearThirdPersonOrbitCameraControl => {
        },
        ApiCommand::GetThirdPersonStaticCameraControl => {
        },
        ApiCommand::SetThirdPersonStaticCameraControl => {
            assert("command.get_third_person_static_camera_control"@[8] != "command.set_third_person_static_camera_control"@[8]);
        },
        ApiCommand::ClearThirdPersonStaticCameraControl => {
        },
        ApiCommand::GetTransform => {
            assert("command.remove_entity"@[8] != "command.get_transform"@[8]);
        },
        ApiCommand::SetTransform => {
            assert("command.remove_entity"@[8] != "command.set_transform"@[8]);
            assert("command.get_transform"@[8] != "command.set_transform"@[8]);
        },
        ApiCommand::ClearTransform => {
            assert("command.serialize_world"@[8] != "command.clear_transform"@[8]);
        },
        ApiCommand::GetRealPhysics => {
            assert("command.get_gravity_flux"@[12] != "command.get_real_physics"@[12]);
        },
        ApiCommand::SetRealPhysics => {
            assert("command.get_gravity_flux"@[8] != "command.set_real_physics"@[8]);
            assert("command.get_real_physics"@[8] != "command.set_real_physics"@[8]);
        },
        ApiCommand::ClearRealPhysics => {
            assert("command.get_universe_clock"@[8] != "command.clear_real_physics"@[8]);
            assert("command.set_universe_clock"@[8] != "command.clear_real_physics"@[8]);
        },
        ApiCommand::GetSimplePhysics => {
            assert("command.get_universe_clock"@[12] != "command.get_simple_physics"@[12]);
            assert("command.set_universe_clock"@[8] != "command.get_simple_physics"@[8]);
            assert("command.clear_real_physics"@[8] != "command.get_simple_physics"@[8]);
        },
        ApiCommand::SetSimplePhysics => {
            assert("command.get_universe_clock"@[8] != "command.set_simple_physics"@[8]);
            assert("command.set_universe_clock"@[12] != "command.set_simple_physics"@[12]);
            assert("command.clear_real_physics"@[8] != "command.set_simple_physics"@[8]);
            assert("command.get_simple_physics"@[8] != "command.set_simple_physics"@[8]);
        },
        ApiCommand::ClearSimplePhysics => {
            assert("command.raycast_real_physics"@[8] != "command.clear_simple_physics"@[8]);
            assert("command.clear_universe_clock"@[14] != "command.clear_simple_physics"@[14]);
        },
        ApiCommand::GetGlueToCelestialBody => {
            assert("command.get_closest_celestial_body"@[12] != "command.get_glue_to_celestial_body"@[12]);
        },
        ApiCommand::SetGlueToCelestialBody => {
            assert("command.get_closest_celestial_body"@[8] != "command.set_glue_to_celestial_body"@[8]);
            assert("command.get_glue_to_celestial_body"@[8] != "command.set_glue_to_celestial_body"@[8]);
        },
        ApiCommand::ClearGlueToCelestialBody => {
            assert("command.get_all_celestial_body_names"@[8] != "command.clear_glue_to_celestial_body"@[8]);
        },
        ApiCommand::GetShipControl => {
            assert("command.get_gravity_flux"@[12] != "command.get_ship_control"@[12]);
            assert("command.get_real_physics"@[12] != "command.get_ship_control"@[12]);
            assert("command.set_real_physics"@[8] != "command.get_ship_control"@[8]);
        },
        ApiCommand::SetShipControl => {
            assert("command.get_gravity_flux"@[8] != "command.set_ship_control"@[8]);
            assert("command.get_real_physics"@[8] != "command.set_ship_control"@[8]);
            assert("command.set_real_physics"@[12] != "command.set_ship_control"@[12]);
            assert("command.get_ship_control"@[8] != "command.set_ship_control"@[8]);
        },
        ApiCommand::ClearShipControl => {
            assert("command.get_universe_clock"@[8] != "command.clear_ship_control"@[8]);
            assert("command.set_universe_clock"@[8] != "command.clear_ship_control"@[8]);
            assert("command.clear_real_physics"@[14] != "command.clear_ship_control"@[14]);
            assert("command.get_simple_physics"@[8] != "command.clear_ship_control"@[8]);
            assert("command.set_simple_physics"@[8] != "command.clear_ship_control"@[8]);
        },
        ApiCommand::GetUiColor => {
        },
        ApiCommand::SetUiColor => {
            assert("command.get_ui_color"@[8] != "command.set_ui_color"@[8]);
        },
        ApiCommand::ClearUiColor => {
        },
        ApiCommand::GetUiHoverColor => {
            assert("command.get_universe_clock"@[13] != "command.get_ui_hover_color"@[13]);
            assert("command.set_universe_clock"@[8] != "command.get_ui_hover_color"@[8]);
            assert("command.clear_real_physics"@[8] != "command.get_ui_hover_color"@[8]);
            assert("command.get_simple_physics"@[12] != "command.get_ui_hover_color"@[12]);
            assert("command.set_simple_physics"@[8] != "command.get_ui_hover_color"@[8]);
            assert("command.clear_ship_control"@[8] != "command.get_ui_hover_color"@[8]);
        },
        ApiCommand::SetUiHoverColor => {
            assert("command.get_universe_clock"@[8] != "command.set_ui_hover_color"@[8]);
            assert("command.set_universe_clock"@[13] != "command.set_ui_hover_color"@[13]);
            assert("command.clear_real_physics"@[8] != "command.set_ui_hover_color"@[8]);
            assert("command.get_simple_physics"@[8] != "command.set_ui_hover_color"@[8]);
            assert("command.set_simple_physics"@[12] != "command.set_ui_hover_color"@[12]);
            assert("command.clear_ship_control"@[8] != "command.set_ui_hover_color"@[8]);
            assert("command.get_ui_hover_color"@[8] != "command.set_ui_hover_color"@[8]);
        },
        ApiCommand::ClearUiHoverColor => {
            assert("command.raycast_real_physics"@[8] != "command.clear_ui_hover_color"@[8]);
            assert("command.clear_universe_clock"@[15] != "command.clear_ui_hover_color"@[15]);
            assert("command.clear_simple_physics"@[14] != "command.clear_ui_hover_color"@[14]);
        },
        ApiCommand::GetUiBox => {
            assert("command.add_entity"@[8] != "command.get_ui_box"@[8]);
            assert("command.get_entity"@[12] != "command.get_ui_box"@[12]);
        },
        ApiCommand::SetUiBox => {
            assert("command.add_entity"@[8] != "command.set_ui_box"@[8]);
            assert("command.get_entity"@[8] != "command.set_ui_box"@[8]);
            assert("command.get_ui_box"@[8] != "command.set_ui_box"@[8]);
        },
        ApiCommand::ClearUiBox => {
            assert("command.get_ui_color"@[8] != "command.clear_ui_box"@[8]);
            assert("command.set_ui_color"@[8] != "command.clear_ui_box"@[8]);
        },
        ApiCommand::GetUiHoverCursor => {
        },
        ApiCommand::SetUiHoverCursor => {
            assert("command.get_ui_hover_cursor"@[8] != "command.set_ui_hover_cursor"@[8]);
        },
        ApiCommand::ClearUiHoverCursor => {
        },
        ApiCommand::GetUiTexture => {
            assert("command.clear_ui_color"@[8] != "command.get_ui_texture"@[8]);
        },
        ApiCommand::SetUiTexture => {
            assert("command.clear_ui_color"@[8] != "command.set_ui_texture"@[8]);
            assert("command.get_ui_texture"@[8] != "command.set_ui_texture"@[8]);
        },
        ApiCommand::ClearUiTexture => {
            assert("command.get_gravity_flux"@[8] != "command.clear_ui_texture"@[8]);
            assert("command.get_real_physics"@[8] != "command.clear_ui_texture"@[8]);
            assert("command.set_real_physics"@[8] != "command.clear_ui_texture"@[8]);
            assert("command.get_ship_control"@[8] != "command.clear_ui_texture"@[8]);
            assert("command.set_ship_control"@[8] != "command.clear_ui_texture"@[8]);
        },
        ApiCommand::GetUiText => {
            assert("command.reset_world"@[8] != "command.get_ui_text"@[8]);
        },
        ApiCommand::SetUiText => {
            assert("command.reset_world"@[8] != "command.set_ui_text"@[8]);
            assert("command.get_ui_text"@[8] != "command.set_ui_text"@[8]);
        },
        ApiCommand::ClearUiText => {
            assert("command.remove_entity"@[8] != "command.clear_ui_text"@[8]);
            assert("command.get_transform"@[8] != "command.clear_ui_text"@[8]);
            assert("command.set_transform"@[8] != "command.clear_ui_text"@[8]);
        },
        ApiCommand::GetSetPhysicsKinematics => {
            assert("command.get_closest_celestial_body"@[12] != "command.get_set_physics_kinematics"@[12]);
            assert("command.get_glue_to_celestial_body"@[12] != "command.get_set_physics_kinematics"@[12]);
            assert("command.set_glue_to_celestial_body"@[8] != "command.get_set_physics_kinematics"@[8]);
        },
        ApiCommand::AddSetPhysicsKinematics => {
            assert("command.get_closest_celestial_body"@[8] != "command.add_set_physics_kinematics"@[8]);
            assert("command.get_glue_to_celestial_body"@[8] != "command.add_set_physics_kinematics"@[8]);
            assert("command.set_glue_to_celestial_body"@[8] != "command.add_set_physics_kinematics"@[8]);
            assert("command.get_set_physics_kinematics"@[8] != "command.add_set_physics_kinematics"@[8]);
        },
        ApiCommand::RemoveSetPhysicsKinematics => {
            assert("command.get_celestial_body_definition"@[8] != "command.remove_set_physics_kinematics"@[8]);
            assert("command.get_celestial_body_satellites"@[8] != "command.remove_set_physics_kinematics"@[8]);
        },
        ApiCommand::GetMesh => {
        },
        ApiCommand::AddMesh => {
            assert("command.get_mesh"@[8] != "command.add_mesh"@[8]);
        },
        ApiCommand::RemoveMesh => {
            assert("command.reset_world"@[10] != "command.remove_mesh"@[10]);
            assert("command.get_ui_text"@[8] != "command.remove_mesh"@[8]);
            assert("command.set_ui_text"@[8] != "command.remove_mesh"@[8]);
        },
        ApiCommand::GetCameraFocus => {
            assert("command.get_gravity_flux"@[12] != "command.get_camera_focus"@[12]);
            assert("command.get_real_physics"@[12] != "command.get_camera_focus"@[12]);
            assert("command.set_real_physics"@[8] != "command.get_camera_focus"@[8]);
            assert("command.get_ship_control"@[12] != "command.get_camera_focus"@[12]);
            assert("command.set_ship_control"@[8] != "command.get_camera_focus"@[8]);
            assert("command.clear_ui_texture"@[8] != "command.get_camera_focus"@[8]);
        },
        ApiCommand::SetCameraFocus => {
            assert("command.get_gravity_flux"@[8] != "command.set_camera_focus"@[8]);
            assert("command.get_real_physics"@[8] != "command.set_camera_focus"@[8]);
            assert("command.set_real_physics"@[12] != "command.set_camera_focus"@[12]);
            assert("command.get_ship_control"@[8] != "command.set_camera_focus"@[8]);
            assert("command.set_ship_control"@[12] != "command.set_camera_focus"@[12]);
            assert("command.clear_ui_texture"@[8] != "command.set_camera_focus"@[8]);
            assert("command.get_camera_focus"@[8] != "command.set_camera_focus"@[8]);
        },
        ApiCommand::GetIsGroundCollider => {
        },
        ApiCommand::SetIsGroundCollider => {
            assert("command.get_is_ground_collider"@[8] != "command.set_is_ground_collider"@[8]);
        },
        ApiCommand::GetIsCelestialBodySurface => {
            assert("command.get_celestial_body_definition"@[12] != "command.get_is_celestial_body_surface"@[12]);
            assert("command.get_celestial_body_satellites"@[12] != "command.get_is_celestial_body_surface"@[12]);
            assert("command.remove_set_physics_kinematics"@[8] != "command.get_is_celestial_body_surface"@[8]);
        },
        ApiCommand::SetIsCelestialBodySurface => {
            assert("command.get_celestial_body_definition"@[8] != "command.set_is_celestial_body_surface"@[8]);
            assert("command.get_celestial_body_satellites"@[8] != "command.set_is_celestial_body_surface"@[8]);
            assert("command.remove_set_physics_kinematics"@[8] != "command.set_is_celestial_body_surface"@[8]);
            assert("command.get_is_celestial_body_surface"@[8] != "command.set_is_celestial_body_surface"@[8]);
        },
        ApiCommand::GetIsPlayer => {
            assert("command.remove_entity"@[8] != "command.get_is_player"@[8]);
            assert("command.get_transform"@[12] != "command.get_is_player"@[12]);
            assert("command.set_transform"@[8] != "command.get_is_player"@[8]);
            assert("command.clear_ui_text"@[8] != "command.get_is_player"@[8]);
        },
        ApiCommand::SetIsPlayer => {
            assert("command.remove_entity"@[8] != "command.set_is_player"@[8]);
            assert("command.get_transform"@[8] != "command.set_is_player"@[8]);
            assert("command.set_transform"@[12] != "command.set_is_player"@[12]);
            assert("command.clear_ui_text"@[8] != "command.set_is_player"@[8]);
            assert("command.get_is_player"@[8] != "command.set_is_player"@[8]);
        },
        ApiCommand::GetControlFocus => {
            assert("command.deserialize_world"@[8] != "command.get_control_focus"@[8]);
        },
        ApiCommand::SetControlFocus => {
            assert("command.deserialize_world"@[8] != "command.set_control_focus"@[8]);
            assert("command.get_control_focus"@[8] != "command.set_control_focus"@[8]);
        },
        ApiCommand::GetUiIsRaycastable => {
            assert("command.clear_ui_hover_cursor"@[8] != "command.get_ui_is_raycastable"@[8]);
        },
        ApiCommand::SetUiIsRaycastable => {
            assert("command.clear_ui_hover_cursor"@[8] != "command.set_ui_is_raycastable"@[8]);
            assert("command.get_ui_is_raycastable"@[8] != "command.set_ui_is_raycastable"@[8]);
        },
        ApiCommand::GetUiRequireFreeCursor => {
            assert("command.get_closest_celestial_body"@[12] != "command.get_ui_require_free_cursor"@[12]);
            assert("command.get_glue_to_celestial_body"@[12] != "command.get_ui_require_free_cursor"@[12]);
            assert("command.set_glue_to_celestial_body"@[8] != "command.get_ui_require_free_cursor"@[8]);
            assert("command.get_set_physics_kinematics"@[12] != "command.get_ui_require_free_cursor"@[12]);
            assert("command.add_set_physics_kinematics"@[8] != "command.get_ui_require_free_cursor"@[8]);
        },
        ApiCommand::SetUiRequireFreeCursor => {
            assert("command.get_closest_celestial_body"@[8] != "command.set_ui_require_free_cursor"@[8]);
            assert("command.get_glue_to_celestial_body"@[8] != "command.set_ui_require_free_cursor"@[8]);
            assert("command.set_glue_to_celestial_body"@[12] != "command.set_ui_require_free_cursor"@[12]);
            assert("command.get_set_physics_kinematics"@[8] != "command.set_ui_require_free_cursor"@[8]);
            assert("command.add_set_physics_kinematics"@[8] != "command.set_ui_require_free_cursor"@[8]);
            assert("command.get_ui_require_free_cursor"@[8] != "command.set_ui_require_free_cursor"@[8]);
        },
    }
}

/// The command that a message name selects, if any.
pub fn command_for_name(name: &str) -> (command: Option<ApiCommand>)
    ensures
        command == spec_command_for_name(name@),
{
    let n = chars_of(name);
    if chars_equal_str(&n, "command.deserialize_world") {
        return Some(ApiCommand::DeserializeWorld);
    }
    if chars_equal_str(&n, "command.add_entity") {
        return Some(ApiCommand::AddEntity);
    }
    if chars_equal_str(&n, "command.remove_entity") {
        return Some(ApiCommand::RemoveEntity);
    }
    if chars_equal_str(&n, "command.get_entity") {
        return Some(ApiCommand::GetEntity);
    }
    if chars_equal_str(&n, "command.replace_entity_components") {
        return Some(ApiCommand::ReplaceEntityComponents);
    }
    if chars_equal_str(&n, "command.find_all_entities_by_components") {
        return Some(ApiCommand::FindAllEntitiesByComponents);
    }
    if chars_equal_str(&n, "command.get_debug_real_physics_wireframe") {
        return Some(ApiCommand::FindAllEntitiesByComponents);
    }
    if chars_equal_str(&n, "command.raycast_real_physics") {
        return Some(ApiCommand::RaycastRealPhysics);
    }
    if chars_equal_str(&n, "command.reset_world") {
        return Some(ApiCommand::ResetWorld);
    }
    if chars_equal_str(&n, "command.serialize_world") {
        return Some(ApiCommand::SerializeWorld);
    }
    if chars_equal_str(&n, "command.get_all_celestial_body_names") {
        return Some(ApiCommand::GetAllCelestialBodyNames);
    }
    if chars_equal_str(&n, "command.get_celestial_body_position") {
        return Some(ApiCommand::GetCelestialBodyPosition);
    }
    if chars_equal_str(&n, "command.get_celestial_body_definition") {
        return Some(ApiCommand::GetCelestialBodyDefinition);
    }
    if chars_equal_str(&n, "command.get_celestial_body_surface_velocity") {
        return Some(ApiCommand::GetCelestialBodySurfaceVelocity);
    }
    if chars_equal_str(&n, "command.get_celestial_body_orientation") {
        return Some(ApiCommand::GetCelestialBodyOrientation);
    }
    if chars_equal_str(&n, "command.get_celestial_body_parent") {
        return Some(ApiCommand::GetCelestialBodyParent);
    }
    if chars_equal_str(&n, "command.get_celestial_body_satellites") {
        return Some(ApiCommand::GetCelestialBodySatellites);
    }
    if chars_equal_str(&n, "command.get_altitude_over_celestial_body") {
        return Some(ApiCommand::GetAltitudeOverCelestialBody);
    }
    if chars_equal_str(&n, "command.get_closest_celestial_body") {
        return Some(ApiCommand::GetClosestCelestialBody);
    }
    if chars_equal_str(&n, "command.get_gravity_flux") {
        return Some(ApiCommand::GetGravityFlux);
    }
    if chars_equal_str(&n, "command.get_universe_clock") {
        return Some(ApiCommand::GetUniverseClock);
    }
    if chars_equal_str(&n, "command.set_universe_clock") {
        return Some(ApiCommand::SetUniverseClock);
    }
    if chars_equal_str(&n, "command.clear_universe_clock") {
        return Some(ApiCommand::ClearUniverseClock);
    }
    if chars_equal_str(&n, "command.get_first_person_camera_control") {
        return Some(ApiCommand::GetFirstPersonCameraControl);
    }
    if chars_equal_str(&n, "command.set_first_person_camera_control") {
        return Some(ApiCommand::SetFirstPersonCameraControl);
    }
    if chars_equal_str(&n, "command.clear_first_person_camera_control") {
        return Some(ApiCommand::ClearFirstPersonCameraControl);
    }
    if chars_equal_str(&n, "command.get_third_person_orbit_camera_control") {
        return Some(ApiCommand::GetThirdPersonOrbitCameraControl);
    }
    if chars_equal_str(&n, "command.set_third_person_orbit_camera_control") {
        return Some(ApiCommand::SetThirdPersonOrbitCameraControl);
    }
    if chars_equal_str(&n, "command.clear_third_person_orbit_camera_control") {
        return Some(ApiCommand::ClearThirdPersonOrbitCameraControl);
    }
    if chars_equal_str(&n, "command.get_third_person_static_camera_control") {
        return Some(ApiCommand::GetThirdPersonStaticCameraControl);
    }
    if chars_equal_str(&n, "command.set_third_person_static_camera_control") {
        return Some(ApiCommand::SetThirdPersonStaticCameraControl);
    }
    if chars_equal_str(&n, "command.clear_third_person_static_camera_control") {
        return Some(ApiCommand::ClearThirdPersonStaticCameraControl);
    }
    if chars_equal_str(&n, "command.get_transform") {
        return Some(ApiCommand::GetTransform);
    }
    if chars_equal_str(&n, "command.set_transform") {
        return Some(ApiCommand::SetTransform);
    }
    if chars_equal_str(&n, "command.clear_transform") {
        return Some(ApiCommand::ClearTransform);
    }
    if chars_equal_str(&n, "command.get_real_physics") {
        return Some(ApiCommand::GetRealPhysics);
    }
    if chars_equal_str(&n, "command.set_real_physics") {
        return Some(ApiCommand::SetRealPhysics);
    }
    if chars_equal_str(&n, "command.clear_real_physics") {
        return Some(ApiCommand::ClearRealPhysics);
    }
    if chars_equal_str(&n, "command.get_simple_physics") {
        return Some(ApiCommand::GetSimplePhysics);
    }
    if chars_equal_str(&n, "command.set_simple_physics") {
        return Some(ApiCommand::SetSimplePhysics);
    }
    if chars_equal_str(&n, "command.clear_simple_physics") {
        return Some(ApiCommand::ClearSimplePhysics);
    }
    if chars_equal_str(&n, "command.get_glue_to_celestial_body") {
        return Some(ApiCommand::GetGlueToCelestialBody);
    }
    if chars_equal_str(&n, "command.set_glue_to_celestial_body") {
        return Some(ApiCommand::SetGlueToCelestialBody);
    }
    if chars_equal_str(&n, "command.clear_glue_to_celestial_body") {
        return Some(ApiCommand::ClearGlueToCelestialBody);
    }
    if chars_equal_str(&n, "command.get_ship_control") {
        return Some(ApiCommand::GetShipControl);
    }
    if chars_equal_str(&n, "command.set_ship_control") {
        return Some(ApiCommand::SetShipControl);
    }
    if chars_equal_str(&n, "command.clear_ship_control") {
        return Some(ApiCommand::ClearShipControl);
    }
    if chars_equal_str(&n, "command.get_ui_color") {
        return Some(ApiCommand::GetUiColor);
    }
    if chars_equal_str(&n, "command.set_ui_color") {
        return Some(ApiCommand::SetUiColor);
    }
    if chars_equal_str(&n, "command.clear_ui_color") {
        return Some(ApiCommand::ClearUiColor);
    }
    if chars_equal_str(&n, "command.get_ui_hover_color") {
        return Some(ApiCommand::GetUiHoverColor);
    }
    if chars_equal_str(&n, "command.set_ui_hover_color") {
        return Some(ApiCommand::SetUiHoverColor);
    }
    if chars_equal_str(&n, "command.clear_ui_hover_color") {
        return Some(ApiCommand::ClearUiHoverColor);
    }
    if chars_equal_str(&n, "command.get_ui_box") {
        return Some(ApiCommand::GetUiBox);
    }
    if chars_equal_str(&n, "command.set_ui_box") {
        return Some(ApiCommand::SetUiBox);
    }
    if chars_equal_str(&n, "command.clear_ui_box") {
        return Some(ApiCommand::ClearUiBox);
    }
    if chars_equal_str(&n, "command.get_ui_hover_cursor") {
        return Some(ApiCommand::GetUiHoverCursor);
    }
    if chars_equal_str(&n, "command.set_ui_hover_cursor") {
        return Some(ApiCommand::SetUiHoverCursor);
    }
    if chars_equal_str(&n, "command.clear_ui_hover_cursor") {
        return Some(ApiCommand::ClearUiHoverCursor);
    }
    if chars_equal_str(&n, "command.get_ui_texture") {
        return Some(ApiCommand::GetUiTexture);
    }
    if chars_equal_str(&n, "command.set_ui_texture") {
        return Some(ApiCommand::SetUiTexture);
    }
    if chars_equal_str(&n, "command.clear_ui_texture") {
        return Some(ApiCommand::ClearUiTexture);
    }
    if chars_equal_str(&n, "command.get_ui_text") {
        return Some(ApiCommand::GetUiText);
    }
    if chars_equal_str(&n, "command.set_ui_text") {
        return Some(ApiCommand::SetUiText);
    }
    if chars_equal_str(&n, "command.clear_ui_text") {
        return Some(ApiCommand::ClearUiText);
    }
    if chars_equal_str(&n, "command.get_set_physics_kinematics") {
        return Some(ApiCommand::GetSetPhysicsKinematics);
    }
    if chars_equal_str(&n, "command.add_set_physics_kinematics") {
        return Some(ApiCommand::AddSetPhysicsKinematics);
    }
    if chars_equal_str(&n, "command.remove_set_physics_kinematics") {
        return Some(ApiCommand::RemoveSetPhysicsKinematics);
    }
    if chars_equal_str(&n, "command.get_mesh") {
        return Some(ApiCommand::GetMesh);
    }
    if chars_equal_str(&n, "command.add_mesh") {
        return Some(ApiCommand::AddMesh);
    }
    if chars_equal_str(&n, "command.remove_mesh") {
        return Some(ApiCommand::RemoveMesh);
    }
    if chars_equal_str(&n, "command.get_camera_focus") {
        return Some(ApiCommand::GetCameraFocus);
    }
    if chars_equal_str(&n, "command.set_camera_focus") {
        return Some(ApiCommand::SetCameraFocus);
    }
    if chars_equal_str(&n, "command.get_is_ground_collider") {
        return Some(ApiCommand::GetIsGroundCollider);
    }
    if chars_equal_str(&n, "command.set_is_ground_collider") {
        return Some(ApiCommand::SetIsGroundCollider);
    }
    if chars_equal_str(&n, "command.get_is_celestial_body_surface") {
        return Some(ApiCommand::GetIsCelestialBodySurface);
    }
    if chars_equal_str(&n, "command.set_is_celestial_body_surface") {
        return Some(ApiCommand::SetIsCelestialBodySurface);
    }
    if chars_equal_str(&n, "command.get_is_player") {
        return Some(ApiCommand::GetIsPlayer);
    }
    if chars_equal_str(&n, "command.set_is_player") {
        return Some(ApiCommand::SetIsPlayer);
    }
    if chars_equal_str(&n, "command.get_control_focus") {
        return Some(ApiCommand::GetControlFocus);
    }
    if chars_equal_str(&n, "command.set_control_focus") {
        return Some(ApiCommand::SetControlFocus);
    }
    if chars_equal_str(&n, "command.get_ui_is_raycastable") {
        return Some(ApiCommand::GetUiIsRaycastable);
    }
    if chars_equal_str(&n, "command.set_ui_is_raycastable") {
        return Some(ApiCommand::SetUiIsRaycastable);
    }
    if chars_equal_str(&n, "command.get_ui_require_free_cursor") {
        return Some(ApiCommand::GetUiRequireFreeCursor);
    }
    if chars_equal_str(&n, "command.set_ui_require_free_cursor") {
        return Some(ApiCommand::SetUiRequireFreeCursor);
    }
    None
}

/// The error of a message whose name selects no command.
pub open spec fn spec_handler_not_found(name: Seq<char>) -> Seq<char> {
    "Handler not found for message "@ + name
}

/// Finds the command that a message selects; a name that selects none is an
/// error that names the message.
pub fn route_message(name: &str) -> (r: Result<ApiCommand, String>)
    ensures
        match spec_command_for_name(name@) {
            Some(c) => r == Ok::<ApiCommand, String>(c),
            None => r matches Err(e) && e@ == spec_handler_not_found(name@),
        },
{
    match command_for_name(name) {
        Some(c) => Ok(c),
        None => {
            let mut chars: Vec<char> = Vec::new();
            push_str(&mut chars, "Handler not found for message ");
            push_str(&mut chars, name);
            Err(string_of(&chars))
        },
    }
}

// ---------------------------------------------------------------------------
// Payloads and replies
// ---------------------------------------------------------------------------

/// The error of a payload that is not an entity id.
pub open spec fn spec_invalid_id() -> Seq<char> {
    "Invalid id"@
}

/// Reads the payload of a command that takes an entity id: a `u64` in
/// decimal, as `u64::from_str` reads it.
pub fn parse_entity_id(payload: &str) -> (r: Result<u64, String>)
    ensures
        match spec_parse_unsigned(payload@, u64::MAX as nat) {
            Some(v) => r == Ok::<u64, String>(v as u64),
            None => r matches Err(e) && e@ == spec_invalid_id(),
        },
{
    match parse_u64(payload) {
        Some(id) => Ok(id),
        None => Err(string_of(&chars_of("Invalid id"))),
    }
}

/// The reply that reports the id of a new entity or component: `{"id":<id>}`.
pub open spec fn spec_id_reply(id: u64) -> Seq<char> {
    "{\"id\":"@ + spec_decimal(id as nat) + "}"@
}

/// Builds the reply that reports an id.
pub fn id_reply(id: u64) -> (reply: String)
    ensures
        reply@ == spec_id_reply(id),
{
    let mut chars: Vec<char> = Vec::new();
    push_str(&mut chars, "{\"id\":");
    push_decimal(id, &mut chars);
    push_str(&mut chars, "}");
    assert(chars@ =~= spec_id_reply(id));
    string_of(&chars)
}

/// A lower-case hexadecimal digit.
pub open spec fn hex_digit(d: int) -> char {
    if d < 10 {
        ((d + 48) as u8) as char
    } else {
        ((d + 87) as u8) as char
    }
}

/// How `serde_json` writes one character inside a JSON string: `"` and `\`
/// behind a backslash; backspace, tab, line feed, form feed and carriage
/// return as `\b`, `\t`, `\n`, `\f`, `\r`; any other character below U+0020
/// as `\u00` and two lower-case hex digits; every other character as it is.
pub open spec fn json_escaped_char(c: char) -> Seq<char> {
    if c == '"' {
        seq!['\\', '"']
    } else if c == '\\' {
        seq!['\\', '\\']
    } else if c == '\x08' {
        seq!['\\', 'b']
    } else if c == '\t' {
        seq!['\\', 't']
    } else if c == '\n' {
        seq!['\\', 'n']
    } else if c == '\x0c' {
        seq!['\\', 'f']
    } else if c == '\r' {
        seq!['\\', 'r']
    } else if (c as int) < 0x20 {
        seq!['\\', 'u', '0', '0', hex_digit((c as int) / 16), hex_digit((c as int) % 16)]
    } else {
        seq![c]
    }
}

/// The characters of `s`, each escaped as `serde_json` escapes it.
pub open spec fn json_escaped(s: Seq<char>) -> Seq<char>
    decreases s.len(),
{
    if s.len() == 0 {
        Seq::empty()
    } else {
        json_escaped(s.drop_last()) + json_escaped_char(s.last())
    }
}

/// The JSON string literal that `serde_json` writes for a text: the escaped
/// text in double quotes.
pub open spec fn json_string_literal(s: Seq<char>) -> Seq<char> {
    seq!['"'] + json_escaped(s) + seq!['"']
}

/// Text that `serde_json` writes inside the quotes unchanged: no `"`, no
/// `\` and no control character below U+0020.
pub open spec fn is_plain_json_text(s: Seq<char>) -> bool {
    forall|i: int|
        0 <= i < s.len() ==> #[trigger] s[i] != '"' && s[i] != '\\' && (s[i] as int) >= 0x20
}

/// Text that needs no escaping is written as it is.
pub proof fn lemma_plain_text_unescaped(s: Seq<char>)
    requires
        is_plain_json_text(s),
    ensures
        json_escaped(s) == s,
    decreases s.len(),
{
    if s.len() > 0 {
        let init = s.drop_last();
        assert forall|i: int| 0 <= i < init.len() implies #[trigger] init[i] != '"' && init[i] != '\\'
            && (init[i] as int) >= 0x20 by {
            assert(init[i] == s[i]);
        }
        lemma_plain_text_unescaped(init);
        let c = s[s.len() - 1];
        assert(c != '"' && c != '\\' && (c as int) >= 0x20);
        assert(c != '\x08' && c != '\t' && c != '\n' && c != '\x0c' && c != '\r');
        assert(init.push(c) == s);
    }
}

/// Writes `s` as a JSON string, as `serde_json` does for
/// `serde_json::Value::String` (its `Display`, which is compact and cannot
/// fail): its escape table and `write_char_escape` give the escaping stated
/// in `json_escaped_char`.
#[verifier::external_body]
fn json_quote(s: &str) -> (quoted: String)
    ensures
        quoted@ == json_string_literal(s@),
{
    serde_json::Value::String(s.to_owned()).to_string()
}

/// The reply payload of a failed command: `{"error":<quoted>}`, where
/// `quoted` is the error message already written as a JSON string.
pub open spec fn spec_error_payload_from_quoted(quoted: Seq<char>) -> Seq<char> {
    "{\"error\":"@ + quoted + "}"@
}

/// Builds the reply payload of a failed command from its quoted message.
pub fn error_payload_from_quoted(quoted: &str) -> (payload: String)
    ensures
        payload@ == spec_error_payload_from_quoted(quoted@),
{
    let mut chars: Vec<char> = Vec::new();
    push_str(&mut chars, "{\"error\":");
    push_str(&mut chars, quoted);
    push_str(&mut chars, "}");
    assert(chars@ =~= spec_error_payload_from_quoted(quoted@));
    string_of(&chars)
}

/// The reply payload of a failed command with message `error`.
pub open spec fn spec_error_payload(error: Seq<char>) -> Seq<char> {
    spec_error_payload_from_quoted(json_string_literal(error))
}

/// The reply payload of a failed command whose message needs no escaping.
pub open spec fn spec_plain_error_payload(error: Seq<char>) -> Seq<char> {
    "{\"error\":\""@ + error + "\"}"@
}

/// Builds the reply payload of a failed command: `{"error":"<message>"}`.
pub fn error_payload(error: &str) -> (payload: String)
    ensures
        payload@ == spec_error_payload(error@),
        is_plain_json_text(error@) ==> payload@ == spec_plain_error_payload(error@),
{
    let quoted = json_quote(error);
    let payload = error_payload_from_quoted(quoted.as_str());
    proof {
        if is_plain_json_text(error@) {
            lemma_plain_text_unescaped(error@);
            reveal_strlit("{\"error\":");
            reveal_strlit("}");
            reveal_strlit("{\"error\":\"");
            reveal_strlit("\"}");
            assert(payload@ =~= spec_plain_error_payload(error@));
        }
    }
    payload
}

/// A message that the game sends back to a remote client.
pub struct OutgoingRemoteIOMessage {
    /// Where the reply goes: the `reply_to` of the message it answers.
    pub name: String,
    pub payload: String,
    pub success: bool,
}

/// A message from a remote client.
pub struct IncomingRemoteIOMessage {
    pub name: String,
    pub payload: String,
    pub reply_to: Option<String>,
}

/// The payload of a successful reply: the handler's output, or `{}`.
pub open spec fn spec_success_payload(output: Option<Seq<char>>) -> Seq<char> {
    match output {
        Some(p) => p,
        None => "{}"@,
    }
}

/// Builds the reply to a message whose handler gave `result`: on success the
/// handler's output (or `{}` when it has none), on failure the error as
/// `{"error":...}`; the reply goes to `reply_to`.
pub fn reply_for_result(reply_to: String, result: Result<Option<String>, String>) -> (reply:
    OutgoingRemoteIOMessage)
    ensures
        reply.name@ == reply_to@,
        match result {
            Ok(output) => reply.success && reply.payload@ == spec_success_payload(
                match output {
                    Some(p) => Some(p@),
                    None => None,
                },
            ),
            Err(e) => !reply.success && reply.payload@ == spec_error_payload(e@) && (
            is_plain_json_text(e@) ==> reply.payload@ == spec_plain_error_payload(e@)),
        },
{
    match result {
        Ok(output) => {
            let payload = match output {
                Some(p) => p,
                None => string_of(&chars_of("{}")),
            };
            OutgoingRemoteIOMessage { name: reply_to, payload, success: true }
        },
        Err(e) => {
            let payload = error_payload(e.as_str());
            OutgoingRemoteIOMessage { name: reply_to, payload, success: false }
        },
    }
}

/// The error of a command whose entity does not exist.
pub fn entity_not_found() -> (error: String)
    ensures
        error@ == "Entity not found"@,
{
    string_of(&chars_of("Entity not found"))
}

// ---------------------------------------------------------------------------
// Errors from `serde_json`
// ---------------------------------------------------------------------------

#[verifier::external_type_specification]
#[verifier::external_body]
pub struct ExSerdeJsonError(serde_json::Error);

/// The `Display` text of a `serde_json` error. Its content is not stated:
/// it describes the error value, which Verus cannot look into.
#[verifier::external_body]
fn serde_error_text(error: &serde_json::Error) -> String {
    error.to_string()
}

/// The message of a payload that could not be read.
pub open spec fn spec_parse_error_message(detail: Seq<char>) -> Seq<char> {
    "Cannot parse input: "@ + detail
}

/// The message of a value that could not be written.
pub open spec fn spec_serialize_error_message(detail: Seq<char>) -> Seq<char> {
    "Cannot serialize input: "@ + detail
}

/// Builds the message of a payload that could not be read, from the
/// description of what went wrong.
pub fn parse_error_message(detail: &str) -> (message: String)
    ensures
        message@ == spec_parse_error_message(detail@),
{
    let mut chars: Vec<char> = Vec::new();
    push_str(&mut chars, "Cannot parse input: ");
    push_str(&mut chars, detail);
    string_of(&chars)
}

/// Builds the message of a value that could not be written, from the
/// description of what went wrong.
pub fn serialize_error_message(detail: &str) -> (message: String)
    ensures
        message@ == spec_serialize_error_message(detail@),
{
    let mut chars: Vec<char> = Vec::new();
    push_str(&mut chars, "Cannot serialize input: ");
    push_str(&mut chars, detail);
    string_of(&chars)
}

/// The message of a payload that `serde_json` could not read: the error's
/// description after `Cannot parse input: `.
pub fn serde_parse_err_map(error: serde_json::Error) -> (message: String)
    ensures
        exists|detail: Seq<char>| #[trigger] spec_parse_error_message(detail) == message@,
{
    let detail = serde_error_text(&error);
    let message = parse_error_message(detail.as_str());
    assert(spec_parse_error_message(detail@) == message@);
    message
}

/// The message of a value that `serde_json` could not write: the error's
/// description after `Cannot serialize input: `.
pub fn serde_serialize_err_map(error: serde_json::Error) -> (message: String)
    ensures
        exists|detail: Seq<char>| #[trigger] spec_serialize_error_message(detail) == message@,
{
    let detail = serde_error_text(&error);
    let message = serialize_error_message(detail.as_str());
    assert(spec_serialize_error_message(detail@) == message@);
    message
}

// ---------------------------------------------------------------------------
// The message queues
// ---------------------------------------------------------------------------

/// Takes the next message to handle from the inbox: the one at its back.
pub fn take_next_message(inbox: &mut VecDeque<IncomingRemoteIOMessage>) -> (message: Option<
    IncomingRemoteIOMessage,
>)
    ensures
        old(inbox)@.len() == 0 ==> message is None && final(inbox)@ == old(inbox)@,
        old(inbox)@.len() > 0 ==> message == Some(old(inbox)@.last()) && final(inbox)@ == old(
            inbox,
        )@.drop_last(),
{
    inbox.pop_back()
}

/// Puts a reply at the front of the outbox.
pub fn queue_reply(outbox: &mut VecDeque<OutgoingRemoteIOMessage>, reply: OutgoingRemoteIOMessage)
    ensures
        final(outbox)@ == seq![reply] + old(outbox)@,
{
    outbox.push_front(reply);
    assert(outbox@ =~= seq![reply] + old(outbox)@);
}

/// Builds the reply to `message`, whose handler gave `result`. The message
/// must say where to reply.
pub fn reply_to_message(message: &IncomingRemoteIOMessage, result: Result<Option<String>, String>) -> (reply:
    OutgoingRemoteIOMessage)
    requires
        message.reply_to is Some,
    ensures
        reply.name@ == message.reply_to->0@,
        match result {
            Ok(output) => reply.success && reply.payload@ == spec_success_payload(
                match output {
                    Some(p) => Some(p@),
                    None => None,
                },
            ),
            Err(e) => !reply.success && reply.payload@ == spec_error_payload(e@) && (
            is_plain_json_text(e@) ==> reply.payload@ == spec_plain_error_payload(e@)),
        },
{
    let reply_to = match &message.reply_to {
        Some(r) => r.clone(),
        None => {
            assert(false);
            String::new()
        },
    };
    reply_for_result(reply_to, result)
}

/// `reply` answers `message`, whose handler gave `result`: it goes to the
/// message's `reply_to`, and carries the handler's output (or `{}`) on
/// success, the error as `{"error":...}` on failure.
pub open spec fn answers(
    reply: OutgoingRemoteIOMessage,
    message: IncomingRemoteIOMessage,
    result: Result<Option<String>, String>,
) -> bool {
    &&& message.reply_to is Some
    &&& reply.name@ == message.reply_to->0@
    &&& match result {
        Ok(output) => reply.success && reply.payload@ == spec_success_payload(
            match output {
                Some(p) => Some(p@),
                None => None,
            },
        ),
        Err(e) => !reply.success && reply.payload@ == spec_error_payload(e@),
    }
}

/// Empties the inbox: its messages in the order they are handled, the most
/// recent first (each taken from the back).
pub fn take_inbox(inbox: &mut VecDeque<IncomingRemoteIOMessage>) -> (messages: Vec<IncomingRemoteIOMessage>)
    ensures
        final(inbox)@.len() == 0,
        messages@ == old(inbox)@.reverse(),
{
    let mut messages: Vec<IncomingRemoteIOMessage> = Vec::new();
    let ghost start = inbox@;
    while inbox.len() > 0
        invariant
            start == inbox@ + messages@.reverse(),
        decreases inbox@.len(),
    {
        let ghost before = inbox@;
        let m = take_next_message(inbox);
        match m {
            Some(message) => {
                messages.push(message);
                proof {
                    assert(before == inbox@.push(message));
                    assert(messages@.reverse() == seq![message] + messages@.drop_last().reverse());
                    assert(inbox@.push(message) == inbox@ + seq![message]);
                }
            },
            None => {},
        }
    }
    assert(start == messages@.reverse());
    assert(messages@ == messages@.reverse().reverse());
    messages
}

/// Answers handled messages: `results[i]` is what the handler gave for
/// `messages[i]`, handled in that order; each reply is put at the front of
/// the outbox as its message is answered. Every message must say where to
/// reply. Afterwards the outbox holds the replies, the last one answered
/// first, ahead of what it held before.
pub fn answer_messages(
    outbox: &mut VecDeque<OutgoingRemoteIOMessage>,
    messages: &Vec<IncomingRemoteIOMessage>,
    results: Vec<Result<Option<String>, String>>,
)
    requires
        results@.len() == messages@.len(),
        forall|i: int| 0 <= i < messages@.len() ==> (#[trigger] messages@[i]).reply_to is Some,
    ensures
        final(outbox)@.len() == old(outbox)@.len() + messages@.len(),
        forall|j: int|
            0 <= j < messages@.len() ==> answers(
                #[trigger] final(outbox)@[j],
                messages@[messages@.len() - 1 - j],
                results@[messages@.len() - 1 - j],
            ),
        final(outbox)@.subrange(messages@.len() as int, final(outbox)@.len() as int) == old(outbox)@,
{
    let ghost all_results = results@;
    let ghost start = outbox@;
    let mut rest = results;
    let mut i: usize = 0;
    while i < messages.len()
        invariant
            i <= messages@.len(),
            all_results.len() == messages@.len(),
            forall|k: int| 0 <= k < messages@.len() ==> (#[trigger] messages@[k]).reply_to is Some,
            rest@ == all_results.subrange(i as int, all_results.len() as int),
            outbox@.len() == start.len() + i,
            forall|j: int|
                0 <= j < i ==> answers(
                    #[trigger] outbox@[j],
                    messages@[i - 1 - j],
                    all_results[i - 1 - j],
                ),
            outbox@.subrange(i as int, outbox@.len() as int) == start,
        decreases messages.len() - i,
    {
        let result = rest.remove(0);
        let ghost before = outbox@;
        let reply = reply_to_message(&messages[i], result);
        queue_reply(outbox, reply);
        proof {
            assert(rest@ == all_results.subrange(i + 1, all_results.len() as int));
            assert(answers(reply, messages@[i as int], all_results[i as int]));
            assert forall|j: int| 0 <= j < i + 1 implies answers(
                #[trigger] outbox@[j],
                messages@[i + 1 - 1 - j],
                all_results[i + 1 - 1 - j],
            ) by {
                if j > 0 {
                    assert(outbox@[j] == before[j - 1]);
                }
            }
            assert(outbox@.subrange(i + 1, outbox@.len() as int) == before.subrange(
                i as int,
                before.len() as int,
            ));
        }
        i = i + 1;
    }
}

/// Law: emptying the inbox and answering its messages in the order they
/// are handled leaves the replies at the front of the outbox in the order
/// in which their messages arrived: the reply at position `j` answers the
/// message that was at position `j` of the inbox.
pub proof fn lemma_replies_in_arrival_order(
    inbox: Seq<IncomingRemoteIOMessage>,
    messages: Seq<IncomingRemoteIOMessage>,
    j: int,
)
    requires
        messages == inbox.reverse(),
        0 <= j < inbox.len(),
    ensures
        messages[messages.len() - 1 - j] == inbox[j],
{
}

/// The outbox after handling every message of the inbox, taking each from
/// the back and putting its reply at the front: `replies[i]` answers the
/// message at position `i` of the inbox.
pub open spec fn spec_drain<R>(replies: Seq<R>, outbox: Seq<R>) -> Seq<R>
    decreases replies.len(),
{
    if replies.len() == 0 {
        outbox
    } else {
        spec_drain(replies.drop_last(), seq![replies.last()] + outbox)
    }
}

/// Law: draining the inbox from the back while queueing replies at the
/// front puts the replies ahead of what the outbox held, in the order in
/// which their messages arrived.
pub proof fn lemma_drain_keeps_arrival_order<R>(replies: Seq<R>, outbox: Seq<R>)
    ensures
        spec_drain(replies, outbox) == replies + outbox,
    decreases replies.len(),
{
    if replies.len() > 0 {
        lemma_drain_keeps_arrival_order(replies.drop_last(), seq![replies.last()] + outbox);
        assert(replies.drop_last() + (seq![replies.last()] + outbox) =~= replies + outbox);
    }
}

} // verus!
