use celestial::celestial_hierarchy::{
    order_by_distance, BodyPreloadPass, CelestialHierarchy, HierarchyBody,
};
use celestial::config::{GlobalConfig, OnGameBootReadyEventData, DEFAULT_PORT};
use celestial::game::{
    control_event_name, cursor_actions, input_actions, shaders_recompile_requested, ControlItem,
    FrameAction, FrameControlEvent, cursor_icon_change, cursor_icon_for, cursor_lock_change, ControlEventKind,
    CursorIconKind, UICursorType,
};
use celestial::json_comments::strip_json_line_comments;
use celestial::lod::PreloadResult;
use celestial::recording::{record_steps, BodySurfaces, RecordStep};
use celestial::stages::{
    splash_screen_transition, StageControlEvent, StageStack, StageTransition, WarmupStage,
    WARMUP_UPDATES,
};

#[test]
fn strips_line_comments() {
    assert_eq!(strip_json_line_comments("{\"a\": 1} // one\n{}"), "{\"a\": 1} \n{}");
    assert_eq!(strip_json_line_comments("///x"), "");
    assert_eq!(strip_json_line_comments("no comment"), "no comment");
    assert_eq!(strip_json_line_comments("a\r// b\r\nc"), "a\r\nc");
    assert_eq!(strip_json_line_comments("x / y // z // w\nq"), "x / y \nq");
    assert_eq!(strip_json_line_comments(""), "");
}

#[test]
fn stage_stack_push_pop_law() {
    let mut stack: StageStack<u32> = StageStack::new();
    assert!(stack.head().is_none());
    assert!(stack.pop().is_none());
    stack.push(1);
    stack.push(2);
    assert_eq!(stack.head(), Some(&2));
    assert_eq!(stack.pop(), Some(2));
    assert_eq!(stack.head(), Some(&1));
    assert_eq!(stack.pop(), Some(1));
    assert!(stack.pop().is_none());
}

#[test]
fn warmup_pops_after_ten_updates() {
    let mut stage = WarmupStage::new();
    assert_eq!(stage.countdown(), WARMUP_UPDATES);
    for _ in 0..9 {
        assert!(matches!(stage.update::<()>(), StageTransition::DoNothing));
    }
    assert!(matches!(stage.update::<()>(), StageTransition::PopSelf));
    assert_eq!(stage.countdown(), 0);
}

#[test]
fn cursor_decisions() {
    assert_eq!(cursor_icon_for(UICursorType::Arrow), CursorIconKind::Default);
    assert_eq!(cursor_icon_for(UICursorType::Grab), CursorIconKind::Pointer);
    assert_eq!(cursor_icon_change(UICursorType::Pointer, CursorIconKind::Pointer), None);
    assert_eq!(
        cursor_icon_change(UICursorType::Arrow, CursorIconKind::Other),
        Some(CursorIconKind::Default)
    );
    assert_eq!(cursor_lock_change(true, false), Some(true));
    assert_eq!(cursor_lock_change(false, true), Some(false));
    assert_eq!(cursor_lock_change(true, true), None);
}

#[test]
fn control_event_names() {
    assert_eq!(control_event_name(ControlEventKind::ControlActivate), "on_control_activate");
    assert_eq!(control_event_name(ControlEventKind::RawText), "on_raw_input_text");
    assert_eq!(control_event_name(ControlEventKind::RawKeyUp), "on_raw_key_up");
}

#[test]
fn default_config() {
    let config = GlobalConfig::default();
    assert!(!config.headless);
    assert_eq!(config.port, DEFAULT_PORT);
    assert_eq!(DEFAULT_PORT, 7878);
    let data = OnGameBootReadyEventData { headless: config.headless };
    assert!(!data.headless);
}

fn body(name: &str, has_terrain: bool, has_water: bool) -> HierarchyBody {
    HierarchyBody { name: name.to_string(), has_terrain, has_water }
}

#[test]
fn hierarchy_follows_closest_bodies() {
    let mut hierarchy = CelestialHierarchy::new();
    hierarchy.update(&vec![body("earth", true, true), body("moon", true, false)]);
    let earth = "earth".to_string();
    let moon = "moon".to_string();
    let sun = "sun".to_string();
    assert!(hierarchy.get_rendered_body(&earth).unwrap().water_icosphere.is_some());
    assert!(hierarchy.get_rendered_body(&moon).unwrap().water_icosphere.is_none());
    let (result, _) = hierarchy.preload_terrain(&earth, &vec![1, 2], &vec![0, 0]).unwrap();
    assert_eq!(result, PreloadResult::ChangesMade);
    assert!(hierarchy.preload_water(&moon, &vec![1], &vec![0]).is_none());
    hierarchy.update(&vec![body("earth", true, true), body("sun", false, false)]);
    assert!(hierarchy.get_rendered_body(&moon).is_none());
    assert!(hierarchy.get_rendered_body(&sun).is_some());
    let kept = hierarchy.get_rendered_body(&earth).unwrap();
    assert_eq!(kept.terrain_icosphere.as_ref().unwrap().loaded_level(1), Some(3));
    let (again, plan) = hierarchy.preload_terrain(&earth, &vec![1, 2], &vec![0, 0]).unwrap();
    assert_eq!(again, PreloadResult::NotChanged);
    assert!(plan.is_empty());
}

#[test]
fn hierarchy_update_is_idempotent() {
    let mut hierarchy = CelestialHierarchy::new();
    let closest = vec![body("earth", true, false), body("earth", false, true)];
    hierarchy.update(&closest);
    hierarchy.preload_terrain(&"earth".to_string(), &vec![4], &vec![9_000_000]);
    hierarchy.update(&closest);
    let earth = hierarchy.get_rendered_body(&"earth".to_string()).unwrap();
    assert!(earth.water_icosphere.is_none());
    assert_eq!(earth.terrain_icosphere.as_ref().unwrap().loaded_level(4), Some(1));
}

#[test]
fn splash_screen_pushes_on_pause() {
    let events = vec![StageControlEvent::Other, StageControlEvent::PauseActivated];
    assert!(matches!(splash_screen_transition(&events, 7u8), StageTransition::PushStage(7)));
    let quiet = vec![StageControlEvent::Other];
    assert!(matches!(splash_screen_transition(&quiet, 7u8), StageTransition::DoNothing));
    assert!(matches!(splash_screen_transition(&vec![], 7u8), StageTransition::DoNothing));
}

#[test]
fn stripping_comments_twice_changes_nothing() {
    for s in ["a // b\nc", "///x\n//y", "x/ /y", "a/\n/b", "", "//\n//\n"] {
        let once = strip_json_line_comments(s);
        assert_eq!(strip_json_line_comments(&once), once, "{s:?}");
    }
}

#[test]
fn bodies_are_drawn_nearest_first() {
    assert_eq!(order_by_distance(&vec![30, 10, 20]), vec![1, 2, 0]);
    assert_eq!(order_by_distance(&vec![5, 5, 1, 5]), vec![2, 0, 1, 3]);
    assert_eq!(order_by_distance(&vec![]), Vec::<usize>::new());
    let order = order_by_distance(&vec![9, 3, 3, 7, 0, 9]);
    let mut seen = order.clone();
    seen.sort();
    assert_eq!(seen, vec![0, 1, 2, 3, 4, 5]);
}

#[test]
fn frame_steps_follow_draw_order() {
    let bodies = vec![
        BodySurfaces { has_terrain: true, has_water: true },
        BodySurfaces { has_terrain: false, has_water: false },
    ];
    let steps = record_steps(2, &bodies, &vec![1, 0]);
    assert_eq!(
        steps,
        vec![
            RecordStep::BeginCommands,
            RecordStep::CopyCommonBuffer,
            RecordStep::CopyMeshBuffer(0),
            RecordStep::CopyMeshBuffer(1),
            RecordStep::CopyOutputBuffer,
            RecordStep::CopyLowFreqCloudBuffer,
            RecordStep::CopyHighFreqCloudBuffer,
            RecordStep::Meshes,
            RecordStep::ClearBodyTargets(1),
            RecordStep::Clouds,
            RecordStep::Atmosphere(1),
            RecordStep::Merge(1),
            RecordStep::ClearBodyTargets(0),
            RecordStep::Clouds,
            RecordStep::Terrain(0),
            RecordStep::Water(0),
            RecordStep::Atmosphere(0),
            RecordStep::Merge(0),
            RecordStep::Ui,
            RecordStep::Output,
            RecordStep::EndCommands,
        ]
    );
    assert_eq!(
        record_steps(0, &vec![], &vec![]),
        vec![
            RecordStep::BeginCommands,
            RecordStep::CopyCommonBuffer,
            RecordStep::CopyOutputBuffer,
            RecordStep::CopyLowFreqCloudBuffer,
            RecordStep::CopyHighFreqCloudBuffer,
            RecordStep::Meshes,
            RecordStep::Ui,
            RecordStep::Output,
            RecordStep::EndCommands,
        ]
    );
}

#[test]
fn shaders_recompile_on_request() {
    assert!(shaders_recompile_requested(&vec![ControlItem::Pause, ControlItem::RecompileShaders]));
    assert!(!shaders_recompile_requested(&vec![ControlItem::Pause, ControlItem::Other]));
    assert!(!shaders_recompile_requested(&vec![]));
}

#[test]
fn comments_are_removed_line_by_line() {
    let s = "a//b\nc // d\n\"http://x\"\n//\n";
    let out = strip_json_line_comments(s);
    assert_eq!(out, "a\nc \n\"http:\n\n");
    assert_eq!(out.matches('\n').count(), s.matches('\n').count());
    for (o, i) in out.split('\n').zip(s.split('\n')) {
        assert_eq!(o, i.split("//").next().unwrap());
    }
}

#[test]
fn frame_actions_from_input() {
    let ev = |kind, item| FrameControlEvent { kind, item };
    let events = vec![
        ev(ControlEventKind::RawKeyDown, ControlItem::Other),
        ev(ControlEventKind::ControlActivate, ControlItem::RecompileShaders),
    ];
    assert_eq!(
        input_actions(&events),
        vec![FrameAction::RecompileShaders, FrameAction::SendEvent(0), FrameAction::SendEvent(1)]
    );
    let released = vec![ev(ControlEventKind::ControlRelease, ControlItem::RecompileShaders)];
    assert_eq!(input_actions(&released), vec![FrameAction::SendEvent(0)]);
    assert_eq!(input_actions(&vec![]), Vec::<FrameAction>::new());
}

#[test]
fn frame_actions_for_cursor() {
    assert_eq!(
        cursor_actions(true, false, UICursorType::Grab, CursorIconKind::Default),
        vec![FrameAction::LockCursor, FrameAction::SetCursorIcon(CursorIconKind::Pointer)]
    );
    assert_eq!(
        cursor_actions(false, true, UICursorType::Arrow, CursorIconKind::Default),
        vec![FrameAction::UnlockCursor]
    );
    assert_eq!(cursor_actions(true, true, UICursorType::Pointer, CursorIconKind::Pointer), vec![]);
}

#[test]
fn preload_pass_over_bodies_decides_recording() {
    let mut h = CelestialHierarchy::new();
    h.update(&vec![body("earth", true, true), body("moon", true, false)]);
    let pass = |name: &str, segs: Vec<u16>, dists: Vec<u64>| BodyPreloadPass {
        name: name.to_string(),
        terrain_segments: segs.clone(),
        terrain_distances: dists.clone(),
        water_segments: segs,
        water_distances: dists,
    };
    let passes = vec![pass("moon", vec![1], vec![10]), pass("earth", vec![2, 3], vec![0, 9_000_000]), pass("mars", vec![4], vec![0])];
    let (changed, outcomes) = h.preload_bodies(&passes);
    assert!(changed);
    assert_eq!(outcomes.len(), 3);
    assert_eq!(outcomes[0].terrain.as_ref().map(|p| p.len()), Some(1));
    assert!(outcomes[0].water.is_none());
    assert_eq!(outcomes[1].water.as_ref().map(|p| p.len()), Some(2));
    assert!(outcomes[2].terrain.is_none() && outcomes[2].water.is_none());
    let (again, outcomes) = h.preload_bodies(&passes);
    assert!(!again);
    assert_eq!(outcomes[1].terrain.as_ref().map(|p| p.len()), Some(0));
}
