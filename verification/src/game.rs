//! Per-frame decisions of the game loop: the mouse cursor, recompiling the
//! shaders, and the names of the events sent for control input.
use vstd::prelude::*;
use crate::text::{chars_of, string_of};

verus! {

/// The cursor that the user interface asks for.
#[derive(PartialEq, Eq, Structural, Clone, Copy, Debug)]
pub enum UICursorType {
    Arrow,
    Pointer,
    Grab,
}

/// The window's cursor icon, as far as the game tells icons apart.
#[derive(PartialEq, Eq, Structural, Clone, Copy, Debug)]
pub enum CursorIconKind {
    Default,
    Pointer,
    /// Any other icon.
    Other,
}

/// The icon shown for a cursor type: the arrow is the default icon, and
/// grabbing shows the pointer.
pub open spec fn spec_cursor_icon_for(cursor: UICursorType) -> CursorIconKind {
    match cursor {
        UICursorType::Arrow => CursorIconKind::Default,
        UICursorType::Pointer => CursorIconKind::Pointer,
        UICursorType::Grab => CursorIconKind::Pointer,
    }
}

/// The icon shown for a cursor type.
pub fn cursor_icon_for(cursor: UICursorType) -> (icon: CursorIconKind)
    ensures
        icon == spec_cursor_icon_for(cursor),
{
    match cursor {
        UICursorType::Arrow => CursorIconKind::Default,
        UICursorType::Pointer => CursorIconKind::Pointer,
        UICursorType::Grab => CursorIconKind::Pointer,
    }
}

/// The icon to set, if the window does not show the wanted one already.
pub fn cursor_icon_change(wanted: UICursorType, current: CursorIconKind) -> (change: Option<
    CursorIconKind,
>)
    ensures
        change == (if current == spec_cursor_icon_for(wanted) {
            None
        } else {
            Some(spec_cursor_icon_for(wanted))
        }),
{
    let icon = cursor_icon_for(wanted);
    if current == icon {
        None
    } else {
        Some(icon)
    }
}

/// Whether to lock (`Some(true)`) or unlock (`Some(false)`) the cursor, or
/// leave it (`None`), when the user interface wants it `locked` and it is
/// `is_locked` now.
pub fn cursor_lock_change(locked: bool, is_locked: bool) -> (change: Option<bool>)
    ensures
        change == (if locked == is_locked {
            None
        } else {
            Some(locked)
        }),
{
    if locked && !is_locked {
        Some(true)
    } else if !locked && is_locked {
        Some(false)
    } else {
        None
    }
}

/// The kinds of control input the game reports to remote clients.
#[derive(PartialEq, Eq, Structural, Clone, Copy, Debug)]
pub enum ControlEventKind {
    ControlActivate,
    ControlRelease,
    RawKeyDown,
    RawKeyUp,
    RawText,
}

/// The name of the event sent for a kind of control input.
pub open spec fn spec_control_event_name(kind: ControlEventKind) -> Seq<char> {
    match kind {
        ControlEventKind::ControlActivate => "on_control_activate"@,
        ControlEventKind::ControlRelease => "on_control_release"@,
        ControlEventKind::RawKeyDown => "on_raw_key_down"@,
        ControlEventKind::RawKeyUp => "on_raw_key_up"@,
        ControlEventKind::RawText => "on_raw_input_text"@,
    }
}

/// Law: distinct kinds of control input are sent under distinct names, and
/// each kind under the name of its own event: an activation as
/// `on_control_activate`, a release as `on_control_release`, a key press as
/// `on_raw_key_down`, a key release as `on_raw_key_up`, text as
/// `on_raw_input_text`.
pub proof fn lemma_control_event_names(a: ControlEventKind, b: ControlEventKind)
    ensures
        a != b ==> spec_control_event_name(a) != spec_control_event_name(b),
        spec_control_event_name(ControlEventKind::ControlActivate) == "on_control_activate"@,
        spec_control_event_name(ControlEventKind::ControlRelease) == "on_control_release"@,
        spec_control_event_name(ControlEventKind::RawKeyDown) == "on_raw_key_down"@,
        spec_control_event_name(ControlEventKind::RawKeyUp) == "on_raw_key_up"@,
        spec_control_event_name(ControlEventKind::RawText) == "on_raw_input_text"@,
{
    reveal_strlit("on_control_activate");
    reveal_strlit("on_control_release");
    reveal_strlit("on_raw_key_down");
    reveal_strlit("on_raw_key_up");
    reveal_strlit("on_raw_input_text");
    assert("on_control_activate"@.len() == 19);
    assert("on_control_release"@.len() == 18);
    assert("on_raw_key_down"@.len() == 15);
    assert("on_raw_key_up"@.len() == 13);
    assert("on_raw_input_text"@.len() == 17);
}

/// The name of the event sent for a kind of control input.
pub fn control_event_name(kind: ControlEventKind) -> (name: String)
    ensures
        name@ == spec_control_event_name(kind),
{
    let text = match kind {
        ControlEventKind::ControlActivate => "on_control_activate",
        ControlEventKind::ControlRelease => "on_control_release",
        ControlEventKind::RawKeyDown => "on_raw_key_down",
        ControlEventKind::RawKeyUp => "on_raw_key_up",
        ControlEventKind::RawText => "on_raw_input_text",
    };
    string_of(&chars_of(text))
}

/// A control that can be activated, as far as the game loop tells them apart.
#[derive(PartialEq, Eq, Structural, Clone, Copy, Debug)]
pub enum ControlItem {
    RecompileShaders,
    Pause,
    /// Any other control.
    Other,
}

/// Whether the shaders are recompiled this frame: when the recompile control
/// is among the controls activated in the frame.
pub fn shaders_recompile_requested(activated: &Vec<ControlItem>) -> (recompile: bool)
    ensures
        recompile == activated@.contains(ControlItem::RecompileShaders),
{
    let mut i: usize = 0;
    while i < activated.len()
        invariant
            i <= activated@.len(),
            forall|j: int| 0 <= j < i ==> activated@[j] != ControlItem::RecompileShaders,
        decreases activated.len() - i,
    {
        if activated[i] == ControlItem::RecompileShaders {
            assert(activated@[i as int] == ControlItem::RecompileShaders);
            return true;
        }
        i = i + 1;
    }
    false
}

/// A control event of a frame: its kind and, for activations and
/// releases, the control (`Other` for raw key and text input).
#[derive(PartialEq, Eq, Structural, Clone, Copy, Debug)]
pub struct FrameControlEvent {
    pub kind: ControlEventKind,
    pub item: ControlItem,
}

/// What the game loop does with the outside systems in a frame.
#[derive(PartialEq, Eq, Structural, Clone, Copy, Debug)]
pub enum FrameAction {
    /// Recompile the shaders.
    RecompileShaders,
    /// Send the frame's event at this position to remote clients, under
    /// the name of its kind (see `control_event_name`).
    SendEvent(usize),
    /// Lock the mouse cursor.
    LockCursor,
    /// Unlock the mouse cursor.
    UnlockCursor,
    /// Show this cursor icon.
    SetCursorIcon(CursorIconKind),
}

/// The event activates the shader recompile control.
pub open spec fn is_recompile_activation(e: FrameControlEvent) -> bool {
    e.kind == ControlEventKind::ControlActivate && e.item == ControlItem::RecompileShaders
}

/// The actions at the start of a frame with control `events`: the shaders
/// are recompiled when one of the events activates the recompile control;
/// then every event is sent, in order.
pub open spec fn spec_input_actions(events: Seq<FrameControlEvent>) -> Seq<FrameAction> {
    (if exists|i: int| 0 <= i < events.len() && is_recompile_activation(#[trigger] events[i]) {
        seq![FrameAction::RecompileShaders]
    } else {
        Seq::empty()
    }) + Seq::new(events.len(), |i: int| FrameAction::SendEvent(i as usize))
}

/// The actions at the start of a frame with control `events`.
pub fn input_actions(events: &Vec<FrameControlEvent>) -> (actions: Vec<FrameAction>)
    ensures
        actions@ == spec_input_actions(events@),
{
    let mut recompile = false;
    let mut i: usize = 0;
    while i < events.len()
        invariant
            i <= events@.len(),
            recompile == exists|j: int| 0 <= j < i && is_recompile_activation(#[trigger] events@[j]),
        decreases events.len() - i,
    {
        let e = events[i];
        if e.kind == ControlEventKind::ControlActivate && e.item == ControlItem::RecompileShaders {
            assert(is_recompile_activation(events@[i as int]));
            recompile = true;
        }
        i = i + 1;
    }
    let mut actions: Vec<FrameAction> = Vec::new();
    if recompile {
        actions.push(FrameAction::RecompileShaders);
    }
    let ghost head = actions@;
    let mut k: usize = 0;
    while k < events.len()
        invariant
            k <= events@.len(),
            actions@ == head + Seq::new(k as nat, |j: int| FrameAction::SendEvent(j as usize)),
        decreases events.len() - k,
    {
        actions.push(FrameAction::SendEvent(k));
        assert(Seq::new((k + 1) as nat, |j: int| FrameAction::SendEvent(j as usize)) == Seq::new(
            k as nat,
            |j: int| FrameAction::SendEvent(j as usize),
        ).push(FrameAction::SendEvent(k)));
        k = k + 1;
    }
    actions
}

/// The cursor actions of a frame: the user interface wants the cursor
/// `locked` and shaped as `wanted`; the cursor `is_locked` and shows
/// `current`. The lock changes first where it differs, then the icon where
/// it differs.
pub open spec fn spec_cursor_actions(
    locked: bool,
    is_locked: bool,
    wanted: UICursorType,
    current: CursorIconKind,
) -> Seq<FrameAction> {
    (if locked && !is_locked {
        seq![FrameAction::LockCursor]
    } else if !locked && is_locked {
        seq![FrameAction::UnlockCursor]
    } else {
        Seq::empty()
    }) + (if current != spec_cursor_icon_for(wanted) {
        seq![FrameAction::SetCursorIcon(spec_cursor_icon_for(wanted))]
    } else {
        Seq::empty()
    })
}

/// The cursor actions of a frame.
pub fn cursor_actions(locked: bool, is_locked: bool, wanted: UICursorType, current: CursorIconKind) -> (actions: Vec<
    FrameAction,
>)
    ensures
        actions@ == spec_cursor_actions(locked, is_locked, wanted, current),
{
    let mut actions: Vec<FrameAction> = Vec::new();
    match cursor_lock_change(locked, is_locked) {
        Some(true) => actions.push(FrameAction::LockCursor),
        Some(false) => actions.push(FrameAction::UnlockCursor),
        None => {},
    }
    match cursor_icon_change(wanted, current) {
        Some(icon) => actions.push(FrameAction::SetCursorIcon(icon)),
        None => {},
    }
    assert(actions@ =~= spec_cursor_actions(locked, is_locked, wanted, current));
    actions
}

} // verus!
