//! Keyboard input the mascot window reacts to: scale steps and the
//! shortcuts of its placement menu.
use vstd::prelude::*;

use crate::reload::EnsembleMode;
use crate::status::PlacementMode;

verus! {

/// The modifier keys held with a key press.
#[derive(Debug, Clone, Copy, PartialEq, Eq, Structural)]
pub struct ShortcutModifiers {
    pub alt: bool,
    pub ctrl: bool,
    pub command: bool,
    pub mac_cmd: bool,
}

/// Shortcuts are ignored while a modifier other than shift is held.
pub open spec fn modifiers_block(m: ShortcutModifiers) -> bool {
    m.alt || m.ctrl || m.command || m.mac_cmd
}

fn shortcut_modifiers_blocked(m: ShortcutModifiers) -> (b: bool)
    ensures
        b == modifiers_block(m),
{
    m.alt || m.ctrl || m.command || m.mac_cmd
}

/// The scale steps of one frame's key presses: +1 for the increase key,
/// -1 for the decrease key, nothing while a modifier blocks shortcuts.
pub fn keyboard_scale_steps(
    modifiers: ShortcutModifiers,
    increase_pressed: bool,
    decrease_pressed: bool,
) -> (steps: i32)
    ensures
        steps == (if modifiers_block(modifiers) {
            0
        } else {
            (if increase_pressed {
                1int
            } else {
                0int
            }) - (if decrease_pressed {
                1int
            } else {
                0int
            })
        }),
{
    if shortcut_modifiers_blocked(modifiers) {
        return 0;
    }
    let up: i32 = if increase_pressed {
        1
    } else {
        0
    };
    let down: i32 = if decrease_pressed {
        1
    } else {
        0
    };
    up - down
}

/// The keys of the placement menu's shortcuts.
#[derive(Debug, Clone, Copy, PartialEq, Eq, Structural)]
pub enum ShortcutKey {
    Num1,
    F,
    V,
    P,
    S,
    Q,
}

/// What a placement menu entry does.
#[derive(Debug, Clone, Copy, PartialEq, Eq, Structural)]
pub enum PlacementContextMenuAction {
    SetEnsembleMode(EnsembleMode),
    SetPlacementMode(PlacementMode),
    Quit,
}

/// The action of a shortcut key.
pub open spec fn shortcut_action(key: ShortcutKey) -> PlacementContextMenuAction {
    match key {
        ShortcutKey::Num1 => PlacementContextMenuAction::SetEnsembleMode(
            EnsembleMode::SingleCharacter,
        ),
        ShortcutKey::F => PlacementContextMenuAction::SetEnsembleMode(EnsembleMode::Favorite),
        ShortcutKey::V => PlacementContextMenuAction::SetEnsembleMode(EnsembleMode::Vpt),
        ShortcutKey::P => PlacementContextMenuAction::SetPlacementMode(PlacementMode::PerPsd),
        ShortcutKey::S => PlacementContextMenuAction::SetPlacementMode(
            PlacementMode::SharedVisualSize,
        ),
        ShortcutKey::Q => PlacementContextMenuAction::Quit,
    }
}

/// The shortcut keys in the order they are looked at.
pub open spec fn shortcut_order() -> Seq<ShortcutKey> {
    seq![
        ShortcutKey::Num1,
        ShortcutKey::F,
        ShortcutKey::V,
        ShortcutKey::P,
        ShortcutKey::S,
        ShortcutKey::Q,
    ]
}

/// The action of the first key of `order` that was pressed.
pub open spec fn first_pressed_action(order: Seq<ShortcutKey>, pressed: Seq<ShortcutKey>) -> Option<
    PlacementContextMenuAction,
>
    decreases order.len(),
{
    if order.len() == 0 {
        None
    } else if pressed.contains(order[0]) {
        Some(shortcut_action(order[0]))
    } else {
        first_pressed_action(order.drop_first(), pressed)
    }
}

/// The menu action of a frame's key presses: none while a modifier blocks
/// shortcuts, else that of the first pressed key in `shortcut_order`.
pub open spec fn menu_action(modifiers: ShortcutModifiers, pressed: Seq<ShortcutKey>) -> Option<
    PlacementContextMenuAction,
> {
    if modifiers_block(modifiers) {
        None
    } else {
        first_pressed_action(shortcut_order(), pressed)
    }
}

fn key_pressed(pressed: &Vec<ShortcutKey>, key: ShortcutKey) -> (b: bool)
    ensures
        b == pressed@.contains(key),
{
    let mut i: usize = 0;
    while i < pressed.len()
        invariant
            i <= pressed.len(),
            forall|j: int| 0 <= j < i ==> pressed@[j] != key,
        decreases pressed.len() - i,
    {
        if pressed[i] == key {
            assert(pressed@[i as int] == key);
            return true;
        }
        i = i + 1;
    }
    false
}

fn action_of_key(key: ShortcutKey) -> (a: PlacementContextMenuAction)
    ensures
        a == shortcut_action(key),
{
    match key {
        ShortcutKey::Num1 => PlacementContextMenuAction::SetEnsembleMode(
            EnsembleMode::SingleCharacter,
        ),
        ShortcutKey::F => PlacementContextMenuAction::SetEnsembleMode(EnsembleMode::Favorite),
        ShortcutKey::V => PlacementContextMenuAction::SetEnsembleMode(EnsembleMode::Vpt),
        ShortcutKey::P => PlacementContextMenuAction::SetPlacementMode(PlacementMode::PerPsd),
        ShortcutKey::S => PlacementContextMenuAction::SetPlacementMode(
            PlacementMode::SharedVisualSize,
        ),
        ShortcutKey::Q => PlacementContextMenuAction::Quit,
    }
}

/// The placement menu action of a frame's key presses, as `menu_action`
/// says.
pub fn placement_context_menu_action(modifiers: ShortcutModifiers, pressed: &Vec<ShortcutKey>) -> (r:
    Option<PlacementContextMenuAction>)
    ensures
        r == menu_action(modifiers, pressed@),
{
    if shortcut_modifiers_blocked(modifiers) {
        return None;
    }
    let order: Vec<ShortcutKey> = vec![
        ShortcutKey::Num1,
        ShortcutKey::F,
        ShortcutKey::V,
        ShortcutKey::P,
        ShortcutKey::S,
        ShortcutKey::Q,
    ];
    assert(order@ =~= shortcut_order());
    assert(order@.skip(0) =~= order@);
    let mut i: usize = 0;
    while i < order.len()
        invariant
            i <= order.len(),
            !modifiers_block(modifiers),
            order@ == shortcut_order(),
            first_pressed_action(shortcut_order(), pressed@) == first_pressed_action(
                order@.skip(i as int),
                pressed@,
            ),
        decreases order.len() - i,
    {
        let key = order[i];
        assert(order@.skip(i as int)[0] == key);
        assert(order@.skip(i as int).drop_first() =~= order@.skip(i + 1));
        if key_pressed(pressed, key) {
            assert(order@.skip(i as int).len() > 0);
            assert(first_pressed_action(order@.skip(i as int), pressed@) == Some(
                shortcut_action(key),
            ));
            return Some(action_of_key(key));
        }
        i = i + 1;
    }
    assert(order@.skip(order.len() as int).len() == 0);
    None
}

/// Whether the window is asked to move back to the middle of the screen:
/// the reset key pressed while the window has focus and no modifier
/// blocks shortcuts.
pub fn display_position_reset_requested(
    focused: bool,
    modifiers: ShortcutModifiers,
    reset_key_pressed: bool,
) -> (b: bool)
    ensures
        b == (focused && reset_key_pressed && !modifiers_block(modifiers)),
{
    focused && reset_key_pressed && !modifiers.alt && !modifiers.ctrl && !modifiers.command
        && !modifiers.mac_cmd
}

/// What choosing a placement-menu entry does.
#[derive(Debug, Clone, Copy, PartialEq, Eq, Structural)]
pub enum MenuEffect {
    /// The entry names the mode already in use.
    Nothing,
    /// Switch to this ensemble mode.
    ChangeEnsembleMode(EnsembleMode),
    /// Switch to this placement mode.
    ChangePlacementMode(PlacementMode),
    /// Close the window.
    Quit,
}

/// The effect of a menu entry given the modes in use: a mode entry does
/// nothing when it names the current mode.
pub open spec fn menu_effect(
    action: PlacementContextMenuAction,
    ensemble_mode: EnsembleMode,
    placement_mode: PlacementMode,
) -> MenuEffect {
    match action {
        PlacementContextMenuAction::SetEnsembleMode(m) => if m == ensemble_mode {
            MenuEffect::Nothing
        } else {
            MenuEffect::ChangeEnsembleMode(m)
        },
        PlacementContextMenuAction::SetPlacementMode(m) => if m == placement_mode {
            MenuEffect::Nothing
        } else {
            MenuEffect::ChangePlacementMode(m)
        },
        PlacementContextMenuAction::Quit => MenuEffect::Quit,
    }
}

/// The effect of a menu entry, as `menu_effect` says.
pub fn placement_menu_effect(
    action: PlacementContextMenuAction,
    ensemble_mode: EnsembleMode,
    placement_mode: PlacementMode,
) -> (e: MenuEffect)
    ensures
        e == menu_effect(action, ensemble_mode, placement_mode),
{
    match action {
        PlacementContextMenuAction::SetEnsembleMode(m) => if m == ensemble_mode {
            MenuEffect::Nothing
        } else {
            MenuEffect::ChangeEnsembleMode(m)
        },
        PlacementContextMenuAction::SetPlacementMode(m) => if m == placement_mode {
            MenuEffect::Nothing
        } else {
            MenuEffect::ChangePlacementMode(m)
        },
        PlacementContextMenuAction::Quit => MenuEffect::Quit,
    }
}

} // verus!
