//! Semantic key actions bound to matrix positions by the layout.

use vstd::prelude::*;
use crate::keycode::ModifierCombination;

verus! {

/// The action a key position resolves to on one layer.
///
/// `Transparent` defers resolution to the next active layer below;
/// every other variant terminates resolution.
#[derive(Clone, Copy, Debug, PartialEq, Eq, Structural)]
pub enum KeyAction {
    /// Bound, but does nothing.
    No,
    /// Defer to the next active layer below.
    Transparent,
    /// A standard HID keycode.
    Key(u8),
    /// A standard HID keycode together with modifiers held for its duration.
    KeyWithModifier(u8, ModifierCombination),
    /// Activate a layer while held.
    MomentaryLayer(u8),
    /// Flip a layer's membership on press; release is a no-op.
    ToggleLayer(u8),
    /// Activate a layer for exactly the next resolved non-layer key press.
    OneShotLayer(u8),
    /// Activate a layer while held, with modifiers applied for the duration.
    LayerWithModifier(u8, ModifierCombination),
    /// Tap for the keycode, hold past the threshold for the layer.
    TapHoldLayer(u8, u8),
    /// Tap to toggle the layer; a held press is a no-op.
    TapToggle(u8),
    /// Trigger a stored macro by identifier.
    Macro(u8),
}

impl KeyAction {
    /// Layer index the action refers to, if any; used to validate a layout.
    pub open spec fn spec_layer_arg(self) -> Option<u8> {
        match self {
            KeyAction::MomentaryLayer(n) => Some(n),
            KeyAction::ToggleLayer(n) => Some(n),
            KeyAction::OneShotLayer(n) => Some(n),
            KeyAction::LayerWithModifier(n, _) => Some(n),
            KeyAction::TapHoldLayer(n, _) => Some(n),
            KeyAction::TapToggle(n) => Some(n),
            _ => None,
        }
    }

    /// A layer-control action: it changes which layers are active and does
    /// not consume a pending one-shot layer.
    pub open spec fn spec_is_layer_action(self) -> bool {
        self.spec_layer_arg() is Some
    }

    /// Layer index the action refers to, if any.
    pub fn layer_arg(&self) -> (r: Option<u8>)
        ensures
            r == self.spec_layer_arg(),
    {
        match self {
            KeyAction::MomentaryLayer(n) => Some(*n),
            KeyAction::ToggleLayer(n) => Some(*n),
            KeyAction::OneShotLayer(n) => Some(*n),
            KeyAction::LayerWithModifier(n, _) => Some(*n),
            KeyAction::TapHoldLayer(n, _) => Some(*n),
            KeyAction::TapToggle(n) => Some(*n),
            _ => None,
        }
    }

    /// Whether this action is a layer-control action.
    pub fn is_layer_action(&self) -> (r: bool)
        ensures
            r == self.spec_is_layer_action(),
    {
        match self {
            KeyAction::MomentaryLayer(_) => true,
            KeyAction::ToggleLayer(_) => true,
            KeyAction::OneShotLayer(_) => true,
            KeyAction::LayerWithModifier(_, _) => true,
            KeyAction::TapHoldLayer(_, _) => true,
            KeyAction::TapToggle(_) => true,
            _ => false,
        }
    }

    /// Whether this action defers to the next layer down.
    pub fn is_transparent(&self) -> (r: bool)
        ensures
            r == (self == KeyAction::Transparent),
    {
        match self {
            KeyAction::Transparent => true,
            _ => false,
        }
    }
}

} // verus!
