//! Modifier combinations, encoded as a compact bitset.

use vstd::prelude::*;

verus! {

/// A combination of the four modifier kinds (Ctrl, Shift, Alt, Gui),
/// all taken from the left or all from the right hand side, packed as
/// `ctrl | shift << 1 | alt << 2 | gui << 3 | right << 4`.
#[derive(Clone, Copy, Debug, PartialEq, Eq, Structural)]
pub struct ModifierCombination {
    pub bits: u8,
}

impl ModifierCombination {
    /// Well-formed combinations only use the five low bits.
    pub open spec fn wf(self) -> bool {
        self.bits < 32
    }

    pub open spec fn spec_ctrl(self) -> bool {
        self.bits & 1 != 0
    }

    pub open spec fn spec_shift(self) -> bool {
        self.bits & 2 != 0
    }

    pub open spec fn spec_alt(self) -> bool {
        self.bits & 4 != 0
    }

    pub open spec fn spec_gui(self) -> bool {
        self.bits & 8 != 0
    }

    pub open spec fn spec_right(self) -> bool {
        self.bits & 16 != 0
    }

    /// Pack the five flags into a combination.
    pub fn new_from(right: bool, gui: bool, alt: bool, shift: bool, ctrl: bool) -> (r:
        ModifierCombination)
        ensures
            r.wf(),
            r.spec_ctrl() == ctrl,
            r.spec_shift() == shift,
            r.spec_alt() == alt,
            r.spec_gui() == gui,
            r.spec_right() == right,
            r.spec_any() == (ctrl || shift || alt || gui),
    {
        let c: u8 = if ctrl {
            1
        } else {
            0
        };
        let s: u8 = if shift {
            2
        } else {
            0
        };
        let a: u8 = if alt {
            4
        } else {
            0
        };
        let g: u8 = if gui {
            8
        } else {
            0
        };
        let rt: u8 = if right {
            16
        } else {
            0
        };
        let bits: u8 = c | s | a | g | rt;
        proof {
            assert((((bits & 1 != 0) == (c == 1)) && ((bits & 2 != 0) == (s == 2)) && ((bits & 4
                != 0) == (a == 4)) && ((bits & 8 != 0) == (g == 8)) && ((bits & 16 != 0) == (rt
                == 16)) && bits < 32 && ((bits & 15 != 0) == (c == 1 || s == 2 || a == 4 || g
                == 8)))) by (bit_vector)
                requires
                    bits == (c | s | a | g | rt),
                    c == 0 || c == 1,
                    s == 0 || s == 2,
                    a == 0 || a == 4,
                    g == 0 || g == 8,
                    rt == 0 || rt == 16,
            ;
        }
        ModifierCombination { bits }
    }

    /// True when at least one of the four modifier kinds is set.
    pub open spec fn spec_any(self) -> bool {
        self.bits & 15 != 0
    }

    /// Whether at least one of the four modifier kinds is set.
    pub fn any(&self) -> (r: bool)
        ensures
            r == self.spec_any(),
    {
        self.bits & 15 != 0
    }

    /// The modifier byte of a boot-protocol HID report that holds exactly
    /// this combination: low nibble for left-hand modifiers, high nibble
    /// for right-hand ones.
    pub open spec fn spec_hid_byte(self) -> u8 {
        if self.bits & 16 != 0 {
            ((self.bits & 15) << 4) as u8
        } else {
            (self.bits & 15) as u8
        }
    }

    /// Pack the combination into the HID boot-protocol modifier byte.
    pub fn hid_byte(&self) -> (r: u8)
        ensures
            r == self.spec_hid_byte(),
    {
        if self.bits & 16 != 0 {
            (self.bits & 15) << 4
        } else {
            self.bits & 15
        }
    }
}

} // verus!
