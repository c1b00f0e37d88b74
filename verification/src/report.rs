//! HID report state, rollover policy, and the messages queued to transports.

use vstd::prelude::*;

verus! {

/// Boot-protocol keyboard report: modifier byte, reserved byte, six
/// keycode slots (0 marks a free slot).
#[derive(Clone, Copy, Debug, PartialEq, Eq)]
pub struct KeyboardReport {
    pub modifier: u8,
    pub reserved: u8,
    pub keycodes: [u8; 6],
}

/// Mouse report forwarded unchanged to the transport.
#[derive(Clone, Copy, Debug, PartialEq, Eq, Structural)]
pub struct MouseReport {
    pub buttons: u8,
    pub x: i8,
    pub y: i8,
    pub wheel: i8,
}

/// One ordered, immutable resolved change, queued between the resolver
/// and the transport.
#[derive(Clone, Copy, Debug, PartialEq, Eq)]
pub enum KeyboardReportMessage {
    /// A new boot-protocol keyboard report.
    Keyboard(KeyboardReport),
    /// Media (consumer page) usage id; 0 means released.
    Media(u16),
    /// System control usage id; 0 means released.
    System(u16),
    /// Mouse report.
    Mouse(MouseReport),
    /// A layer became active (`true`) or inactive (`false`).
    LayerChanged(u8, bool),
}

/// Outcome of registering a key press with the aggregator.
#[derive(Clone, Copy, Debug, PartialEq, Eq, Structural)]
pub enum PressOutcome {
    /// The key took a free slot.
    Added,
    /// The key was already held; nothing changed.
    AlreadyActive,
    /// All six slots were taken: the press is dropped, fail-closed.
    RolloverDropped,
}

/// Currently pressed standard keys (at most six, in press order), holder
/// counts per HID modifier bit, and the auxiliary usages.
#[derive(Clone, Debug)]
pub struct ReportState {
    /// Active standard keycodes, oldest first; no duplicates, never 0.
    pub keycodes: Vec<u8>,
    /// Per-HID-modifier-bit count of keys currently holding that bit;
    /// eight entries, one per bit, saturating at 255.
    pub mod_counts: Vec<u8>,
    /// Active media (consumer page) usage, 0 when none.
    pub media: u16,
    /// Active system control usage, 0 when none.
    pub system: u16,
}

impl ReportState {
    /// Internal invariant of the aggregation state.
    pub open spec fn wf(self) -> bool {
        &&& self.keycodes@.len() <= 6
        &&& self.mod_counts@.len() == 8
        &&& forall|i: int| 0 <= i < self.keycodes@.len() ==> self.keycodes@[i] != 0
        &&& forall|i: int, j: int|
            0 <= i < j < self.keycodes@.len() ==> self.keycodes@[i] != self.keycodes@[j]
    }

    /// The modifier byte currently owed to the host: each bit set exactly
    /// while at least one key holds it.
    pub open spec fn spec_modifier_byte(self) -> u8 {
        (bit_val(self.mod_counts@[0], 1) + bit_val(self.mod_counts@[1], 2) + bit_val(
            self.mod_counts@[2],
            4,
        ) + bit_val(self.mod_counts@[3], 8) + bit_val(self.mod_counts@[4], 16) + bit_val(
            self.mod_counts@[5],
            32,
        ) + bit_val(self.mod_counts@[6], 64) + bit_val(self.mod_counts@[7], 128)) as u8
    }

    pub open spec fn spec_contains_key(self, code: u8) -> bool {
        self.keycodes@.contains(code)
    }

    /// Fresh state: nothing pressed, no modifiers held.
    pub fn new() -> (r: ReportState)
        ensures
            r.wf(),
            r.keycodes@ == Seq::<u8>::empty(),
            forall|i: int| 0 <= i < 8 ==> r.mod_counts@[i] == 0,
            r.media == 0,
            r.system == 0,
    {
        let mut mod_counts: Vec<u8> = Vec::new();
        let mut i: usize = 0;
        while i < 8
            invariant
                i <= 8,
                mod_counts@.len() == i,
                forall|j: int| 0 <= j < i ==> mod_counts@[j] == 0,
            decreases 8 - i,
        {
            mod_counts.push(0);
            i = i + 1;
        }
        ReportState { keycodes: Vec::new(), mod_counts, media: 0, system: 0 }
    }

    fn find_key(&self, code: u8) -> (r: Option<usize>)
        ensures
            match r {
                Some(i) => i < self.keycodes@.len() && self.keycodes@[i as int] == code,
                None => !self.spec_contains_key(code),
            },
    {
        let mut i: usize = 0;
        while i < self.keycodes.len()
            invariant
                i <= self.keycodes@.len(),
                forall|j: int| 0 <= j < i ==> self.keycodes@[j] != code,
            decreases self.keycodes@.len() - i,
        {
            if self.keycodes[i] == code {
                return Some(i);
            }
            i = i + 1;
        }
        None
    }

    /// Register a standard key press. A seventh simultaneous key is
    /// dropped, never queued: first-come-first-served retention.
    pub fn press_key(&mut self, code: u8) -> (r: PressOutcome)
        requires
            old(self).wf(),
            code != 0,
        ensures
            final(self).wf(),
            final(self).mod_counts == old(self).mod_counts,
            final(self).media == old(self).media,
            final(self).system == old(self).system,
            old(self).spec_contains_key(code) ==> r == PressOutcome::AlreadyActive
                && *final(self) == *old(self),
            !old(self).spec_contains_key(code) && old(self).keycodes@.len() < 6 ==> r
                == PressOutcome::Added && final(self).keycodes@ == old(self).keycodes@.push(code),
            !old(self).spec_contains_key(code) && old(self).keycodes@.len() == 6 ==> r
                == PressOutcome::RolloverDropped && *final(self) == *old(self),
    {
        match self.find_key(code) {
            Some(_) => PressOutcome::AlreadyActive,
            None => {
                if self.keycodes.len() < 6 {
                    self.keycodes.push(code);
                    PressOutcome::Added
                } else {
                    PressOutcome::RolloverDropped
                }
            },
        }
    }

    /// Register a standard key release; frees the key's slot if held.
    pub fn release_key(&mut self, code: u8) -> (r: bool)
        requires
            old(self).wf(),
        ensures
            final(self).wf(),
            final(self).mod_counts == old(self).mod_counts,
            final(self).media == old(self).media,
            final(self).system == old(self).system,
            r == old(self).spec_contains_key(code),
            !old(self).spec_contains_key(code) ==> *final(self) == *old(self),
            old(self).spec_contains_key(code) ==> exists|i: int|
                0 <= i < old(self).keycodes@.len() && old(self).keycodes@[i] == code
                    && final(self).keycodes@ == old(self).keycodes@.remove(i),
            !final(self).spec_contains_key(code),
    {
        match self.find_key(code) {
            Some(i) => {
                self.keycodes.remove(i);
                proof {
                    assert forall|j: int|
                        0 <= j < self.keycodes@.len() implies self.keycodes@[j] != code by {
                        if j < i {
                            assert(self.keycodes@[j] == old(self).keycodes@[j]);
                        } else {
                            assert(self.keycodes@[j] == old(self).keycodes@[j + 1]);
                        }
                    }
                }
                true
            },
            None => false,
        }
    }

    /// Add one holder to each modifier bit in the given HID byte;
    /// counts saturate at 255.
    pub fn press_modifier_bits(&mut self, hid_bits: u8)
        requires
            old(self).wf(),
        ensures
            final(self).wf(),
            final(self).keycodes == old(self).keycodes,
            final(self).media == old(self).media,
            final(self).system == old(self).system,
            forall|i: int|
                0 <= i < 8 ==> final(self).mod_counts@[i] == spec_bumped(
                    old(self).mod_counts@[i],
                    hid_bits,
                    i,
                ),
    {
        let mut i: usize = 0;
        while i < 8
            invariant
                self.wf(),
                i <= 8,
                self.keycodes == old(self).keycodes,
                self.media == old(self).media,
                self.system == old(self).system,
                self.mod_counts@.len() == 8,
                forall|j: int|
                    0 <= j < i ==> self.mod_counts@[j] == spec_bumped(
                        old(self).mod_counts@[j],
                        hid_bits,
                        j,
                    ),
                forall|j: int| i <= j < 8 ==> self.mod_counts@[j] == old(self).mod_counts@[j],
            decreases 8 - i,
        {
            let mask: u8 = mask_of(i as u8);
            proof {
                assert(mask == spec_mask_of(i as int));
            }
            if hid_bits & mask != 0 {
                let c = self.mod_counts[i];
                if c < 255 {
                    self.mod_counts.set(i, c + 1);
                }
            }
            i = i + 1;
        }
    }

    /// Remove one holder from each modifier bit in the given HID byte;
    /// a bit with no holder is left alone.
    pub fn release_modifier_bits(&mut self, hid_bits: u8)
        requires
            old(self).wf(),
        ensures
            final(self).wf(),
            final(self).keycodes == old(self).keycodes,
            final(self).media == old(self).media,
            final(self).system == old(self).system,
            forall|i: int|
                0 <= i < 8 ==> final(self).mod_counts@[i] == spec_dropped(
                    old(self).mod_counts@[i],
                    hid_bits,
                    i,
                ),
    {
        let mut i: usize = 0;
        while i < 8
            invariant
                self.wf(),
                i <= 8,
                self.keycodes == old(self).keycodes,
                self.media == old(self).media,
                self.system == old(self).system,
                self.mod_counts@.len() == 8,
                forall|j: int|
                    0 <= j < i ==> self.mod_counts@[j] == spec_dropped(
                        old(self).mod_counts@[j],
                        hid_bits,
                        j,
                    ),
                forall|j: int| i <= j < 8 ==> self.mod_counts@[j] == old(self).mod_counts@[j],
            decreases 8 - i,
        {
            let mask: u8 = mask_of(i as u8);
            proof {
                assert(mask == spec_mask_of(i as int));
            }
            if hid_bits & mask != 0 {
                let c = self.mod_counts[i];
                if c > 0 {
                    self.mod_counts.set(i, c - 1);
                }
            }
            i = i + 1;
        }
    }

    /// Snapshot the state as a boot-protocol keyboard report: active keys
    /// fill the slots oldest first, the rest stay 0.
    pub fn to_report(&self) -> (r: KeyboardReport)
        requires
            self.wf(),
        ensures
            r.modifier == self.spec_modifier_byte(),
            r.reserved == 0,
            forall|i: int|
                0 <= i < 6 ==> r.keycodes@[i] == (if i < self.keycodes@.len() {
                    self.keycodes@[i]
                } else {
                    0
                }),
    {
        let modifier = self.modifier_byte();
        let k0 = self.slot(0);
        let k1 = self.slot(1);
        let k2 = self.slot(2);
        let k3 = self.slot(3);
        let k4 = self.slot(4);
        let k5 = self.slot(5);
        KeyboardReport { modifier, reserved: 0, keycodes: [k0, k1, k2, k3, k4, k5] }
    }

    fn slot(&self, i: usize) -> (r: u8)
        requires
            self.wf(),
        ensures
            r == (if i < self.keycodes@.len() {
                self.keycodes@[i as int]
            } else {
                0
            }),
    {
        if i < self.keycodes.len() {
            self.keycodes[i]
        } else {
            0
        }
    }

    /// The modifier byte currently owed to the host.
    pub fn modifier_byte(&self) -> (r: u8)
        requires
            self.wf(),
        ensures
            r == self.spec_modifier_byte(),
    {
        let mut r: u16 = 0;
        if self.mod_counts[0] > 0 {
            r = r + 1;
        }
        if self.mod_counts[1] > 0 {
            r = r + 2;
        }
        if self.mod_counts[2] > 0 {
            r = r + 4;
        }
        if self.mod_counts[3] > 0 {
            r = r + 8;
        }
        if self.mod_counts[4] > 0 {
            r = r + 16;
        }
        if self.mod_counts[5] > 0 {
            r = r + 32;
        }
        if self.mod_counts[6] > 0 {
            r = r + 64;
        }
        if self.mod_counts[7] > 0 {
            r = r + 128;
        }
        r as u8
    }
}

/// Contribution of one holder count to the modifier byte.
pub open spec fn bit_val(count: u8, weight: int) -> int {
    if count > 0 {
        weight
    } else {
        0
    }
}

/// The count after a press touches bit `i` of `hid_bits`.
pub open spec fn spec_bumped(count: u8, hid_bits: u8, i: int) -> u8 {
    if hid_bits & spec_mask_of(i) != 0 && count < 255 {
        (count + 1) as u8
    } else {
        count
    }
}

/// The count after a release touches bit `i` of `hid_bits`.
pub open spec fn spec_dropped(count: u8, hid_bits: u8, i: int) -> u8 {
    if hid_bits & spec_mask_of(i) != 0 && count > 0 {
        (count - 1) as u8
    } else {
        count
    }
}

/// The single-bit mask for bit `i` of the modifier byte.
pub open spec fn spec_mask_of(i: int) -> u8 {
    if i == 0 {
        1
    } else if i == 1 {
        2
    } else if i == 2 {
        4
    } else if i == 3 {
        8
    } else if i == 4 {
        16
    } else if i == 5 {
        32
    } else if i == 6 {
        64
    } else {
        128
    }
}

fn mask_of(i: u8) -> (r: u8)
    requires
        i < 8,
    ensures
        r == spec_mask_of(i as int),
{
    if i == 0 {
        1
    } else if i == 1 {
        2
    } else if i == 2 {
        4
    } else if i == 3 {
        8
    } else if i == 4 {
        16
    } else if i == 5 {
        32
    } else if i == 6 {
        64
    } else {
        128
    }
}

} // verus!
