//! The key-event engine: applies debounced edges to the layer stack and
//! report state, disambiguates tap-hold keys, and tracks one-shot layers.

use vstd::prelude::*;
use crate::action::KeyAction;
use crate::layer::{LayerStack, resolve_position, spec_resolve, top_index_of};
use crate::layout::Layout;
use crate::report::{KeyboardReport, KeyboardReportMessage, PressOutcome, ReportState};

verus! {

/// A key position in the matrix, bounded by the fixed dimensions.
#[derive(Clone, Copy, Debug, PartialEq, Eq, Structural)]
pub struct KeyPosition {
    pub row: u8,
    pub col: u8,
}

/// Timing configuration of the engine, in scan ticks.
#[derive(Clone, Copy, Debug, PartialEq, Eq, Structural)]
pub struct KeyboardConfig {
    /// Ticks a tap-hold key must stay down to resolve as a hold.
    pub hold_timeout: u64,
    /// Ticks an unconsumed one-shot layer stays armed.
    pub one_shot_timeout: u64,
}

/// What an outstanding tap-hold press will become.
#[derive(Clone, Copy, Debug, PartialEq, Eq, Structural)]
pub enum PendingKind {
    /// Tap for `tap_code`, hold for `layer`.
    TapHold { layer: u8, tap_code: u8 },
    /// Tap to toggle `layer`; a held press is a no-op.
    TapToggle { layer: u8 },
}

/// The single outstanding withheld tap-hold decision.
///
/// Policy for interleaving keys: any other key pressed while a decision
/// is outstanding forces it to resolve as a hold at once, so at most the
/// decision itself is ever buffered.
#[derive(Clone, Copy, Debug, PartialEq, Eq, Structural)]
pub struct PendingTapHold {
    pub row: u8,
    pub col: u8,
    pub kind: PendingKind,
    /// Tick at which the key went down.
    pub press_tick: u64,
}

/// An armed one-shot layer.
#[derive(Clone, Copy, Debug, PartialEq, Eq, Structural)]
pub struct OneShotState {
    /// The layer pushed when the one-shot was armed.
    pub layer: u8,
    /// Tick after which an unconsumed one-shot expires.
    pub deadline: u64,
    /// Position of the non-layer key that consumed the one-shot; its
    /// release pops the layer.
    pub consumed_by: Option<KeyPosition>,
}

/// A position currently held, with the action that was applied at press
/// time; its release undoes exactly that action, whatever the stack
/// looks like by then.
#[derive(Clone, Copy, Debug, PartialEq, Eq, Structural)]
pub struct HeldKey {
    pub row: u8,
    pub col: u8,
    pub action: KeyAction,
}

/// The layer the pending decision would activate when held.
pub open spec fn pending_layer(k: PendingKind) -> u8 {
    match k {
        PendingKind::TapHold { layer, .. } => layer,
        PendingKind::TapToggle { layer } => layer,
    }
}

/// The engine state owned by the scan/resolve task.
#[derive(Clone, Debug)]
pub struct Keyboard {
    pub layout: Layout,
    pub stack: LayerStack,
    pub report: ReportState,
    /// Held positions with the action applied at their press.
    pub held: Vec<HeldKey>,
    pub one_shot: Option<OneShotState>,
    pub pending: Option<PendingTapHold>,
    pub config: KeyboardConfig,
}

/// A keyboard report message carrying exactly the given modifier byte and
/// key slots.
pub open spec fn report_msg_keys(m: KeyboardReportMessage, modifier: u8, keys: Seq<u8>) -> bool {
    match m {
        KeyboardReportMessage::Keyboard(rep) => {
            &&& rep.modifier == modifier
            &&& rep.reserved == 0
            &&& forall|i: int|
                0 <= i < 6 ==> rep.keycodes@[i] == (if i < keys.len() {
                    keys[i]
                } else {
                    0
                })
        },
        _ => false,
    }
}

/// A keyboard report message that snapshots the given report state.
pub open spec fn report_msg_of(m: KeyboardReportMessage, rs: ReportState) -> bool {
    report_msg_keys(m, rs.spec_modifier_byte(), rs.keycodes@)
}

/// The one-shot state after a non-layer key press at `pos`: an armed,
/// unconsumed one-shot is claimed by that position.
pub open spec fn os_marked(os: Option<OneShotState>, pos: KeyPosition) -> Option<OneShotState> {
    match os {
        Some(o) => if o.consumed_by is None {
            Some(OneShotState { consumed_by: Some(pos), ..o })
        } else {
            Some(o)
        },
        None => None,
    }
}

/// Saturating tick addition, for deadline arithmetic.
pub fn sat_add(a: u64, b: u64) -> (r: u64)
    ensures
        r == (if a + b <= u64::MAX {
            a + b
        } else {
            u64::MAX as int
        }),
{
    if a > u64::MAX - b {
        u64::MAX
    } else {
        a + b
    }
}

/// Ticks elapsed since `t0`, clamped at zero for out-of-order clocks.
pub fn elapsed_since(now: u64, t0: u64) -> (r: u64)
    ensures
        r == (if now >= t0 {
            now - t0
        } else {
            0
        }),
{
    if now >= t0 {
        now - t0
    } else {
        0
    }
}

impl Keyboard {
    /// Engine invariant.
    pub open spec fn wf(self) -> bool {
        &&& self.layout.wf()
        &&& self.stack.wf()
        &&& self.stack.num_layers == self.layout.num_layers
        &&& self.report.wf()
        &&& match self.pending {
            Some(p) => p.row < self.layout.rows && p.col < self.layout.cols && pending_layer(
                p.kind,
            ) < self.layout.num_layers,
            None => true,
        }
        &&& match self.one_shot {
            Some(o) => o.layer < self.layout.num_layers,
            None => true,
        }
    }

    /// A fresh engine over a validated layout: base layer only, nothing
    /// held, nothing pending.
    pub fn new(layout: Layout, config: KeyboardConfig) -> (r: Keyboard)
        requires
            layout.wf(),
        ensures
            r.wf(),
            r.layout == layout,
            r.config == config,
            r.stack.stack@ == seq![0u8],
            r.report.keycodes@ == Seq::<u8>::empty(),
            r.held@ == Seq::<HeldKey>::empty(),
            r.one_shot is None,
            r.pending is None,
    {
        let num_layers = layout.num_layers;
        Keyboard {
            layout,
            stack: LayerStack::new(num_layers),
            report: ReportState::new(),
            held: Vec::new(),
            one_shot: None,
            pending: None,
            config,
        }
    }

    /// Emit a snapshot of the current report state.
    fn emit_report(&self, msgs: &mut Vec<KeyboardReportMessage>)
        requires
            self.report.wf(),
        ensures
            final(msgs)@.len() == old(msgs)@.len() + 1,
            final(msgs)@ == old(msgs)@.push(final(msgs)@.last()),
            report_msg_of(final(msgs)@.last(), self.report),
    {
        let rep: KeyboardReport = self.report.to_report();
        msgs.push(KeyboardReportMessage::Keyboard(rep));
    }

    /// Resolve the outstanding tap-hold decision, if any, as a hold:
    /// a `TapHold` pushes its layer and is recorded as held so its
    /// release pops it again; a held `TapToggle` is a no-op layer action
    /// and only clears the decision.
    pub fn resolve_pending_hold(&mut self, msgs: &mut Vec<KeyboardReportMessage>)
        requires
            old(self).wf(),
            old(self).stack.stack@.len() < usize::MAX,
            old(self).held@.len() < usize::MAX,
        ensures
            final(self).wf(),
            final(self).pending is None,
            final(self).layout == old(self).layout,
            final(self).config == old(self).config,
            final(self).report == old(self).report,
            final(self).one_shot == old(self).one_shot,
            match old(self).pending {
                None => *final(self) == *old(self) && final(msgs)@ == old(msgs)@,
                Some(p) => match p.kind {
                    PendingKind::TapHold { layer, .. } => {
                        &&& final(self).stack.stack@ == old(self).stack.stack@.push(layer)
                        &&& final(self).held@ == old(self).held@.push(
                            HeldKey {
                                row: p.row,
                                col: p.col,
                                action: KeyAction::MomentaryLayer(layer),
                            },
                        )
                        &&& final(msgs)@ == old(msgs)@.push(
                            KeyboardReportMessage::LayerChanged(layer, true),
                        )
                    },
                    PendingKind::TapToggle { .. } => {
                        &&& final(self).stack == old(self).stack
                        &&& final(self).held == old(self).held
                        &&& final(msgs)@ == old(msgs)@
                    },
                },
            },
    {
        let pending = self.pending;
        match pending {
            None => {},
            Some(p) => {
                self.pending = None;
                match p.kind {
                    PendingKind::TapHold { layer, tap_code: _ } => {
                        self.stack.push_layer(layer);
                        self.held.push(
                            HeldKey { row: p.row, col: p.col, action: KeyAction::MomentaryLayer(layer) },
                        );
                        msgs.push(KeyboardReportMessage::LayerChanged(layer, true));
                    },
                    PendingKind::TapToggle { .. } => {},
                }
            },
        }
    }

    /// Apply a press edge once no tap-hold decision is outstanding:
    /// the position resolves through the layer stack (`spec_resolve`)
    /// and the resolved action's press effect is applied.
    pub fn on_press(&mut self, row: u8, col: u8, now: u64, msgs: &mut Vec<KeyboardReportMessage>)
        requires
            old(self).wf(),
            old(self).pending is None,
            row < old(self).layout.rows,
            col < old(self).layout.cols,
            old(self).stack.stack@.len() < usize::MAX - 1,
            old(self).held@.len() < usize::MAX,
        ensures
            final(self).wf(),
            final(self).layout == old(self).layout,
            final(self).config == old(self).config,
            press_post(
                old(self).layout,
                old(self).config,
                old(self).stack.stack@,
                old(self).report,
                old(self).one_shot,
                old(self).held@,
                *final(self),
                row,
                col,
                now,
                old(msgs)@,
                final(msgs)@,
            ),
    {
        proof {
            crate::layer::lemma_resolve_action_in_range(
                self.layout,
                self.stack.stack@,
                row as int,
                col as int,
            );
        }
        let action = resolve_position(&self.layout, &self.stack, row as usize, col as usize);
        match action {
            KeyAction::Key(code) => {
                if code != 0 {
                    let outcome = self.report.press_key(code);
                    if outcome == PressOutcome::Added {
                        self.held.push(HeldKey { row, col, action: KeyAction::Key(code) });
                        self.emit_report(msgs);
                    }
                }
                self.mark_one_shot(row, col);
            },
            KeyAction::KeyWithModifier(code, mods) => {
                if code != 0 {
                    let outcome = self.report.press_key(code);
                    if outcome == PressOutcome::Added {
                        let bits = mods.hid_byte();
                        self.report.press_modifier_bits(bits);
                        self.held.push(
                            HeldKey { row, col, action: KeyAction::KeyWithModifier(code, mods) },
                        );
                        self.emit_report(msgs);
                    }
                }
                self.mark_one_shot(row, col);
            },
            KeyAction::MomentaryLayer(n) => {
                self.stack.push_layer(n);
                self.held.push(HeldKey { row, col, action: KeyAction::MomentaryLayer(n) });
                msgs.push(KeyboardReportMessage::LayerChanged(n, true));
            },
            KeyAction::LayerWithModifier(n, mods) => {
                self.stack.push_layer(n);
                let bits = mods.hid_byte();
                self.report.press_modifier_bits(bits);
                self.held.push(HeldKey { row, col, action: KeyAction::LayerWithModifier(n, mods) });
                msgs.push(KeyboardReportMessage::LayerChanged(n, true));
                let ghost before = msgs@;
                self.emit_report(msgs);
                proof {
                    assert(msgs@.take(old(msgs)@.len() as int) =~= old(msgs)@);
                }
            },
            KeyAction::ToggleLayer(n) => {
                let was_active = {
                    let removed = self.stack.pop_layer(n);
                    if !removed {
                        self.stack.push_layer(n);
                    }
                    removed
                };
                msgs.push(KeyboardReportMessage::LayerChanged(n, !was_active));
            },
            KeyAction::OneShotLayer(n) => {
                match self.one_shot {
                    Some(o) => {
                        let removed = self.stack.pop_layer(o.layer);
                        proof {
                            if removed {
                                crate::layer::lemma_top_index_sound(
                                    old(self).stack.stack@,
                                    o.layer,
                                );
                            }
                        }
                        if removed {
                            msgs.push(KeyboardReportMessage::LayerChanged(o.layer, false));
                        }
                    },
                    None => {},
                }
                self.stack.push_layer(n);
                let deadline = sat_add(now, self.config.one_shot_timeout);
                self.one_shot = Some(OneShotState { layer: n, deadline, consumed_by: None });
                msgs.push(KeyboardReportMessage::LayerChanged(n, true));
            },
            KeyAction::TapHoldLayer(n, code) => {
                self.pending = Some(
                    PendingTapHold {
                        row,
                        col,
                        kind: PendingKind::TapHold { layer: n, tap_code: code },
                        press_tick: now,
                    },
                );
            },
            KeyAction::TapToggle(n) => {
                self.pending = Some(
                    PendingTapHold {
                        row,
                        col,
                        kind: PendingKind::TapToggle { layer: n },
                        press_tick: now,
                    },
                );
            },
            _ => {
                self.mark_one_shot(row, col);
            },
        }
    }

    /// Apply one debounced edge. A press while a tap-hold decision is
    /// outstanding first forces that decision to resolve as a hold — the
    /// buffering policy: any interleaving press decides — and the pressed
    /// position then resolves over the resulting stack. A release either
    /// settles the decision (tap or hold) or undoes the action recorded
    /// at the key's press.
    pub fn process_edge(
        &mut self,
        row: u8,
        col: u8,
        edge: crate::debounce::KeyEdge,
        now: u64,
        msgs: &mut Vec<KeyboardReportMessage>,
    )
        requires
            old(self).wf(),
            row < old(self).layout.rows,
            col < old(self).layout.cols,
            old(self).stack.stack@.len() < usize::MAX - 2,
            old(self).held@.len() < usize::MAX - 1,
        ensures
            final(self).wf(),
            final(self).layout == old(self).layout,
            final(self).config == old(self).config,
            edge == crate::debounce::KeyEdge::Released ==> (match old(self).pending {
                Some(p) => if p.row == row && p.col == col {
                    release_pending_post(*old(self), *final(self), p, now, old(msgs)@, final(msgs)@)
                } else {
                    release_plain_post(*old(self), *final(self), row, col, old(msgs)@, final(msgs)@)
                },
                None => release_plain_post(
                    *old(self),
                    *final(self),
                    row,
                    col,
                    old(msgs)@,
                    final(msgs)@,
                ),
            }),
            edge == crate::debounce::KeyEdge::Pressed ==> (match old(self).pending {
                None => press_post(
                    old(self).layout,
                    old(self).config,
                    old(self).stack.stack@,
                    old(self).report,
                    old(self).one_shot,
                    old(self).held@,
                    *final(self),
                    row,
                    col,
                    now,
                    old(msgs)@,
                    final(msgs)@,
                ),
                Some(p) => match p.kind {
                    PendingKind::TapHold { layer, .. } => press_post(
                        old(self).layout,
                        old(self).config,
                        old(self).stack.stack@.push(layer),
                        old(self).report,
                        old(self).one_shot,
                        old(self).held@.push(
                            HeldKey {
                                row: p.row,
                                col: p.col,
                                action: KeyAction::MomentaryLayer(layer),
                            },
                        ),
                        *final(self),
                        row,
                        col,
                        now,
                        old(msgs)@.push(KeyboardReportMessage::LayerChanged(layer, true)),
                        final(msgs)@,
                    ),
                    PendingKind::TapToggle { .. } => press_post(
                        old(self).layout,
                        old(self).config,
                        old(self).stack.stack@,
                        old(self).report,
                        old(self).one_shot,
                        old(self).held@,
                        *final(self),
                        row,
                        col,
                        now,
                        old(msgs)@,
                        final(msgs)@,
                    ),
                },
            }),
    {
        match edge {
            crate::debounce::KeyEdge::Pressed => {
                self.resolve_pending_hold(msgs);
                self.on_press(row, col, now, msgs);
            },
            crate::debounce::KeyEdge::Released => {
                self.on_release(row, col, now, msgs);
            },
        }
    }

    /// First held entry recorded for the position, if any.
    fn find_held(&self, row: u8, col: u8) -> (r: Option<usize>)
        ensures
            match r {
                Some(i) => i < self.held@.len() && self.held@[i as int].row == row
                    && self.held@[i as int].col == col && (forall|j: int|
                    0 <= j < i ==> !(self.held@[j].row == row && self.held@[j].col == col)),
                None => forall|i: int|
                    0 <= i < self.held@.len() ==> !(#[trigger] self.held@[i].row == row
                        && self.held@[i].col == col),
            },
    {
        let mut i: usize = 0;
        while i < self.held.len()
            invariant
                i <= self.held@.len(),
                forall|j: int| 0 <= j < i ==> !(#[trigger] self.held@[j].row == row
                    && self.held@[j].col == col),
            decreases self.held@.len() - i,
        {
            let h = self.held[i];
            if h.row == row && h.col == col {
                return Some(i);
            }
            i = i + 1;
        }
        None
    }

    /// Pop layer `n`'s topmost overlay occurrence and announce it, if one
    /// is active.
    fn pop_and_announce(&mut self, n: u8, msgs: &mut Vec<KeyboardReportMessage>)
        requires
            old(self).wf(),
        ensures
            final(self).wf(),
            *final(self) == (Keyboard { stack: final(self).stack, ..*old(self) }),
            final(self).stack.num_layers == old(self).stack.num_layers,
            final(self).stack.stack@ == popped_stack(old(self).stack.stack@, n),
            final(msgs)@ == popped_msgs(old(msgs)@, old(self).stack.stack@, n),
    {
        let removed = self.stack.pop_layer(n);
        if removed {
            msgs.push(KeyboardReportMessage::LayerChanged(n, false));
        }
    }

    /// Apply a release edge: settle a tap-hold decision made by this
    /// position, or undo the action recorded at the key's press, and pop
    /// a one-shot layer this release consumes.
    pub fn on_release(&mut self, row: u8, col: u8, now: u64, msgs: &mut Vec<KeyboardReportMessage>)
        requires
            old(self).wf(),
            row < old(self).layout.rows,
            col < old(self).layout.cols,
            old(self).stack.stack@.len() < usize::MAX - 1,
        ensures
            final(self).wf(),
            final(self).layout == old(self).layout,
            final(self).config == old(self).config,
            (match old(self).pending {
                Some(p) => if p.row == row && p.col == col {
                    release_pending_post(*old(self), *final(self), p, now, old(msgs)@, final(msgs)@)
                } else {
                    release_plain_post(*old(self), *final(self), row, col, old(msgs)@, final(msgs)@)
                },
                None => release_plain_post(
                    *old(self),
                    *final(self),
                    row,
                    col,
                    old(msgs)@,
                    final(msgs)@,
                ),
            }),
    {
        let pending = self.pending;
        match pending {
            Some(p) => {
                if p.row == row && p.col == col {
                    self.release_settles_pending(p, now, msgs);
                    return ;
                }
            },
            None => {},
        }
        let ghost mut pfx: Seq<KeyboardReportMessage> = old(msgs)@;
        let found = self.find_held(row, col);
        match found {
            Some(i) => {
                let h = self.held[i];
                self.held.remove(i);
                match h.action {
                    KeyAction::Key(code) => {
                        let was = self.report.release_key(code);
                        if was {
                            self.emit_report(msgs);
                        }
                    },
                    KeyAction::KeyWithModifier(code, mods) => {
                        self.report.release_key(code);
                        let bits = mods.hid_byte();
                        self.report.release_modifier_bits(bits);
                        self.emit_report(msgs);
                    },
                    KeyAction::MomentaryLayer(n) => {
                        self.pop_and_announce(n, msgs);
                    },
                    KeyAction::LayerWithModifier(n, mods) => {
                        self.pop_and_announce(n, msgs);
                        proof {
                            pfx = msgs@;
                        }
                        let bits = mods.hid_byte();
                        self.report.release_modifier_bits(bits);
                        self.emit_report(msgs);
                    },
                    _ => {},
                }
            },
            None => {},
        }
        let due = match self.one_shot {
            Some(o) => match o.consumed_by {
                Some(pos) => pos.row == row && pos.col == col,
                None => false,
            },
            None => false,
        };
        if due {
            let osl = match self.one_shot {
                Some(o) => o.layer,
                None => 0,
            };
            self.pop_and_announce(osl, msgs);
            self.one_shot = None;
        }
        proof {
            assert(msgs@.take(pfx.len() as int) =~= pfx);
            assert(msgs@.take(old(msgs)@.len() as int) =~= old(msgs)@);
        }
    }

    /// Settle the outstanding tap-hold decision on release of its own key.
    fn release_settles_pending(
        &mut self,
        p: PendingTapHold,
        now: u64,
        msgs: &mut Vec<KeyboardReportMessage>,
    )
        requires
            old(self).wf(),
            old(self).pending == Some(p),
            old(self).stack.stack@.len() < usize::MAX - 1,
        ensures
            final(self).wf(),
            final(self).layout == old(self).layout,
            final(self).config == old(self).config,
            release_pending_post(*old(self), *final(self), p, now, old(msgs)@, final(msgs)@),
    {
        self.pending = None;
        let held_long = elapsed_since(now, p.press_tick) >= self.config.hold_timeout;
        match p.kind {
            PendingKind::TapHold { layer, tap_code } => {
                if held_long {
                    msgs.push(KeyboardReportMessage::LayerChanged(layer, true));
                    msgs.push(KeyboardReportMessage::LayerChanged(layer, false));
                } else {
                    if tap_code != 0 {
                        let ghost pre_report = self.report;
                        let outcome = self.report.press_key(tap_code);
                        if outcome == PressOutcome::Added {
                            self.emit_report(msgs);
                            let ghost mid_report = self.report;
                            self.report.release_key(tap_code);
                            proof {
                                let kpre = pre_report.keycodes@;
                                assert(mid_report.keycodes@ == kpre.push(tap_code));
                                assert(mid_report.keycodes@[kpre.len() as int] == tap_code);
                                assert(mid_report.spec_contains_key(tap_code));
                                assert(exists|j: int|
                                    0 <= j < mid_report.keycodes@.len()
                                        && mid_report.keycodes@[j] == tap_code
                                        && self.report.keycodes@ == mid_report.keycodes@.remove(
                                        j,
                                    ));
                                let j = choose|j: int|
                                    0 <= j < mid_report.keycodes@.len()
                                        && mid_report.keycodes@[j] == tap_code
                                        && self.report.keycodes@ == mid_report.keycodes@.remove(j);
                                if j < kpre.len() {
                                    assert(kpre[j] == tap_code);
                                    assert(pre_report.spec_contains_key(tap_code));
                                }
                                assert(j == kpre.len());
                                assert(kpre.push(tap_code).remove(kpre.len() as int) =~= kpre);
                            }
                            self.emit_report(msgs);
                        }
                    }
                    let do_pop = match self.one_shot {
                        Some(o) => o.consumed_by.is_none(),
                        None => false,
                    };
                    if do_pop {
                        let osl = match self.one_shot {
                            Some(o) => o.layer,
                            None => 0,
                        };
                        self.pop_and_announce(osl, msgs);
                        self.one_shot = None;
                    }
                    proof {
                        assert(msgs@.take(old(msgs)@.len() as int) =~= old(msgs)@);
                    }
                }
            },
            PendingKind::TapToggle { layer } => {
                if !held_long {
                    let removed = self.stack.pop_layer(layer);
                    if !removed {
                        self.stack.push_layer(layer);
                    }
                    msgs.push(KeyboardReportMessage::LayerChanged(layer, !removed));
                }
            },
        }
    }

    /// Advance time: a tap-hold decision whose hold threshold has elapsed
    /// resolves as a hold, and an armed one-shot layer that was never
    /// consumed expires and is popped.
    pub fn tick(&mut self, now: u64, msgs: &mut Vec<KeyboardReportMessage>)
        requires
            old(self).wf(),
            old(self).stack.stack@.len() < usize::MAX,
            old(self).held@.len() < usize::MAX,
        ensures
            final(self).wf(),
            final(self).layout == old(self).layout,
            final(self).config == old(self).config,
            final(self).report == old(self).report,
            ({
                let p_expired = match old(self).pending {
                    Some(p) => (if now >= p.press_tick {
                        now - p.press_tick
                    } else {
                        0
                    }) >= old(self).config.hold_timeout,
                    None => false,
                };
                let held_hold = p_expired && old(self).pending->Some_0.kind is TapHold;
                let hl = pending_layer(old(self).pending->Some_0.kind);
                let s1 = if held_hold {
                    old(self).stack.stack@.push(hl)
                } else {
                    old(self).stack.stack@
                };
                let m1 = if held_hold {
                    old(msgs)@.push(KeyboardReportMessage::LayerChanged(hl, true))
                } else {
                    old(msgs)@
                };
                let os_exp = match old(self).one_shot {
                    Some(o) => o.consumed_by is None && now >= o.deadline,
                    None => false,
                };
                let osl = os_layer_of(old(self).one_shot);
                &&& final(self).pending == (if p_expired {
                    Option::<PendingTapHold>::None
                } else {
                    old(self).pending
                })
                &&& final(self).held@ == (if held_hold {
                    old(self).held@.push(
                        HeldKey {
                            row: old(self).pending->Some_0.row,
                            col: old(self).pending->Some_0.col,
                            action: KeyAction::MomentaryLayer(hl),
                        },
                    )
                } else {
                    old(self).held@
                })
                &&& final(self).one_shot == (if os_exp {
                    Option::<OneShotState>::None
                } else {
                    old(self).one_shot
                })
                &&& final(self).stack.stack@ == (if os_exp {
                    popped_stack(s1, osl)
                } else {
                    s1
                })
                &&& final(msgs)@ == (if os_exp {
                    popped_msgs(m1, s1, osl)
                } else {
                    m1
                })
            }),
    {
        let expired = match self.pending {
            Some(p) => elapsed_since(now, p.press_tick) >= self.config.hold_timeout,
            None => false,
        };
        if expired {
            self.resolve_pending_hold(msgs);
        }
        let os_exp = match self.one_shot {
            Some(o) => o.consumed_by.is_none() && now >= o.deadline,
            None => false,
        };
        if os_exp {
            let osl = match self.one_shot {
                Some(o) => o.layer,
                None => 0,
            };
            self.pop_and_announce(osl, msgs);
            self.one_shot = None;
        }
    }

    /// Discard transient session state on transport loss: the tap-hold
    /// decision and one-shot arm die with the session; an armed one-shot
    /// layer is popped silently so the next session starts clean.
    pub fn discard_transients(&mut self)
        requires
            old(self).wf(),
        ensures
            final(self).wf(),
            final(self).layout == old(self).layout,
            final(self).config == old(self).config,
            final(self).report == old(self).report,
            final(self).held == old(self).held,
            final(self).pending is None,
            final(self).one_shot is None,
            final(self).stack.stack@ == (match old(self).one_shot {
                Some(o) => popped_stack(old(self).stack.stack@, o.layer),
                None => old(self).stack.stack@,
            }),
    {
        self.pending = None;
        match self.one_shot {
            Some(o) => {
                self.stack.pop_layer(o.layer);
                self.one_shot = None;
            },
            None => {},
        }
    }

    /// Claim an armed, unconsumed one-shot for the key at `(row, col)`.
    fn mark_one_shot(&mut self, row: u8, col: u8)
        ensures
            *final(self) == (Keyboard {
                one_shot: os_marked(old(self).one_shot, KeyPosition { row, col }),
                ..*old(self)
            }),
    {
        match self.one_shot {
            Some(o) => {
                if o.consumed_by.is_none() {
                    self.one_shot = Some(
                        OneShotState { layer: o.layer, deadline: o.deadline, consumed_by: Some(
                            KeyPosition { row, col },
                        ) },
                    );
                }
            },
            None => {},
        }
    }
}

/// What a press edge does once no decision is outstanding: the
/// position resolves through the given stack, and the resolved action's
/// press effect is applied. The pre-state pieces are passed apart so the
/// same relation also describes a press that first forced a pending
/// tap-hold decision to resolve as a hold.
pub open spec fn press_post(
    layout: Layout,
    cfg: KeyboardConfig,
    s: Seq<u8>,
    rep: ReportState,
    os: Option<OneShotState>,
    held: Seq<HeldKey>,
    post: Keyboard,
    row: u8,
    col: u8,
    now: u64,
    m0: Seq<KeyboardReportMessage>,
    m1: Seq<KeyboardReportMessage>,
) -> bool {
    (match spec_resolve(layout, s, row as int, col as int) {
                KeyAction::Key(code) => {
                    &&& post.stack.stack@ == s
                    &&& post.pending is None
                    &&& post.one_shot == os_marked(
                        os,
                        KeyPosition { row, col },
                    )
                    &&& post.report.mod_counts == rep.mod_counts
                    &&& (if code != 0 && !rep.spec_contains_key(code) && rep.keycodes@.len() < 6 {
                        &&& post.report.keycodes@ == rep.keycodes@.push(code)
                        &&& post.held@ == held.push(
                            HeldKey { row, col, action: KeyAction::Key(code) },
                        )
                        &&& m1 == m0.push(m1.last())
                        &&& report_msg_of(m1.last(), post.report)
                    } else {
                        &&& post.report == rep
                        &&& post.held@ == held
                        &&& m1 == m0
                    })
                },
                KeyAction::KeyWithModifier(code, mods) => {
                    &&& post.stack.stack@ == s
                    &&& post.pending is None
                    &&& post.one_shot == os_marked(
                        os,
                        KeyPosition { row, col },
                    )
                    &&& (if code != 0 && !rep.spec_contains_key(code) && rep.keycodes@.len() < 6 {
                        &&& post.report.keycodes@ == rep.keycodes@.push(code)
                        &&& (forall|i: int|
                            0 <= i < 8 ==> post.report.mod_counts@[i]
                                == crate::report::spec_bumped(
                                rep.mod_counts@[i],
                                mods.spec_hid_byte(),
                                i,
                            ))
                        &&& post.held@ == held.push(
                            HeldKey { row, col, action: KeyAction::KeyWithModifier(code, mods) },
                        )
                        &&& m1 == m0.push(m1.last())
                        &&& report_msg_of(m1.last(), post.report)
                    } else {
                        &&& post.report == rep
                        &&& post.held@ == held
                        &&& m1 == m0
                    })
                },
                KeyAction::MomentaryLayer(n) => {
                    &&& post.stack.stack@ == s.push(n)
                    &&& post.report == rep
                    &&& post.one_shot == os
                    &&& post.pending is None
                    &&& post.held@ == held.push(
                        HeldKey { row, col, action: KeyAction::MomentaryLayer(n) },
                    )
                    &&& m1 == m0.push(
                        KeyboardReportMessage::LayerChanged(n, true),
                    )
                },
                KeyAction::LayerWithModifier(n, mods) => {
                    &&& post.stack.stack@ == s.push(n)
                    &&& post.report.keycodes == rep.keycodes
                    &&& (forall|i: int|
                        0 <= i < 8 ==> post.report.mod_counts@[i]
                            == crate::report::spec_bumped(
                            rep.mod_counts@[i],
                            mods.spec_hid_byte(),
                            i,
                        ))
                    &&& post.one_shot == os
                    &&& post.pending is None
                    &&& post.held@ == held.push(
                        HeldKey { row, col, action: KeyAction::LayerWithModifier(n, mods) },
                    )
                    &&& m1.len() == m0.len() + 2
                    &&& m1[m1.len() - 2] == KeyboardReportMessage::LayerChanged(
                        n,
                        true,
                    )
                    &&& report_msg_of(m1.last(), post.report)
                    &&& m1.take(m0.len() as int) == m0
                },
                KeyAction::ToggleLayer(n) => {
                    &&& (if top_index_of(s, n) >= 1 {
                        post.stack.stack@ == s.remove(
                            top_index_of(s, n),
                        )
                    } else {
                        post.stack.stack@ == s.push(n)
                    })
                    &&& post.report == rep
                    &&& post.one_shot == os
                    &&& post.pending is None
                    &&& post.held@ == held
                    &&& m1 == m0.push(
                        KeyboardReportMessage::LayerChanged(
                            n,
                            !(top_index_of(s, n) >= 1),
                        ),
                    )
                },
                KeyAction::OneShotLayer(n) => {
                    &&& post.stack.stack@ == os_popped_stack(
                        s,
                        os,
                    ).push(n)
                    &&& post.report == rep
                    &&& post.one_shot == Some(
                        OneShotState {
                            layer: n,
                            deadline: (if now + cfg.one_shot_timeout <= u64::MAX {
                                (now + cfg.one_shot_timeout) as u64
                            } else {
                                u64::MAX
                            }),
                            consumed_by: None,
                        },
                    )
                    &&& post.pending is None
                    &&& post.held@ == held
                    &&& m1 == os_pop_msgs(os, s,
                    m0).push(KeyboardReportMessage::LayerChanged(n, true))
                },
                KeyAction::TapHoldLayer(n, code) => {
                    &&& post.stack.stack@ == s
                    &&& post.report == rep
                    &&& post.one_shot == os
                    &&& post.held@ == held
                    &&& post.pending == Some(
                        PendingTapHold {
                            row,
                            col,
                            kind: PendingKind::TapHold { layer: n, tap_code: code },
                            press_tick: now,
                        },
                    )
                    &&& m1 == m0
                },
                KeyAction::TapToggle(n) => {
                    &&& post.stack.stack@ == s
                    &&& post.report == rep
                    &&& post.one_shot == os
                    &&& post.held@ == held
                    &&& post.pending == Some(
                        PendingTapHold {
                            row,
                            col,
                            kind: PendingKind::TapToggle { layer: n },
                            press_tick: now,
                        },
                    )
                    &&& m1 == m0
                },
                _ => {
                    &&& post.stack.stack@ == s
                    &&& post.report == rep
                    &&& post.pending is None
                    &&& post.held@ == held
                    &&& post.one_shot == os_marked(
                        os,
                        KeyPosition { row, col },
                    )
                    &&& m1 == m0
                },
            })
}

/// Same observable report contents, whatever the backing storage.
pub open spec fn report_equiv(a: ReportState, b: ReportState) -> bool {
    &&& a.keycodes@ == b.keycodes@
    &&& a.mod_counts@ == b.mod_counts@
    &&& a.media == b.media
    &&& a.system == b.system
}

/// The armed one-shot layer, when any.
pub open spec fn os_layer_of(os: Option<OneShotState>) -> u8 {
    match os {
        Some(o) => o.layer,
        None => 0,
    }
}

/// What a release edge does when it settles the outstanding tap-hold
/// decision (the released position is the pending one).
pub open spec fn release_pending_post(
    pre: Keyboard,
    post: Keyboard,
    p: PendingTapHold,
    now: u64,
    m0: Seq<KeyboardReportMessage>,
    m1: Seq<KeyboardReportMessage>,
) -> bool {
    let held_long = (if now >= p.press_tick {
        now - p.press_tick
    } else {
        0
    }) >= pre.config.hold_timeout;
    &&& post.pending is None
    &&& post.held == pre.held
    &&& match p.kind {
        PendingKind::TapHold { layer, tap_code } => if held_long {
            // The hold threshold had already elapsed: the key resolves as
            // a hold whose release follows at once; the layer blinks.
            &&& post.stack == pre.stack
            &&& post.report == pre.report
            &&& post.one_shot == pre.one_shot
            &&& m1 == m0.push(KeyboardReportMessage::LayerChanged(layer, true)).push(
                KeyboardReportMessage::LayerChanged(layer, false),
            )
        } else {
            // A tap: the tap keycode is pressed and released, and it
            // consumes an armed, unconsumed one-shot layer.
            let tapped = tap_code != 0 && !pre.report.spec_contains_key(tap_code)
                && pre.report.keycodes@.len() < 6;
            let do_pop = match pre.one_shot {
                Some(o) => o.consumed_by is None,
                None => false,
            };
            let pop_active = do_pop && top_index_of(pre.stack.stack@, os_layer_of(pre.one_shot))
                >= 1;
            &&& report_equiv(post.report, pre.report)
            &&& post.one_shot == (if do_pop {
                Option::<OneShotState>::None
            } else {
                pre.one_shot
            })
            &&& post.stack.stack@ == (if do_pop {
                popped_stack(pre.stack.stack@, os_layer_of(pre.one_shot))
            } else {
                pre.stack.stack@
            })
            &&& (if tapped {
                &&& m1.len() == m0.len() + 2 + (if pop_active {
                    1int
                } else {
                    0int
                })
                &&& m1.take(m0.len() as int) == m0
                &&& report_msg_keys(
                    m1[m0.len() as int],
                    pre.report.spec_modifier_byte(),
                    pre.report.keycodes@.push(tap_code),
                )
                &&& report_msg_keys(
                    m1[m0.len() as int + 1],
                    pre.report.spec_modifier_byte(),
                    pre.report.keycodes@,
                )
                &&& (pop_active ==> m1.last() == KeyboardReportMessage::LayerChanged(
                    os_layer_of(pre.one_shot),
                    false,
                ))
            } else {
                m1 == (if pop_active {
                    m0.push(
                        KeyboardReportMessage::LayerChanged(os_layer_of(pre.one_shot), false),
                    )
                } else {
                    m0
                })
            })
        },
        PendingKind::TapToggle { layer } => if held_long {
            // A held tap-toggle is a no-op layer action.
            &&& post.stack == pre.stack
            &&& post.report == pre.report
            &&& post.one_shot == pre.one_shot
            &&& m1 == m0
        } else {
            &&& post.report == pre.report
            &&& post.one_shot == pre.one_shot
            &&& (if pre.stack.spec_overlay_active(layer) {
                post.stack.stack@ == pre.stack.stack@.remove(
                    top_index_of(pre.stack.stack@, layer),
                )
            } else {
                post.stack.stack@ == pre.stack.stack@.push(layer)
            })
            &&& m1 == m0.push(
                KeyboardReportMessage::LayerChanged(
                    layer,
                    !pre.stack.spec_overlay_active(layer),
                ),
            )
        },
    }
}

/// Whether a release at `pos` must pop the armed one-shot layer: the
/// one-shot was consumed by exactly that position.
pub open spec fn os_release_due(os: Option<OneShotState>, pos: KeyPosition) -> bool {
    match os {
        Some(o) => o.consumed_by == Some(pos),
        None => false,
    }
}

/// The stack after popping layer `n`'s topmost overlay occurrence, if any.
pub open spec fn popped_stack(s: Seq<u8>, n: u8) -> Seq<u8> {
    if top_index_of(s, n) >= 1 {
        s.remove(top_index_of(s, n))
    } else {
        s
    }
}

/// Messages after announcing such a pop, when one happened.
pub open spec fn popped_msgs(msgs: Seq<KeyboardReportMessage>, s: Seq<u8>, n: u8) -> Seq<
    KeyboardReportMessage,
> {
    if top_index_of(s, n) >= 1 {
        msgs.push(KeyboardReportMessage::LayerChanged(n, false))
    } else {
        msgs
    }
}

/// What a release edge does when no tap-hold decision is settled by it:
/// the action recorded at the key's press is undone, and a one-shot
/// consumed by this position is popped afterwards.
pub open spec fn release_plain_post(
    pre: Keyboard,
    post: Keyboard,
    row: u8,
    col: u8,
    m0: Seq<KeyboardReportMessage>,
    m1: Seq<KeyboardReportMessage>,
) -> bool {
    let due = os_release_due(pre.one_shot, KeyPosition { row, col });
    let osl = os_layer_of(pre.one_shot);
    &&& post.pending == pre.pending
    &&& post.one_shot == (if due {
        Option::<OneShotState>::None
    } else {
        pre.one_shot
    })
    &&& (if (exists|i: int|
        0 <= i < pre.held@.len() && #[trigger] pre.held@[i].row == row && pre.held@[i].col
            == col) {
        exists|i: int|
            {
                &&& 0 <= i < pre.held@.len()
                &&& #[trigger] pre.held@[i].row == row
                &&& pre.held@[i].col == col
                &&& (forall|j: int|
                    0 <= j < i ==> !(pre.held@[j].row == row && pre.held@[j].col == col))
                &&& post.held@ == pre.held@.remove(i)
                &&& undo_post(pre, post, pre.held@[i].action, due, osl, m0, m1)
            }
    } else {
        &&& post.held == pre.held
        &&& report_equiv(post.report, pre.report)
        &&& post.stack.stack@ == (if due {
            popped_stack(pre.stack.stack@, osl)
        } else {
            pre.stack.stack@
        })
        &&& m1 == (if due {
            popped_msgs(m0, pre.stack.stack@, osl)
        } else {
            m0
        })
    })
}

/// The undo of one recorded press action, followed by the one-shot pop
/// owed to this release, if any.
pub open spec fn undo_post(
    pre: Keyboard,
    post: Keyboard,
    action: KeyAction,
    due: bool,
    osl: u8,
    m0: Seq<KeyboardReportMessage>,
    m1: Seq<KeyboardReportMessage>,
) -> bool {
    match action {
        KeyAction::Key(code) => {
            let held_key = pre.report.spec_contains_key(code);
            let pop_active = due && top_index_of(pre.stack.stack@, osl) >= 1;
            &&& post.report.mod_counts@ == pre.report.mod_counts@
            &&& post.report.media == pre.report.media
            &&& post.report.system == pre.report.system
            &&& !post.report.spec_contains_key(code)
            &&& (held_key ==> exists|j: int|
                0 <= j < pre.report.keycodes@.len() && pre.report.keycodes@[j] == code
                    && post.report.keycodes@ == pre.report.keycodes@.remove(j))
            &&& (!held_key ==> post.report.keycodes@ == pre.report.keycodes@)
            &&& post.stack.stack@ == (if due {
                popped_stack(pre.stack.stack@, osl)
            } else {
                pre.stack.stack@
            })
            &&& (if held_key {
                &&& m1.len() == m0.len() + 1 + (if pop_active {
                    1int
                } else {
                    0int
                })
                &&& m1.take(m0.len() as int) == m0
                &&& report_msg_of(m1[m0.len() as int], post.report)
                &&& (pop_active ==> m1.last() == KeyboardReportMessage::LayerChanged(osl, false))
            } else {
                m1 == (if pop_active {
                    m0.push(KeyboardReportMessage::LayerChanged(osl, false))
                } else {
                    m0
                })
            })
        },
        KeyAction::KeyWithModifier(code, mods) => {
            let pop_active = due && top_index_of(pre.stack.stack@, osl) >= 1;
            &&& (forall|i: int|
                0 <= i < 8 ==> post.report.mod_counts@[i] == crate::report::spec_dropped(
                    pre.report.mod_counts@[i],
                    mods.spec_hid_byte(),
                    i,
                ))
            &&& post.report.media == pre.report.media
            &&& post.report.system == pre.report.system
            &&& !post.report.spec_contains_key(code)
            &&& (pre.report.spec_contains_key(code) ==> exists|j: int|
                0 <= j < pre.report.keycodes@.len() && pre.report.keycodes@[j] == code
                    && post.report.keycodes@ == pre.report.keycodes@.remove(j))
            &&& (!pre.report.spec_contains_key(code) ==> post.report.keycodes@
                == pre.report.keycodes@)
            &&& post.stack.stack@ == (if due {
                popped_stack(pre.stack.stack@, osl)
            } else {
                pre.stack.stack@
            })
            &&& m1.len() == m0.len() + 1 + (if pop_active {
                1int
            } else {
                0int
            })
            &&& m1.take(m0.len() as int) == m0
            &&& report_msg_of(m1[m0.len() as int], post.report)
            &&& (pop_active ==> m1.last() == KeyboardReportMessage::LayerChanged(osl, false))
        },
        KeyAction::MomentaryLayer(n) => {
            let s1 = popped_stack(pre.stack.stack@, n);
            let b1 = popped_msgs(m0, pre.stack.stack@, n);
            let pop_active = due && top_index_of(s1, osl) >= 1;
            &&& report_equiv(post.report, pre.report)
            &&& post.stack.stack@ == (if due {
                popped_stack(s1, osl)
            } else {
                s1
            })
            &&& m1 == (if pop_active {
                b1.push(KeyboardReportMessage::LayerChanged(osl, false))
            } else {
                b1
            })
        },
        KeyAction::LayerWithModifier(n, mods) => {
            let s1 = popped_stack(pre.stack.stack@, n);
            let b1 = popped_msgs(m0, pre.stack.stack@, n);
            let pop_active = due && top_index_of(s1, osl) >= 1;
            &&& post.report.keycodes@ == pre.report.keycodes@
            &&& post.report.media == pre.report.media
            &&& post.report.system == pre.report.system
            &&& (forall|i: int|
                0 <= i < 8 ==> post.report.mod_counts@[i] == crate::report::spec_dropped(
                    pre.report.mod_counts@[i],
                    mods.spec_hid_byte(),
                    i,
                ))
            &&& post.stack.stack@ == (if due {
                popped_stack(s1, osl)
            } else {
                s1
            })
            &&& m1.len() == b1.len() + 1 + (if pop_active {
                1int
            } else {
                0int
            })
            &&& m1.take(b1.len() as int) == b1
            &&& report_msg_of(m1[b1.len() as int], post.report)
            &&& (pop_active ==> m1.last() == KeyboardReportMessage::LayerChanged(osl, false))
        },
        _ => {
            let pop_active = due && top_index_of(pre.stack.stack@, osl) >= 1;
            &&& report_equiv(post.report, pre.report)
            &&& post.stack.stack@ == (if due {
                popped_stack(pre.stack.stack@, osl)
            } else {
                pre.stack.stack@
            })
            &&& m1 == (if pop_active {
                m0.push(KeyboardReportMessage::LayerChanged(osl, false))
            } else {
                m0
            })
        },
    }
}

/// The stack after a previously armed one-shot layer is popped to make
/// room for a new arm; unchanged when none is armed or its layer is no
/// longer an active overlay.
pub open spec fn os_popped_stack(s: Seq<u8>, os: Option<OneShotState>) -> Seq<u8> {
    match os {
        Some(o) => if top_index_of(s, o.layer) >= 1 {
            s.remove(top_index_of(s, o.layer))
        } else {
            s
        },
        None => s,
    }
}

/// The messages emitted while popping a previously armed one-shot layer.
pub open spec fn os_pop_msgs(os: Option<OneShotState>, s: Seq<u8>, msgs: Seq<
    KeyboardReportMessage,
>) -> Seq<KeyboardReportMessage> {
    match os {
        Some(o) => if top_index_of(s, o.layer) >= 1 {
            msgs.push(KeyboardReportMessage::LayerChanged(o.layer, false))
        } else {
            msgs
        },
        None => msgs,
    }
}

} // verus!
