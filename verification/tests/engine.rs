use rmk_core::action::KeyAction;
use rmk_core::channel::{drain, pump, ReportChannel};
use rmk_core::debounce::{KeyDebouncer, KeyEdge, MatrixDebouncer};
use rmk_core::dispatch::{connection_step, end_session, ConnectionState, DispatchAction, TransportEvent};
use rmk_core::keyboard::{Keyboard, KeyboardConfig};
use rmk_core::keycode::ModifierCombination;
use rmk_core::layer::{resolve_position, LayerStack};
use rmk_core::layout::Layout;
use rmk_core::report::{KeyboardReportMessage, PressOutcome, ReportState};

const KEY_A: u8 = 4;
const KEY_B: u8 = 5;

fn no_row(cols: usize) -> Vec<KeyAction> {
    vec![KeyAction::No; cols]
}

fn transparent_row(cols: usize) -> Vec<KeyAction> {
    vec![KeyAction::Transparent; cols]
}

/// A 2x2, 2-layer layout: base (0,0)=KeyA, (0,1)=MomentaryLayer(1);
/// layer 1 (0,0)=KeyB, rest transparent.
fn demo_layout() -> Layout {
    let base = vec![
        vec![KeyAction::Key(KEY_A), KeyAction::MomentaryLayer(1)],
        no_row(2),
    ];
    let overlay = vec![
        vec![KeyAction::Key(KEY_B), KeyAction::Transparent],
        transparent_row(2),
    ];
    Layout::new(vec![base, overlay], 2, 2, 2).expect("demo layout is well-formed")
}

fn demo_keyboard(layout: Layout) -> Keyboard {
    Keyboard::new(
        layout,
        KeyboardConfig {
            hold_timeout: 200,
            one_shot_timeout: 1000,
        },
    )
}

#[test]
fn resolve_first_non_transparent_top_down() {
    let layout = demo_layout();
    let mut stack = LayerStack::new(2);
    // Base alone: (0,0) is KeyA.
    assert_eq!(resolve_position(&layout, &stack, 0, 0), KeyAction::Key(KEY_A));
    stack.push_layer(1);
    // Layer 1 binds (0,0) concretely: it wins.
    assert_eq!(resolve_position(&layout, &stack, 0, 0), KeyAction::Key(KEY_B));
    // Layer 1 is transparent at (0,1): the base binding terminates the scan.
    assert_eq!(
        resolve_position(&layout, &stack, 0, 1),
        KeyAction::MomentaryLayer(1)
    );
    // Transparent all the way to base on (1,0): base No wins.
    assert_eq!(resolve_position(&layout, &stack, 1, 0), KeyAction::No);
}

#[test]
fn debounce_filters_short_glitch() {
    let mut d = KeyDebouncer::new();
    let threshold = 3;
    // A two-tick glitch, below the threshold of 3: no edge.
    assert_eq!(d.update(true, threshold), None);
    assert_eq!(d.update(true, threshold), None);
    assert_eq!(d.update(false, threshold), None);
    assert!(!d.stable);
    assert_eq!(d.counter, 0);
}

#[test]
fn debounce_requires_exactly_threshold_ticks() {
    let mut d = KeyDebouncer::new();
    let threshold = 3;
    assert_eq!(d.update(true, threshold), None);
    assert_eq!(d.update(true, threshold), None);
    // The third consecutive tick emits the edge, and only then.
    assert_eq!(d.update(true, threshold), Some(KeyEdge::Pressed));
    assert!(d.stable);
    // Releasing takes threshold ticks again.
    assert_eq!(d.update(false, threshold), None);
    assert_eq!(d.update(false, threshold), None);
    assert_eq!(d.update(false, threshold), Some(KeyEdge::Released));
}

#[test]
fn debounce_stuck_position_does_not_stall_others() {
    let mut m = MatrixDebouncer::new(2, 2, 2);
    // Position (0,0) flaps forever and never emits.
    assert_eq!(m.sample(0, 0, true, 2, 2), None);
    assert_eq!(m.sample(0, 0, false, 2, 2), None);
    assert_eq!(m.sample(0, 0, true, 2, 2), None);
    // Position (1,1) still debounces normally.
    assert_eq!(m.sample(1, 1, true, 2, 2), None);
    assert_eq!(m.sample(1, 1, true, 2, 2), Some(KeyEdge::Pressed));
}

#[test]
fn one_shot_layer_applies_to_next_key_then_restores_stack() {
    // Base (0,1) = OSL(1) instead of MO(1).
    let base = vec![
        vec![KeyAction::Key(KEY_A), KeyAction::OneShotLayer(1)],
        no_row(2),
    ];
    let overlay = vec![
        vec![KeyAction::Key(KEY_B), KeyAction::Transparent],
        transparent_row(2),
    ];
    let layout = Layout::new(vec![base, overlay], 2, 2, 2).unwrap();
    let mut kb = demo_keyboard(layout);
    let mut msgs = Vec::new();

    kb.on_press(0, 1, 0, &mut msgs); // press OSL(1)
    assert_eq!(kb.stack.stack, vec![0, 1]);
    kb.on_release(0, 1, 10, &mut msgs); // release of the one-shot key itself: no pop
    assert_eq!(kb.stack.stack, vec![0, 1]);

    msgs.clear();
    kb.on_press(0, 0, 20, &mut msgs); // K resolves per layer 1: KeyB
    match msgs.last().expect("a report was emitted") {
        KeyboardReportMessage::Keyboard(rep) => assert_eq!(rep.keycodes[0], KEY_B),
        other => panic!("unexpected message {:?}", other),
    }
    kb.on_release(0, 0, 30, &mut msgs); // K's release consumes the one-shot
    assert_eq!(kb.stack.stack, vec![0]);
    assert!(kb.one_shot.is_none());
}

#[test]
fn toggle_layer_twice_is_identity() {
    let base = vec![
        vec![KeyAction::Key(KEY_A), KeyAction::ToggleLayer(1)],
        no_row(2),
    ];
    let overlay = vec![
        vec![KeyAction::Key(KEY_B), KeyAction::Transparent],
        transparent_row(2),
    ];
    let layout = Layout::new(vec![base, overlay], 2, 2, 2).unwrap();
    let mut kb = demo_keyboard(layout);
    let mut msgs = Vec::new();

    kb.on_press(0, 1, 0, &mut msgs);
    kb.on_release(0, 1, 10, &mut msgs);
    assert_eq!(kb.stack.stack, vec![0, 1]);
    kb.on_press(0, 1, 20, &mut msgs);
    kb.on_release(0, 1, 30, &mut msgs);
    assert_eq!(kb.stack.stack, vec![0]);
}

#[test]
fn rollover_keeps_first_six_keys() {
    let mut rs = ReportState::new();
    for code in 4..10u8 {
        assert_eq!(rs.press_key(code), PressOutcome::Added);
    }
    // The seventh simultaneous key is dropped, fail-closed.
    assert_eq!(rs.press_key(10), PressOutcome::RolloverDropped);
    let rep = rs.to_report();
    assert_eq!(rep.keycodes, [4, 5, 6, 7, 8, 9]);
    // Freeing a slot lets the key in on the next press.
    assert!(rs.release_key(4));
    assert_eq!(rs.press_key(10), PressOutcome::Added);
    let rep = rs.to_report();
    assert_eq!(rep.keycodes, [5, 6, 7, 8, 9, 10]);
}

#[test]
fn channel_delivers_in_enqueue_order() {
    let mut chan = ReportChannel::new();
    let sent: Vec<KeyboardReportMessage> = (0..5u8)
        .map(|i| KeyboardReportMessage::LayerChanged(i, true))
        .collect();
    for m in &sent {
        assert!(chan.offer(*m));
    }
    let got = drain(&mut chan);
    assert_eq!(got, sent);
    assert_eq!(chan.len(), 0);
}

#[test]
fn backpressure_suspends_producer_and_loses_nothing() {
    let mut chan = ReportChannel::new();
    let mut pending: Vec<KeyboardReportMessage> = (0..10u8)
        .map(|i| KeyboardReportMessage::LayerChanged(i, true))
        .collect();
    let original = pending.clone();

    // Consumer paused: only the 8 slots fill; the rest stay pending.
    pump(&mut pending, &mut chan);
    assert_eq!(chan.len(), 8);
    assert_eq!(pending.len(), 2);
    // A full channel refuses instead of dropping.
    assert!(!chan.offer(KeyboardReportMessage::LayerChanged(99, true)));

    // Consumer resumes: everything arrives, in order.
    let mut got = drain(&mut chan);
    pump(&mut pending, &mut chan);
    got.extend(drain(&mut chan));
    assert_eq!(got, original);
    assert!(pending.is_empty());
}

#[test]
fn disconnect_discards_queue_and_transients() {
    let base = vec![
        vec![KeyAction::TapHoldLayer(1, KEY_A), KeyAction::OneShotLayer(1)],
        no_row(2),
    ];
    let overlay = vec![
        vec![KeyAction::Transparent, KeyAction::Transparent],
        transparent_row(2),
    ];
    let layout = Layout::new(vec![base, overlay], 2, 2, 2).unwrap();
    let mut kb = demo_keyboard(layout);
    let mut msgs = Vec::new();
    kb.on_press(0, 1, 0, &mut msgs); // arm a one-shot
    kb.on_press(0, 0, 1, &mut msgs); // leave a tap-hold decision outstanding
    assert!(kb.pending.is_some());
    assert!(kb.one_shot.is_some());

    let mut chan = ReportChannel::new();
    assert!(chan.offer(KeyboardReportMessage::LayerChanged(1, true)));
    assert!(chan.offer(KeyboardReportMessage::LayerChanged(1, false)));

    end_session(&mut kb, &mut chan);
    assert_eq!(chan.len(), 0);
    assert!(kb.pending.is_none());
    assert!(kb.one_shot.is_none());
    assert_eq!(kb.stack.stack, vec![0]);
}

#[test]
fn momentary_layer_scenario_two_by_two() {
    let layout = demo_layout();
    let mut kb = demo_keyboard(layout);
    let mut msgs = Vec::new();

    kb.on_press(0, 1, 0, &mut msgs); // press MO(1)
    assert_eq!(kb.stack.stack, vec![0, 1]);
    msgs.clear();
    kb.on_press(0, 0, 10, &mut msgs); // layer 1 active: KeyB
    match msgs.last().expect("a report was emitted") {
        KeyboardReportMessage::Keyboard(rep) => {
            assert_eq!(rep.keycodes[0], KEY_B);
            assert_eq!(rep.keycodes[1], 0);
        }
        other => panic!("unexpected message {:?}", other),
    }
    kb.on_release(0, 0, 20, &mut msgs);
    kb.on_release(0, 1, 30, &mut msgs); // layer 1 popped
    assert_eq!(kb.stack.stack, vec![0]);
    let rep = kb.report.to_report();
    assert_eq!(rep.keycodes, [0, 0, 0, 0, 0, 0]);
}

#[test]
fn tap_hold_quick_release_is_a_tap() {
    let base = vec![
        vec![KeyAction::TapHoldLayer(1, KEY_A), KeyAction::Key(KEY_B)],
        no_row(2),
    ];
    let overlay = vec![
        vec![KeyAction::Transparent, KeyAction::Transparent],
        transparent_row(2),
    ];
    let layout = Layout::new(vec![base, overlay], 2, 2, 2).unwrap();
    let mut kb = demo_keyboard(layout);
    let mut msgs = Vec::new();

    kb.on_press(0, 0, 0, &mut msgs);
    assert!(msgs.is_empty(), "tap-hold withholds emission");
    kb.on_release(0, 0, 50, &mut msgs); // released before the 200-tick hold threshold
    assert_eq!(msgs.len(), 2, "a tap presses and releases the tap keycode");
    match (&msgs[0], &msgs[1]) {
        (KeyboardReportMessage::Keyboard(a), KeyboardReportMessage::Keyboard(b)) => {
            assert_eq!(a.keycodes[0], KEY_A);
            assert_eq!(b.keycodes[0], 0);
        }
        other => panic!("unexpected messages {:?}", other),
    }
    assert_eq!(kb.stack.stack, vec![0]);
}

#[test]
fn tap_hold_interleaving_press_forces_hold() {
    let base = vec![
        vec![KeyAction::TapHoldLayer(1, KEY_A), KeyAction::Key(KEY_B)],
        no_row(2),
    ];
    let overlay = vec![
        vec![KeyAction::Transparent, KeyAction::Key(6)],
        transparent_row(2),
    ];
    let layout = Layout::new(vec![base, overlay], 2, 2, 2).unwrap();
    let mut kb = demo_keyboard(layout);
    let mut msgs = Vec::new();

    kb.process_edge(0, 0, KeyEdge::Pressed, 0, &mut msgs); // tap-hold pending
    // Another press arrives while the decision is outstanding: hold wins.
    kb.process_edge(0, 1, KeyEdge::Pressed, 10, &mut msgs);
    assert_eq!(kb.stack.stack, vec![0, 1]);
    // (0,1) resolved under layer 1: keycode 6, not KeyB.
    match msgs.last().expect("a report was emitted") {
        KeyboardReportMessage::Keyboard(rep) => assert_eq!(rep.keycodes[0], 6),
        other => panic!("unexpected message {:?}", other),
    }
    // Releasing the tap-hold key pops the held layer again.
    kb.on_release(0, 0, 20, &mut msgs);
    assert_eq!(kb.stack.stack, vec![0]);
}

#[test]
fn tap_hold_timeout_resolves_as_hold() {
    let base = vec![
        vec![KeyAction::TapHoldLayer(1, KEY_A), KeyAction::No],
        no_row(2),
    ];
    let overlay = vec![transparent_row(2), transparent_row(2)];
    let layout = Layout::new(vec![base, overlay], 2, 2, 2).unwrap();
    let mut kb = demo_keyboard(layout);
    let mut msgs = Vec::new();

    kb.on_press(0, 0, 0, &mut msgs);
    kb.tick(250, &mut msgs); // hold threshold of 200 elapsed
    assert!(kb.pending.is_none());
    assert_eq!(kb.stack.stack, vec![0, 1]);
    kb.on_release(0, 0, 260, &mut msgs);
    assert_eq!(kb.stack.stack, vec![0]);
}

#[test]
fn tap_toggle_tap_toggles_held_does_not() {
    let base = vec![
        vec![KeyAction::TapToggle(1), KeyAction::No],
        no_row(2),
    ];
    let overlay = vec![transparent_row(2), transparent_row(2)];
    let layout = Layout::new(vec![base, overlay], 2, 2, 2).unwrap();
    let mut kb = demo_keyboard(layout);
    let mut msgs = Vec::new();

    kb.on_press(0, 0, 0, &mut msgs);
    kb.on_release(0, 0, 50, &mut msgs); // a tap: toggles layer 1 on
    assert_eq!(kb.stack.stack, vec![0, 1]);
    kb.on_press(0, 0, 100, &mut msgs);
    kb.on_release(0, 0, 400, &mut msgs); // held past 200 ticks: a no-op
    assert_eq!(kb.stack.stack, vec![0, 1]);
    kb.on_press(0, 0, 500, &mut msgs);
    kb.on_release(0, 0, 550, &mut msgs); // tap again: toggles layer 1 off
    assert_eq!(kb.stack.stack, vec![0]);
}

#[test]
fn one_shot_expires_on_timeout() {
    let base = vec![
        vec![KeyAction::Key(KEY_A), KeyAction::OneShotLayer(1)],
        no_row(2),
    ];
    let overlay = vec![transparent_row(2), transparent_row(2)];
    let layout = Layout::new(vec![base, overlay], 2, 2, 2).unwrap();
    let mut kb = demo_keyboard(layout);
    let mut msgs = Vec::new();

    kb.on_press(0, 1, 0, &mut msgs);
    kb.on_release(0, 1, 10, &mut msgs);
    assert_eq!(kb.stack.stack, vec![0, 1]);
    kb.tick(2000, &mut msgs); // one-shot timeout of 1000 elapsed unconsumed
    assert!(kb.one_shot.is_none());
    assert_eq!(kb.stack.stack, vec![0]);
}

#[test]
fn modifier_shared_by_two_keys_clears_on_last_release() {
    let shift = ModifierCombination::new_from(false, false, false, true, false);
    let base = vec![
        vec![
            KeyAction::KeyWithModifier(KEY_A, shift),
            KeyAction::KeyWithModifier(KEY_B, shift),
        ],
        no_row(2),
    ];
    let overlay = vec![transparent_row(2), transparent_row(2)];
    let layout = Layout::new(vec![base, overlay], 2, 2, 2).unwrap();
    let mut kb = demo_keyboard(layout);
    let mut msgs = Vec::new();

    kb.on_press(0, 0, 0, &mut msgs);
    kb.on_press(0, 1, 10, &mut msgs);
    assert_eq!(kb.report.modifier_byte(), 0x02); // left shift
    kb.on_release(0, 0, 20, &mut msgs);
    assert_eq!(kb.report.modifier_byte(), 0x02, "still one holder left");
    kb.on_release(0, 1, 30, &mut msgs);
    assert_eq!(kb.report.modifier_byte(), 0x00);
}

#[test]
fn connection_lifecycle_steps() {
    assert_eq!(
        connection_step(ConnectionState::Disconnected, TransportEvent::AdvertisingStarted),
        (ConnectionState::Advertising, DispatchAction::WaitForConnection)
    );
    assert_eq!(
        connection_step(ConnectionState::Advertising, TransportEvent::PeerConnected),
        (ConnectionState::Connected, DispatchAction::RunSession)
    );
    assert_eq!(
        connection_step(ConnectionState::Connected, TransportEvent::PeerDisconnected),
        (ConnectionState::Disconnected, DispatchAction::EndSession)
    );
    // An event that does not apply leaves the state alone.
    assert_eq!(
        connection_step(ConnectionState::Advertising, TransportEvent::PeerDisconnected),
        (ConnectionState::Advertising, DispatchAction::Stay)
    );
}

#[test]
fn modifier_combination_hid_byte() {
    let m = ModifierCombination::new_from(false, false, false, true, true);
    assert_eq!(m.hid_byte(), 0x03); // LCtrl | LShift
    let r = ModifierCombination::new_from(true, false, false, true, false);
    assert_eq!(r.hid_byte(), 0x20); // RShift
    assert!(r.any());
    let none = ModifierCombination::new_from(false, false, false, false, false);
    assert!(!none.any());
}
