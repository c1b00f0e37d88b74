use rmk_core::action::KeyAction;
use rmk_core::config::{
    check_keymap_size, get_layer, parse_key, parse_layout, parse_u8, split_clean, str_equal,
    trim_ws, ConfigError, LayoutConfig, MatrixConfig, ParsedKey,
};
use rmk_core::layout::Layout;
use rmk_core::persist::{apply_overlay, apply_remap, remap, PersistentStore, RemapEntry};

fn keymap_of(rows: Vec<Vec<&str>>) -> Vec<Vec<String>> {
    rows.into_iter()
        .map(|r| r.into_iter().map(|k| k.to_string()).collect())
        .collect()
}

#[test]
fn parse_key_layer_forms() {
    assert_eq!(parse_key("MO(2)".to_string()), Ok(ParsedKey::MomentaryLayer(2)));
    assert_eq!(parse_key("OSL(1)".to_string()), Ok(ParsedKey::OneShotLayer(1)));
    assert_eq!(parse_key("TT(13)".to_string()), Ok(ParsedKey::TapToggle(13)));
    assert_eq!(parse_key("TG(255)".to_string()), Ok(ParsedKey::ToggleLayer(255)));
}

#[test]
fn parse_key_underscores_and_names() {
    assert_eq!(parse_key("___".to_string()), Ok(ParsedKey::No));
    assert_eq!(parse_key("_".to_string()), Ok(ParsedKey::No));
    assert_eq!(parse_key("A".to_string()), Ok(ParsedKey::Named("A".to_string())));
    assert_eq!(
        parse_key("Kc1".to_string()),
        Ok(ParsedKey::Named("Kc1".to_string()))
    );
    // Five characters or more without a known prefix: still a plain name.
    assert_eq!(
        parse_key("Space".to_string()),
        Ok(ParsedKey::Named("Space".to_string()))
    );
}

#[test]
fn parse_key_layer_with_modifier() {
    match parse_key("LM(1, LShift|LCtrl)".to_string()) {
        Ok(ParsedKey::LayerWithModifier(layer, m)) => {
            assert_eq!(layer, 1);
            assert_eq!(m.hid_byte(), 0x03); // LCtrl | LShift
        }
        other => panic!("unexpected {:?}", other),
    }
    match parse_key("LM(2, RShift)".to_string()) {
        Ok(ParsedKey::LayerWithModifier(layer, m)) => {
            assert_eq!(layer, 2);
            assert_eq!(m.hid_byte(), 0x20); // RShift
        }
        other => panic!("unexpected {:?}", other),
    }
}

#[test]
fn parse_key_tap_hold() {
    assert_eq!(
        parse_key("LT(2, A)".to_string()),
        Ok(ParsedKey::TapHold(2, "A".to_string()))
    );
}

#[test]
fn parse_key_errors() {
    assert_eq!(parse_key("LM(1)".to_string()), Err(ConfigError::LmArity));
    assert_eq!(parse_key("LM(1, 2, 3)".to_string()), Err(ConfigError::LmArity));
    assert_eq!(
        parse_key("LM(1, Bogus)".to_string()),
        Err(ConfigError::LmModifier)
    );
    assert_eq!(parse_key("LT(12345)".to_string()), Err(ConfigError::LtArity));
}

#[test]
fn get_layer_strips_delimiters() {
    assert_eq!(get_layer("MO(7)".to_string(), "MO(", ")"), 7);
    assert_eq!(get_layer("OSL(12)".to_string(), "OSL(", ")"), 12);
}

#[test]
fn parse_u8_bounds() {
    assert_eq!(parse_u8("0"), Some(0));
    assert_eq!(parse_u8("255"), Some(255));
    assert_eq!(parse_u8("256"), None);
    assert_eq!(parse_u8(""), None);
    assert_eq!(parse_u8("1a"), None);
}

#[test]
fn string_helpers() {
    assert!(str_equal("abc", "abc"));
    assert!(!str_equal("abc", "abd"));
    assert_eq!(trim_ws("  x \t"), "x");
    let parts = split_clean("a, b , ,c,", ',');
    assert_eq!(parts, vec!["a".to_string(), "b".to_string(), "c".to_string()]);
}

#[test]
fn keymap_size_check() {
    let good = LayoutConfig {
        keymap: vec![keymap_of(vec![vec!["A", "B"], vec!["C", "D"]])],
    };
    let m = MatrixConfig {
        rows: 2,
        cols: 2,
        layers: 1,
    };
    assert_eq!(check_keymap_size(&good, m), Ok(()));

    let wrong_layers = MatrixConfig {
        rows: 2,
        cols: 2,
        layers: 2,
    };
    assert_eq!(
        check_keymap_size(&good, wrong_layers),
        Err(ConfigError::LayerCountMismatch)
    );

    let wrong_rows = LayoutConfig {
        keymap: vec![keymap_of(vec![vec!["A", "B"]])],
    };
    assert_eq!(
        check_keymap_size(&wrong_rows, m),
        Err(ConfigError::RowCountMismatch)
    );

    let wrong_cols = LayoutConfig {
        keymap: vec![keymap_of(vec![vec!["A", "B"], vec!["C"]])],
    };
    assert_eq!(
        check_keymap_size(&wrong_cols, m),
        Err(ConfigError::ColCountMismatch)
    );
}

#[test]
fn parse_layout_full() {
    let cfg = LayoutConfig {
        keymap: vec![
            keymap_of(vec![vec!["A", "MO(1)"], vec!["B", "___"]]),
            keymap_of(vec![vec!["C", "_____"], vec!["TG(1)", "LT(1, D)"]]),
        ],
    };
    let m = MatrixConfig {
        rows: 2,
        cols: 2,
        layers: 2,
    };
    let parsed = parse_layout(Some(&cfg), m)
        .expect("layout parses")
        .expect("a layout section was given");
    assert_eq!(parsed[0][0][1], ParsedKey::MomentaryLayer(1));
    assert_eq!(parsed[0][1][1], ParsedKey::No);
    // Five underscores reach the named-key fallback, as only strings of
    // fewer than five characters take the all-underscore path.
    assert_eq!(parsed[1][0][1], ParsedKey::Named("_____".to_string()));
    assert_eq!(parsed[1][1][0], ParsedKey::ToggleLayer(1));
    assert_eq!(parsed[1][1][1], ParsedKey::TapHold(1, "D".to_string()));
    assert_eq!(parse_layout(None, m), Ok(None));
}

#[test]
fn layout_validation_rejects_ill_formed_tables() {
    // Transparent in the base layer.
    let base = vec![vec![KeyAction::Transparent]];
    assert_eq!(
        Layout::new(vec![base], 1, 1, 1).unwrap_err(),
        ConfigError::TransparentBase
    );
    // A layer argument out of the declared range.
    let base = vec![vec![KeyAction::MomentaryLayer(3)]];
    assert_eq!(
        Layout::new(vec![base], 1, 1, 1).unwrap_err(),
        ConfigError::LayerOutOfRange
    );
    // Non-uniform dimensions.
    let base = vec![vec![KeyAction::No], vec![]];
    assert_eq!(
        Layout::new(vec![base], 1, 2, 1).unwrap_err(),
        ConfigError::NonUniformLayout
    );
}

#[test]
fn remap_applies_and_persists() {
    let base = vec![vec![KeyAction::Key(4), KeyAction::No]];
    let layout = Layout::new(vec![base], 1, 1, 2).unwrap();
    let mut layout = layout;
    let mut store = PersistentStore::new(true, Vec::new());

    let e = RemapEntry {
        layer: 0,
        row: 0,
        col: 1,
        action: KeyAction::Key(5),
    };
    assert!(remap(&mut layout, &mut store, e));
    assert_eq!(layout.action_at(0, 0, 1), KeyAction::Key(5));
    assert_eq!(store.load(), Some(&vec![e]));

    // An invalid remap is rejected and stored nowhere.
    let bad = RemapEntry {
        layer: 0,
        row: 0,
        col: 0,
        action: KeyAction::Transparent,
    };
    assert!(!remap(&mut layout, &mut store, bad));
    assert_eq!(layout.action_at(0, 0, 0), KeyAction::Key(4));
    assert_eq!(store.load().unwrap().len(), 1);
}

#[test]
fn store_without_storage_is_a_no_op() {
    let mut store = PersistentStore::new(false, vec![RemapEntry {
        layer: 0,
        row: 0,
        col: 0,
        action: KeyAction::No,
    }]);
    assert_eq!(store.load(), None);
    assert!(!store.save(RemapEntry {
        layer: 0,
        row: 0,
        col: 0,
        action: KeyAction::Key(4),
    }));
}

#[test]
fn overlay_applied_at_boot_last_entry_wins() {
    let base = vec![vec![KeyAction::Key(4)]];
    let mut layout = Layout::new(vec![base], 1, 1, 1).unwrap();
    let overlay = vec![
        RemapEntry {
            layer: 0,
            row: 0,
            col: 0,
            action: KeyAction::Key(5),
        },
        RemapEntry {
            layer: 0,
            row: 0,
            col: 0,
            action: KeyAction::Key(6),
        },
    ];
    apply_overlay(&mut layout, &overlay);
    assert_eq!(layout.action_at(0, 0, 0), KeyAction::Key(6));
    // apply_remap alone rejects out-of-range positions.
    assert!(!apply_remap(
        &mut layout,
        RemapEntry {
            layer: 0,
            row: 5,
            col: 0,
            action: KeyAction::Key(7),
        }
    ));
}
