//! The fixed action table indexed `[layer][row][col]`, validated at
//! build time.

use vstd::prelude::*;
use crate::action::KeyAction;
use crate::config::ConfigError;

verus! {

/// Uniform dimensions of an action table.
pub open spec fn dims_ok(
    actions: Seq<Vec<Vec<KeyAction>>>,
    num_layers: u8,
    rows: u8,
    cols: u8,
) -> bool {
    &&& num_layers >= 1
    &&& actions.len() == num_layers
    &&& forall|l: int| 0 <= l < actions.len() ==> #[trigger] actions[l]@.len() == rows
    &&& forall|l: int, r: int|
        0 <= l < actions.len() && 0 <= r < actions[l]@.len() ==> #[trigger] actions[l]@[r]@.len()
            == cols
}

/// Per-entry condition: base-layer bindings concrete, layer arguments in
/// range.
pub open spec fn entry_ok(
    actions: Seq<Vec<Vec<KeyAction>>>,
    num_layers: u8,
    l: int,
    r: int,
    c: int,
) -> bool {
    &&& (l == 0 ==> actions[0]@[r]@[c] != KeyAction::Transparent)
    &&& match actions[l]@[r]@[c].spec_layer_arg() {
        Some(n) => n < num_layers,
        None => true,
    }
}

/// The key action table. Immutable at runtime except through explicit
/// remap requests.
#[derive(Clone, Debug)]
pub struct Layout {
    /// Actions indexed `[layer][row][col]`.
    pub actions: Vec<Vec<Vec<KeyAction>>>,
    /// Declared number of layers; layer 0 is the base layer.
    pub num_layers: u8,
    /// Declared number of matrix rows.
    pub rows: u8,
    /// Declared number of matrix columns.
    pub cols: u8,
}

impl Layout {
    /// The action bound to `(row, col)` on `layer`.
    pub open spec fn spec_action(self, layer: int, row: int, col: int) -> KeyAction {
        self.actions@[layer]@[row]@[col]
    }

    /// Build-time invariant: uniform declared dimensions, a concrete
    /// (non-`Transparent`) action at every base-layer position, and every
    /// layer an action refers to within the declared range.
    pub open spec fn wf(self) -> bool {
        &&& dims_ok(self.actions@, self.num_layers, self.rows, self.cols)
        &&& forall|l: int, r: int, c: int|
            0 <= l < self.num_layers && 0 <= r < self.rows && 0 <= c < self.cols
                ==> #[trigger] entry_ok(self.actions@, self.num_layers, l, r, c)
    }

    /// Validate an action table against declared dimensions and build the
    /// layout. `Err` reports the first fault found: non-uniform
    /// dimensions, a `Transparent` base-layer binding, or a layer index
    /// out of range; exactly the ill-formed tables are rejected.
    pub fn new(actions: Vec<Vec<Vec<KeyAction>>>, num_layers: u8, rows: u8, cols: u8) -> (res:
        Result<Layout, ConfigError>)
        ensures
            res is Ok ==> res->Ok_0 == (Layout { actions, num_layers, rows, cols })
                && res->Ok_0.wf(),
            res is Err ==> !(Layout { actions, num_layers, rows, cols }).wf(),
    {
        if num_layers == 0 || actions.len() != num_layers as usize {
            return Err(ConfigError::NonUniformLayout);
        }
        let mut l: usize = 0;
        while l < actions.len()
            invariant
                l <= actions@.len(),
                forall|x: int| 0 <= x < l ==> #[trigger] actions@[x]@.len() == rows,
                forall|x: int, y: int|
                    0 <= x < l && 0 <= y < actions@[x]@.len() ==> #[trigger] actions@[x]@[y]@.len()
                        == cols,
            decreases actions@.len() - l,
        {
            let layer = &actions[l];
            if layer.len() != rows as usize {
                return Err(ConfigError::NonUniformLayout);
            }
            let mut r: usize = 0;
            while r < layer.len()
                invariant
                    r <= layer@.len(),
                    *layer == actions@[l as int],
                    l < actions@.len(),
                    forall|y: int| 0 <= y < r ==> #[trigger] layer@[y]@.len() == cols,
                decreases layer@.len() - r,
            {
                if layer[r].len() != cols as usize {
                    return Err(ConfigError::NonUniformLayout);
                }
                r = r + 1;
            }
            l = l + 1;
        }
        proof {
            assert(dims_ok(actions@, num_layers, rows, cols));
        }
        let mut l: usize = 0;
        while l < actions.len()
            invariant
                dims_ok(actions@, num_layers, rows, cols),
                l <= actions@.len(),
                forall|x: int, y: int, z: int|
                    0 <= x < l && 0 <= y < rows && 0 <= z < cols ==> #[trigger] entry_ok(
                        actions@,
                        num_layers,
                        x,
                        y,
                        z,
                    ),
            decreases actions@.len() - l,
        {
            let layer = &actions[l];
            let mut r: usize = 0;
            while r < layer.len()
                invariant
                    dims_ok(actions@, num_layers, rows, cols),
                    *layer == actions@[l as int],
                    l < actions@.len(),
                    r <= layer@.len(),
                    layer@.len() == rows,
                    forall|y: int, z: int|
                        0 <= y < r && 0 <= z < cols ==> #[trigger] entry_ok(
                            actions@,
                            num_layers,
                            l as int,
                            y,
                            z,
                        ),
                decreases layer@.len() - r,
            {
                let row = &layer[r];
                let mut c: usize = 0;
                while c < row.len()
                    invariant
                        dims_ok(actions@, num_layers, rows, cols),
                        *row == actions@[l as int]@[r as int],
                        l < actions@.len(),
                        r < actions@[l as int]@.len(),
                        c <= row@.len(),
                        row@.len() == cols,
                        forall|z: int| 0 <= z < c ==> #[trigger] entry_ok(
                            actions@,
                            num_layers,
                            l as int,
                            r as int,
                            z,
                        ),
                    decreases row@.len() - c,
                {
                    let a = row[c];
                    if l == 0 && a.is_transparent() {
                        proof {
                            assert(!entry_ok(actions@, num_layers, 0, r as int, c as int));
                        }
                        return Err(ConfigError::TransparentBase);
                    }
                    match a.layer_arg() {
                        Some(n) => {
                            if n >= num_layers {
                                proof {
                                    assert(!entry_ok(
                                        actions@,
                                        num_layers,
                                        l as int,
                                        r as int,
                                        c as int,
                                    ));
                                }
                                return Err(ConfigError::LayerOutOfRange);
                            }
                        },
                        None => {},
                    }
                    proof {
                        assert(entry_ok(actions@, num_layers, l as int, r as int, c as int));
                    }
                    c = c + 1;
                }
                r = r + 1;
            }
            l = l + 1;
        }
        Ok(Layout { actions, num_layers, rows, cols })
    }

    /// Read the action bound to a position on a layer.
    pub fn action_at(&self, layer: usize, row: usize, col: usize) -> (r: KeyAction)
        requires
            self.wf(),
            layer < self.num_layers,
            row < self.rows,
            col < self.cols,
        ensures
            r == self.spec_action(layer as int, row as int, col as int),
    {
        self.actions[layer][row][col]
    }

    /// Rebind one position on one layer; used by runtime remap requests.
    pub fn set_action(&mut self, layer: usize, row: usize, col: usize, action: KeyAction)
        requires
            old(self).wf(),
            layer < old(self).num_layers,
            row < old(self).rows,
            col < old(self).cols,
            layer == 0 ==> action != KeyAction::Transparent,
            match action.spec_layer_arg() {
                Some(n) => n < old(self).num_layers,
                None => true,
            },
        ensures
            final(self).wf(),
            final(self).num_layers == old(self).num_layers,
            final(self).rows == old(self).rows,
            final(self).cols == old(self).cols,
            final(self).spec_action(layer as int, row as int, col as int) == action,
            forall|l: int, r: int, c: int|
                0 <= l < old(self).num_layers && 0 <= r < old(self).rows && 0 <= c < old(
                    self,
                ).cols && !(l == layer && r == row && c == col)
                    ==> #[trigger] final(self).spec_action(l, r, c) == old(self).spec_action(
                    l,
                    r,
                    c,
                ),
    {
        let ghost old_actions = self.actions@;
        let mut layer_vec = self.actions.remove(layer);
        let ghost layer0 = layer_vec@;
        let mut row_vec = layer_vec.remove(row);
        let ghost row0 = row_vec@;
        row_vec.set(col, action);
        let ghost new_row = row_vec;
        layer_vec.insert(row, row_vec);
        proof {
            assert(layer_vec@ =~= layer0.update(row as int, new_row));
        }
        let ghost new_layer = layer_vec;
        self.actions.insert(layer, layer_vec);
        proof {
            assert(self.actions@ =~= old_actions.update(layer as int, new_layer));
            assert forall|l: int, r: int, c: int|
                0 <= l < old(self).num_layers && 0 <= r < old(self).rows && 0 <= c < old(
                    self,
                ).cols && !(l == layer && r == row && c == col) implies #[trigger] self.spec_action(
                l,
                r,
                c,
            ) == old(self).spec_action(l, r, c) by {
                if l == layer {
                    assert(self.actions@[l] == new_layer);
                    assert(old_actions[l]@ == layer0);
                    if r == row {
                        assert(new_layer@[r] == new_row);
                        assert(new_row@[c] == row0[c]);
                        assert(row0 == layer0[r]@);
                    } else {
                        assert(new_layer@[r] == layer0[r]);
                    }
                }
            }
            assert(dims_ok(self.actions@, self.num_layers, self.rows, self.cols));
            assert forall|l: int, r: int, c: int|
                0 <= l < self.num_layers && 0 <= r < self.rows && 0 <= c < self.cols
                    implies #[trigger] entry_ok(self.actions@, self.num_layers, l, r, c) by {
                if l == layer && r == row && c == col {
                    assert(self.spec_action(l, r, c) == action);
                } else {
                    assert(self.spec_action(l, r, c) == old(self).spec_action(l, r, c));
                    assert(entry_ok(old(self).actions@, old(self).num_layers, l, r, c));
                    if l == 0 {
                        if 0 == layer && r == row && c == col {
                            assert(self.spec_action(0, r, c) == action);
                        } else {
                            assert(self.spec_action(0, r, c) == old(self).spec_action(0, r, c));
                        }
                    }
                }
            }
        }
    }
}

} // verus!
