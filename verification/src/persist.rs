//! Runtime remapping and its optional non-volatile overlay.
//!
//! Without configured physical storage the store degrades to a no-op
//! pass-through: `load` offers no overlay and `save` silently discards,
//! and the firmware runs purely from the compile-time layout.

use vstd::prelude::*;
use crate::action::KeyAction;
use crate::layout::Layout;

verus! {

/// One remapped binding: position, layer, and the new action.
#[derive(Clone, Copy, Debug, PartialEq, Eq, Structural)]
pub struct RemapEntry {
    pub layer: u8,
    pub row: u8,
    pub col: u8,
    pub action: KeyAction,
}

/// Whether a remap entry may be applied to the layout: in range, no
/// `Transparent` hole in the base layer, no out-of-range layer argument.
pub open spec fn remap_valid(layout: Layout, e: RemapEntry) -> bool {
    &&& e.layer < layout.num_layers
    &&& e.row < layout.rows
    &&& e.col < layout.cols
    &&& (e.layer == 0 ==> e.action != KeyAction::Transparent)
    &&& match e.action.spec_layer_arg() {
        Some(n) => n < layout.num_layers,
        None => true,
    }
}

/// Hot-apply one remap to the in-memory layout; an entry that would make
/// the layout ill-formed is rejected and changes nothing.
pub fn apply_remap(layout: &mut Layout, e: RemapEntry) -> (applied: bool)
    requires
        old(layout).wf(),
    ensures
        final(layout).wf(),
        applied == remap_valid(*old(layout), e),
        applied ==> final(layout).num_layers == old(layout).num_layers && final(layout).rows == old(
            layout,
        ).rows && final(layout).cols == old(layout).cols && final(layout).spec_action(
            e.layer as int,
            e.row as int,
            e.col as int,
        ) == e.action && (forall|l: int, r: int, c: int|
            0 <= l < old(layout).num_layers && 0 <= r < old(layout).rows && 0 <= c < old(
                layout,
            ).cols && !(l == e.layer && r == e.row && c == e.col)
                ==> #[trigger] final(layout).spec_action(l, r, c) == old(layout).spec_action(
                l,
                r,
                c,
            )),
        !applied ==> *final(layout) == *old(layout),
{
    if e.layer >= layout.num_layers || e.row >= layout.rows || e.col >= layout.cols {
        return false;
    }
    if e.layer == 0 && e.action.is_transparent() {
        return false;
    }
    match e.action.layer_arg() {
        Some(n) => {
            if n >= layout.num_layers {
                return false;
            }
        },
        None => {},
    }
    layout.set_action(e.layer as usize, e.row as usize, e.col as usize, e.action);
    true
}

/// The optional non-volatile overlay store. With no physical storage
/// configured (`enabled == false`) it is the documented no-op fallback.
#[derive(Clone, Debug)]
pub struct PersistentStore {
    /// Whether physical storage is configured and healthy; a storage
    /// fault clears it, degrading to in-memory-only operation.
    pub enabled: bool,
    /// Entries written this power cycle plus those hydrated at boot,
    /// oldest first.
    pub saved: Vec<RemapEntry>,
}

impl PersistentStore {
    /// A store hydrated from the given boot-time contents, or the no-op
    /// fallback.
    pub fn new(enabled: bool, boot_entries: Vec<RemapEntry>) -> (r: PersistentStore)
        ensures
            r.enabled == enabled,
            enabled ==> r.saved@ == boot_entries@,
            !enabled ==> r.saved@ == Seq::<RemapEntry>::empty(),
    {
        if enabled {
            PersistentStore { enabled, saved: boot_entries }
        } else {
            PersistentStore { enabled, saved: Vec::new() }
        }
    }

    /// The overlay to apply over the compile-time layout at boot; none
    /// when no storage is configured.
    pub fn load(&self) -> (r: Option<&Vec<RemapEntry>>)
        ensures
            self.enabled ==> r == Some(&self.saved),
            !self.enabled ==> r is None,
    {
        if self.enabled {
            Some(&self.saved)
        } else {
            None
        }
    }

    /// Record one remap; silently discarded without storage.
    pub fn save(&mut self, e: RemapEntry) -> (stored: bool)
        requires
            old(self).saved@.len() < usize::MAX,
        ensures
            final(self).enabled == old(self).enabled,
            stored == old(self).enabled,
            stored ==> final(self).saved@ == old(self).saved@.push(e),
            !stored ==> final(self).saved@ == old(self).saved@,
    {
        if self.enabled {
            self.saved.push(e);
            true
        } else {
            false
        }
    }
}

/// The binding at `(l, r, c)` after applying every valid entry of an
/// overlay in order: the last valid entry targeting the position wins.
/// Validity only depends on the fixed dimensions, so it is stable across
/// the whole application.
pub open spec fn spec_overlaid_action(
    pre: Layout,
    ov: Seq<RemapEntry>,
    l: int,
    r: int,
    c: int,
) -> KeyAction
    decreases ov.len(),
{
    if ov.len() == 0 {
        pre.spec_action(l, r, c)
    } else {
        let e = ov.last();
        if remap_valid(pre, e) && e.layer == l && e.row == r && e.col == c {
            e.action
        } else {
            spec_overlaid_action(pre, ov.drop_last(), l, r, c)
        }
    }
}

/// Overlay the boot-time remaps onto the compile-time layout: every
/// valid entry is applied in order, invalid entries are skipped, and the
/// last valid entry per position wins.
pub fn apply_overlay(layout: &mut Layout, overlay: &Vec<RemapEntry>)
    requires
        old(layout).wf(),
    ensures
        final(layout).wf(),
        final(layout).num_layers == old(layout).num_layers,
        final(layout).rows == old(layout).rows,
        final(layout).cols == old(layout).cols,
        forall|l: int, r: int, c: int|
            0 <= l < old(layout).num_layers && 0 <= r < old(layout).rows && 0 <= c < old(
                layout,
            ).cols ==> #[trigger] final(layout).spec_action(l, r, c) == spec_overlaid_action(
                *old(layout),
                overlay@,
                l,
                r,
                c,
            ),
{
    let mut i: usize = 0;
    while i < overlay.len()
        invariant
            layout.wf(),
            i <= overlay@.len(),
            layout.num_layers == old(layout).num_layers,
            layout.rows == old(layout).rows,
            layout.cols == old(layout).cols,
            forall|l: int, r: int, c: int|
                0 <= l < old(layout).num_layers && 0 <= r < old(layout).rows && 0 <= c < old(
                    layout,
                ).cols ==> #[trigger] layout.spec_action(l, r, c) == spec_overlaid_action(
                    *old(layout),
                    overlay@.take(i as int),
                    l,
                    r,
                    c,
                ),
        decreases overlay@.len() - i,
    {
        let e = overlay[i];
        let ghost pre_loop = *layout;
        apply_remap(layout, e);
        proof {
            assert(overlay@.take(i as int + 1).drop_last() =~= overlay@.take(i as int));
            assert(overlay@.take(i as int + 1).last() == overlay@[i as int]);
            assert(remap_valid(pre_loop, e) == remap_valid(*old(layout), e));
            assert forall|l: int, r: int, c: int|
                0 <= l < old(layout).num_layers && 0 <= r < old(layout).rows && 0 <= c < old(
                    layout,
                ).cols implies #[trigger] layout.spec_action(l, r, c) == spec_overlaid_action(
                *old(layout),
                overlay@.take(i as int + 1),
                l,
                r,
                c,
            ) by {
                if remap_valid(*old(layout), e) && e.layer == l && e.row == r && e.col == c {
                } else {
                    assert(layout.spec_action(l, r, c) == pre_loop.spec_action(l, r, c));
                }
            }
        }
        i = i + 1;
    }
    proof {
        assert(overlay@.take(overlay@.len() as int) =~= overlay@);
    }
}

/// Ingestion entrypoint for the remote remap protocol: hot-apply the
/// new binding to the in-memory layout and forward it to the store.
/// Returns whether the binding was applied; an invalid binding changes
/// neither the layout nor the store.
pub fn remap(layout: &mut Layout, store: &mut PersistentStore, e: RemapEntry) -> (applied: bool)
    requires
        old(layout).wf(),
        old(store).saved@.len() < usize::MAX,
    ensures
        final(layout).wf(),
        applied == remap_valid(*old(layout), e),
        applied ==> final(layout).num_layers == old(layout).num_layers && final(layout).rows == old(
            layout,
        ).rows && final(layout).cols == old(layout).cols && final(layout).spec_action(
            e.layer as int,
            e.row as int,
            e.col as int,
        ) == e.action && (forall|l: int, r: int, c: int|
            0 <= l < old(layout).num_layers && 0 <= r < old(layout).rows && 0 <= c < old(
                layout,
            ).cols && !(l == e.layer && r == e.row && c == e.col)
                ==> #[trigger] final(layout).spec_action(l, r, c) == old(layout).spec_action(
                l,
                r,
                c,
            )),
        !applied ==> *final(layout) == *old(layout) && *final(store) == *old(store),
        applied && old(store).enabled ==> final(store).saved@ == old(store).saved@.push(e),
        applied && !old(store).enabled ==> final(store).saved@ == old(store).saved@,
{
    let applied = apply_remap(layout, e);
    if applied {
        store.save(e);
    }
    applied
}

} // verus!
