//! The ordered stack of active layers and top-down action resolution.

use vstd::prelude::*;
use crate::action::KeyAction;
use crate::layout::Layout;
use crate::layout::entry_ok;

verus! {

/// Index of the topmost occurrence of `n` in the stack, ignoring the base
/// slot at index 0; `-1` when there is none.
pub open spec fn top_index_of(s: Seq<u8>, n: u8) -> int
    decreases s.len(),
{
    if s.len() <= 1 {
        -1
    } else if s.last() == n {
        s.len() - 1
    } else {
        top_index_of(s.drop_last(), n)
    }
}

/// What resolution returns: the binding of the topmost active layer that
/// does not defer with `Transparent`.
pub open spec fn spec_resolve(layout: Layout, s: Seq<u8>, row: int, col: int) -> KeyAction
    decreases s.len(),
{
    if s.len() == 0 {
        KeyAction::No
    } else if layout.spec_action(s.last() as int, row, col) != KeyAction::Transparent {
        layout.spec_action(s.last() as int, row, col)
    } else {
        spec_resolve(layout, s.drop_last(), row, col)
    }
}

/// The ordered set of active layers: the base layer always sits at the
/// bottom, overlays above it, topmost scanned first.
#[derive(Clone, Debug)]
pub struct LayerStack {
    /// Active layer indices, bottom first; `stack[0]` is the base layer 0.
    pub stack: Vec<u8>,
    /// Number of declared layers; every entry stays below it.
    pub num_layers: u8,
}

impl LayerStack {
    /// Invariant: the base layer is always present at the bottom and every
    /// entry is a declared layer.
    pub open spec fn wf(self) -> bool {
        &&& self.stack@.len() >= 1
        &&& self.stack@[0] == 0
        &&& self.num_layers >= 1
        &&& forall|i: int| 0 <= i < self.stack@.len() ==> self.stack@[i] < self.num_layers
    }

    /// Whether layer `n` is active above the base slot.
    pub open spec fn spec_overlay_active(self, n: u8) -> bool {
        top_index_of(self.stack@, n) >= 1
    }

    /// A fresh stack holding only the base layer.
    pub fn new(num_layers: u8) -> (r: LayerStack)
        requires
            num_layers >= 1,
        ensures
            r.wf(),
            r.num_layers == num_layers,
            r.stack@ == seq![0u8],
    {
        let mut stack: Vec<u8> = Vec::new();
        stack.push(0);
        proof {
            assert(stack@ =~= seq![0u8]);
        }
        LayerStack { stack, num_layers }
    }

    /// Activate layer `n` on top of the stack.
    pub fn push_layer(&mut self, n: u8)
        requires
            old(self).wf(),
            n < old(self).num_layers,
            old(self).stack@.len() < usize::MAX,
        ensures
            final(self).wf(),
            final(self).num_layers == old(self).num_layers,
            final(self).stack@ == old(self).stack@.push(n),
    {
        self.stack.push(n);
    }

    /// Deactivate the topmost occurrence of layer `n`, leaving the base
    /// slot alone; without one the stack is unchanged.
    pub fn pop_layer(&mut self, n: u8) -> (removed: bool)
        requires
            old(self).wf(),
        ensures
            final(self).wf(),
            final(self).num_layers == old(self).num_layers,
            removed == (top_index_of(old(self).stack@, n) >= 1),
            removed ==> final(self).stack@ == old(self).stack@.remove(
                top_index_of(old(self).stack@, n),
            ),
            !removed ==> final(self).stack@ == old(self).stack@,
    {
        let mut i: usize = self.stack.len();
        while i > 1
            invariant
                self.wf(),
                *self == *old(self),
                1 <= i <= self.stack@.len(),
                forall|j: int| i <= j < self.stack@.len() ==> self.stack@[j] != n,
            decreases i,
        {
            i = i - 1;
            if self.stack[i] == n {
                proof {
                    lemma_top_index_prefix(self.stack@, n, i as int);
                }
                self.stack.remove(i);
                return true;
            }
        }
        proof {
            lemma_top_index_absent(self.stack@, n);
        }
        false
    }

    /// Flip membership of layer `n` among the overlays: deactivate its
    /// topmost occurrence if one is active, activate it otherwise.
    pub fn toggle_layer(&mut self, n: u8)
        requires
            old(self).wf(),
            n < old(self).num_layers,
            old(self).stack@.len() < usize::MAX,
        ensures
            final(self).wf(),
            final(self).num_layers == old(self).num_layers,
            old(self).spec_overlay_active(n) ==> final(self).stack@ == old(self).stack@.remove(
                top_index_of(old(self).stack@, n),
            ),
            !old(self).spec_overlay_active(n) ==> final(self).stack@ == old(self).stack@.push(n),
            final(self).stack@ == spec_toggle(old(self).stack@, n),
    {
        let removed = self.pop_layer(n);
        if !removed {
            self.push_layer(n);
        }
    }
}

/// When `s[i] == n` and nothing above `i` equals `n`, the topmost
/// occurrence of `n` in `s` is exactly `i`.
pub proof fn lemma_top_index_prefix(s: Seq<u8>, n: u8, i: int)
    requires
        1 <= i < s.len(),
        s[i] == n,
        forall|j: int| i < j < s.len() ==> s[j] != n,
    ensures
        top_index_of(s, n) == i,
    decreases s.len(),
{
    if i == s.len() - 1 {
    } else {
        assert(s.last() != n);
        assert(s.drop_last()[i] == n);
        lemma_top_index_prefix(s.drop_last(), n, i);
    }
}

/// `top_index_of` really is an occurrence, and everything above it
/// differs from `n`.
pub proof fn lemma_top_index_sound(s: Seq<u8>, n: u8)
    requires
        top_index_of(s, n) >= 1,
    ensures
        top_index_of(s, n) < s.len(),
        s[top_index_of(s, n)] == n,
        forall|j: int| top_index_of(s, n) < j < s.len() ==> s[j] != n,
    decreases s.len(),
{
    if s.len() <= 1 {
    } else if s.last() == n {
    } else {
        lemma_top_index_sound(s.drop_last(), n);
        assert forall|j: int| top_index_of(s, n) < j < s.len() implies s[j] != n by {
            if j < s.len() - 1 {
                assert(s.drop_last()[j] == s[j]);
            }
        }
    }
}

/// When `n` never occurs above the base slot, `top_index_of` reports none.
pub proof fn lemma_top_index_absent(s: Seq<u8>, n: u8)
    requires
        forall|j: int| 1 <= j < s.len() ==> s[j] != n,
    ensures
        top_index_of(s, n) == -1,
    decreases s.len(),
{
    if s.len() <= 1 {
    } else {
        lemma_top_index_absent(s.drop_last(), n);
    }
}

/// Resolve a position through the active layers, topmost first: the
/// first non-`Transparent` binding wins, and the base layer, which a
/// well-formed layout binds concretely everywhere, terminates the scan.
pub fn resolve_position(layout: &Layout, stack: &LayerStack, row: usize, col: usize) -> (r:
    KeyAction)
    requires
        layout.wf(),
        stack.wf(),
        stack.num_layers == layout.num_layers,
        row < layout.rows,
        col < layout.cols,
    ensures
        r == spec_resolve(*layout, stack.stack@, row as int, col as int),
        r != KeyAction::Transparent,
{
    let mut i: usize = stack.stack.len();
    proof {
        assert(stack.stack@.take(stack.stack@.len() as int) =~= stack.stack@);
    }
    while i > 0
        invariant
            layout.wf(),
            stack.wf(),
            stack.num_layers == layout.num_layers,
            row < layout.rows,
            col < layout.cols,
            0 <= i <= stack.stack@.len(),
            spec_resolve(*layout, stack.stack@.take(i as int), row as int, col as int)
                == spec_resolve(*layout, stack.stack@, row as int, col as int),
        decreases i,
    {
        i = i - 1;
        let layer = stack.stack[i];
        let a = layout.action_at(layer as usize, row, col);
        proof {
            assert(stack.stack@.take(i as int + 1).last() == stack.stack@[i as int]);
            assert(stack.stack@.take(i as int + 1).drop_last() =~= stack.stack@.take(i as int));
        }
        if !a.is_transparent() {
            return a;
        }
    }
    KeyAction::No
}

/// The first non-`Transparent` binding, scanning top-down, wins: there is
/// an index whose layer binds the position concretely, every layer above
/// it defers, and resolution returns exactly that binding. The base
/// layer's concrete binding guarantees such an index exists.
pub proof fn lemma_resolve_first_non_transparent(layout: Layout, s: Seq<u8>, row: int, col: int)
    requires
        layout.wf(),
        s.len() >= 1,
        s[0] == 0,
        forall|i: int| 0 <= i < s.len() ==> s[i] < layout.num_layers,
        0 <= row < layout.rows,
        0 <= col < layout.cols,
    ensures
        exists|i: int|
            0 <= i < s.len() && layout.spec_action(#[trigger] s[i] as int, row, col)
                != KeyAction::Transparent && spec_resolve(layout, s, row, col)
                == layout.spec_action(s[i] as int, row, col) && (forall|j: int|
                i < j < s.len() ==> layout.spec_action(s[j] as int, row, col)
                    == KeyAction::Transparent),
        spec_resolve(layout, s, row, col) != KeyAction::Transparent,
    decreases s.len(),
{
    if layout.spec_action(s.last() as int, row, col) != KeyAction::Transparent {
        let i = s.len() - 1;
        assert(layout.spec_action(s[i] as int, row, col) != KeyAction::Transparent);
    } else {
        assert(s.len() >= 2) by {
            if s.len() == 1 {
                assert(s.last() == s[0]);
                assert(entry_ok(layout.actions@, layout.num_layers, 0, row, col));
            }
        }
        lemma_resolve_first_non_transparent(layout, s.drop_last(), row, col);
        let i = choose|i: int|
            0 <= i < s.drop_last().len() && layout.spec_action(
                #[trigger] s.drop_last()[i] as int,
                row,
                col,
            ) != KeyAction::Transparent && spec_resolve(layout, s.drop_last(), row, col)
                == layout.spec_action(s.drop_last()[i] as int, row, col) && (forall|j: int|
                i < j < s.drop_last().len() ==> layout.spec_action(s.drop_last()[j] as int, row, col)
                    == KeyAction::Transparent);
        assert(s[i] == s.drop_last()[i]);
        assert forall|j: int| i < j < s.len() implies layout.spec_action(s[j] as int, row, col)
            == KeyAction::Transparent by {
            if j < s.len() - 1 {
                assert(s.drop_last()[j] == s[j]);
            }
        }
        assert(layout.spec_action(s[i] as int, row, col) != KeyAction::Transparent
            && spec_resolve(layout, s, row, col) == layout.spec_action(s[i] as int, row, col));
    }
}

/// What a `ToggleLayer` press does to the stack.
pub open spec fn spec_toggle(s: Seq<u8>, n: u8) -> Seq<u8> {
    if top_index_of(s, n) >= 1 {
        s.remove(top_index_of(s, n))
    } else {
        s.push(n)
    }
}

/// Two presses of `ToggleLayer(n)` in direct succession return the stack
/// to its original composition: the pair is the identity. This holds
/// whenever `n` is not an active overlay, or is the topmost entry and
/// active exactly once; a duplicate overlay occurrence of `n`, which only
/// momentary re-entrancy can create, is the one composition the pair
/// does not restore.
pub proof fn lemma_toggle_pair(s: Seq<u8>, n: u8)
    requires
        s.len() >= 1,
        top_index_of(s, n) == -1 || (top_index_of(s, n) == s.len() - 1 && (forall|j: int|
            1 <= j < s.len() - 1 ==> s[j] != n)),
    ensures
        spec_toggle(spec_toggle(s, n), n) == s,
{
    if top_index_of(s, n) == -1 {
        let s1 = s.push(n);
        assert(s1.last() == n);
        assert(top_index_of(s1, n) == s1.len() - 1);
        assert(s1.remove(s1.len() - 1) =~= s);
    } else {
        lemma_top_index_sound(s, n);
        assert(s.last() == n);
        let s1 = s.remove(s.len() - 1);
        assert(s1 =~= s.drop_last());
        lemma_top_index_absent(s1, n);
        assert(s1.push(n) =~= s);
    }
}

/// A one-shot layer press pushes its layer on top; the release of the
/// consuming key pops exactly that instance, so the stack returns to
/// its pre-one-shot composition, whatever sits below.
pub proof fn lemma_one_shot_round_trip(s: Seq<u8>, n: u8)
    requires
        s.len() >= 1,
    ensures
        top_index_of(s.push(n), n) == s.len(),
        s.push(n).remove(top_index_of(s.push(n), n)) == s,
{
    let s1 = s.push(n);
    assert(s1.last() == n);
    assert(top_index_of(s1, n) == s1.len() - 1);
    assert(s1.remove(s.len() as int) =~= s);
}

/// Any layer a resolved action names lies in the declared range: a
/// well-formed layout admits no out-of-range index at runtime.
pub proof fn lemma_resolve_action_in_range(layout: Layout, s: Seq<u8>, row: int, col: int)
    requires
        layout.wf(),
        s.len() >= 1,
        s[0] == 0,
        forall|i: int| 0 <= i < s.len() ==> s[i] < layout.num_layers,
        0 <= row < layout.rows,
        0 <= col < layout.cols,
    ensures
        match spec_resolve(layout, s, row, col).spec_layer_arg() {
            Some(n) => n < layout.num_layers,
            None => true,
        },
{
    lemma_resolve_first_non_transparent(layout, s, row, col);
    let i = choose|i: int|
        0 <= i < s.len() && layout.spec_action(#[trigger] s[i] as int, row, col)
            != KeyAction::Transparent && spec_resolve(layout, s, row, col) == layout.spec_action(
            s[i] as int,
            row,
            col,
        ) && (forall|j: int|
            i < j < s.len() ==> layout.spec_action(s[j] as int, row, col)
                == KeyAction::Transparent);
    assert(entry_ok(layout.actions@, layout.num_layers, s[i] as int, row, col));
}

} // verus!
