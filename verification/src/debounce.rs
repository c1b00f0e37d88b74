//! Per-position debouncing of raw matrix samples into stable edges.

use vstd::prelude::*;

verus! {

/// A stable transition of one key position.
#[derive(Clone, Copy, Debug, PartialEq, Eq, Structural)]
pub enum KeyEdge {
    Pressed,
    Released,
}

/// Debounce state of one position: the stable level last reported, and
/// how many consecutive ticks the raw signal has disagreed with it
/// (0 is the idle state; the settling direction is always `!stable`).
#[derive(Clone, Copy, Debug, PartialEq, Eq, Structural)]
pub struct KeyDebouncer {
    /// The debounced level: `true` while reported pressed.
    pub stable: bool,
    /// Consecutive raw samples that disagreed with `stable`.
    pub counter: u8,
}

/// One scan tick: a raw sample agreeing with the stable level resets the
/// settling counter; `threshold` consecutive disagreements emit the edge
/// and flip the stable level back to idle.
pub open spec fn spec_step(s: KeyDebouncer, raw: bool, threshold: u8) -> (KeyDebouncer, Option<
    KeyEdge,
>) {
    if raw == s.stable {
        (KeyDebouncer { stable: s.stable, counter: 0 }, None)
    } else if s.counter + 1 >= threshold {
        (
            KeyDebouncer { stable: raw, counter: 0 },
            Some(
                if raw {
                    KeyEdge::Pressed
                } else {
                    KeyEdge::Released
                },
            ),
        )
    } else {
        (KeyDebouncer { stable: s.stable, counter: (s.counter + 1) as u8 }, None)
    }
}

/// State and emitted edges after feeding a whole sequence of raw samples,
/// oldest first.
pub open spec fn spec_run(s: KeyDebouncer, samples: Seq<bool>, threshold: u8) -> (
    KeyDebouncer,
    Seq<KeyEdge>,
)
    decreases samples.len(),
{
    if samples.len() == 0 {
        (s, Seq::<KeyEdge>::empty())
    } else {
        let (s1, e) = spec_step(s, samples.first(), threshold);
        let (s2, rest) = spec_run(s1, samples.drop_first(), threshold);
        (
            s2,
            match e {
                Some(edge) => seq![edge] + rest,
                None => rest,
            },
        )
    }
}

impl KeyDebouncer {
    /// A position starts idle at the released level.
    pub fn new() -> (r: KeyDebouncer)
        ensures
            r == (KeyDebouncer { stable: false, counter: 0u8 }),
    {
        KeyDebouncer { stable: false, counter: 0 }
    }

    /// Feed one raw sample; emits the edge exactly when the signal has
    /// disagreed with the stable level for `threshold` consecutive ticks.
    pub fn update(&mut self, raw: bool, threshold: u8) -> (r: Option<KeyEdge>)
        requires
            threshold >= 1,
            old(self).counter < threshold,
        ensures
            (*final(self), r) == spec_step(*old(self), raw, threshold),
            final(self).counter < threshold,
    {
        if raw == self.stable {
            self.counter = 0;
            None
        } else if self.counter + 1 >= threshold {
            self.stable = raw;
            self.counter = 0;
            Some(
                if raw {
                    KeyEdge::Pressed
                } else {
                    KeyEdge::Released
                },
            )
        } else {
            self.counter = self.counter + 1;
            None
        }
    }
}

/// A constant run of `len` identical raw samples.
pub open spec fn rep(level: bool, len: int) -> Seq<bool> {
    Seq::new(len as nat, |i: int| level)
}

/// Running two sample batches in turn is one run of their concatenation,
/// with the emitted edges concatenated in order.
pub proof fn lemma_run_append(s: KeyDebouncer, a: Seq<bool>, b: Seq<bool>, threshold: u8)
    ensures
        spec_run(s, a + b, threshold).0 == spec_run(spec_run(s, a, threshold).0, b, threshold).0,
        spec_run(s, a + b, threshold).1 == spec_run(s, a, threshold).1 + spec_run(
            spec_run(s, a, threshold).0,
            b,
            threshold,
        ).1,
    decreases a.len(),
{
    if a.len() == 0 {
        assert(a + b =~= b);
        assert(spec_run(s, a, threshold).1 + spec_run(s, b, threshold).1 =~= spec_run(
            s,
            b,
            threshold,
        ).1);
    } else {
        let (s1, e) = spec_step(s, a.first(), threshold);
        assert((a + b).first() == a.first());
        assert((a + b).drop_first() =~= a.drop_first() + b);
        lemma_run_append(s1, a.drop_first(), b, threshold);
        match e {
            Some(edge) => {
                assert(seq![edge] + (spec_run(s1, a.drop_first(), threshold).1 + spec_run(
                    spec_run(s1, a.drop_first(), threshold).0,
                    b,
                    threshold,
                ).1) =~= (seq![edge] + spec_run(s1, a.drop_first(), threshold).1) + spec_run(
                    spec_run(s1, a.drop_first(), threshold).0,
                    b,
                    threshold,
                ).1);
            },
            None => {},
        }
    }
}

/// Fewer disagreeing samples than the threshold allows only settle: no
/// edge is emitted and the stable level stands.
pub proof fn lemma_settle_partial(s: KeyDebouncer, j: int, threshold: u8)
    requires
        0 <= j,
        s.counter + j < threshold,
    ensures
        spec_run(s, rep(!s.stable, j), threshold) == (
            KeyDebouncer { stable: s.stable, counter: (s.counter + j) as u8 },
            Seq::<KeyEdge>::empty(),
        ),
    decreases j,
{
    if j == 0 {
        assert(rep(!s.stable, 0).len() == 0);
        assert(s == (KeyDebouncer { stable: s.stable, counter: (s.counter + 0) as u8 }));
    } else {
        let (s1, e) = spec_step(s, !s.stable, threshold);
        assert(e is None);
        assert(s1 == (KeyDebouncer { stable: s.stable, counter: (s.counter + 1) as u8 }));
        assert(rep(!s.stable, j).first() == !s.stable);
        assert(rep(!s.stable, j).drop_first() =~= rep(!s1.stable, j - 1));
        lemma_settle_partial(s1, j - 1, threshold);
    }
}

/// A glitch shorter than the threshold never produces an edge: feeding
/// fewer than `threshold` disagreeing samples and then one agreeing
/// sample emits nothing and returns the position to idle at the same
/// stable level.
pub proof fn lemma_glitch_filtered(s: KeyDebouncer, k: int, threshold: u8)
    requires
        s.counter == 0,
        0 <= k,
        k < threshold,
    ensures
        spec_run(s, rep(!s.stable, k) + rep(s.stable, 1), threshold) == (
            KeyDebouncer { stable: s.stable, counter: 0u8 },
            Seq::<KeyEdge>::empty(),
        ),
{
    lemma_settle_partial(s, k, threshold);
    let mid = KeyDebouncer { stable: s.stable, counter: k as u8 };
    lemma_run_append(s, rep(!s.stable, k), rep(s.stable, 1), threshold);
    assert(rep(s.stable, 1).first() == s.stable);
    assert(rep(s.stable, 1).drop_first().len() == 0);
    assert(spec_step(mid, s.stable, threshold) == (
        KeyDebouncer { stable: s.stable, counter: 0u8 },
        Option::<KeyEdge>::None,
    ));
    assert(spec_run(
        KeyDebouncer { stable: s.stable, counter: 0u8 },
        rep(s.stable, 1).drop_first(),
        threshold,
    ) == (KeyDebouncer { stable: s.stable, counter: 0u8 }, Seq::<KeyEdge>::empty()));
    assert(spec_run(mid, rep(s.stable, 1), threshold) == (
        KeyDebouncer { stable: s.stable, counter: 0u8 },
        Seq::<KeyEdge>::empty(),
    ));
    assert(Seq::<KeyEdge>::empty() + Seq::<KeyEdge>::empty() =~= Seq::<KeyEdge>::empty());
}

/// Exactly `threshold` consecutive disagreeing raw samples are required
/// and sufficient: that run emits exactly one edge, for the new level,
/// and leaves the position idle at the flipped stable level.
pub proof fn lemma_exact_threshold(s: KeyDebouncer, threshold: u8)
    requires
        s.counter == 0,
        threshold >= 1,
    ensures
        spec_run(s, rep(!s.stable, threshold as int), threshold) == (
            KeyDebouncer { stable: !s.stable, counter: 0u8 },
            seq![
                if !s.stable {
                    KeyEdge::Pressed
                } else {
                    KeyEdge::Released
                },
            ],
        ),
{
    let t = threshold as int;
    lemma_settle_partial(s, t - 1, threshold);
    let mid = KeyDebouncer { stable: s.stable, counter: (t - 1) as u8 };
    lemma_run_append(s, rep(!s.stable, t - 1), rep(!s.stable, 1), threshold);
    assert(rep(!s.stable, t - 1) + rep(!s.stable, 1) =~= rep(!s.stable, t));
    assert(rep(!s.stable, 1).first() == !s.stable);
    assert(rep(!s.stable, 1).drop_first().len() == 0);
    let edge = if !s.stable {
        KeyEdge::Pressed
    } else {
        KeyEdge::Released
    };
    assert(spec_step(mid, !s.stable, threshold) == (
        KeyDebouncer { stable: !s.stable, counter: 0u8 },
        Some(edge),
    ));
    assert(spec_run(
        KeyDebouncer { stable: !s.stable, counter: 0u8 },
        rep(!s.stable, 1).drop_first(),
        threshold,
    ) == (KeyDebouncer { stable: !s.stable, counter: 0u8 }, Seq::<KeyEdge>::empty()));
    assert(seq![edge] + Seq::<KeyEdge>::empty() =~= seq![edge]);
    assert(spec_run(mid, rep(!s.stable, 1), threshold).1 =~= seq![edge]);
    assert(spec_run(mid, rep(!s.stable, 1), threshold).0 == (KeyDebouncer {
        stable: !s.stable,
        counter: 0u8,
    }));
    assert(Seq::<KeyEdge>::empty() + seq![edge] =~= seq![edge]);
}

/// Debounce state for the whole matrix, one entry per position.
#[derive(Clone, Debug)]
pub struct MatrixDebouncer {
    /// Per-position state, indexed `[row][col]`.
    pub states: Vec<Vec<KeyDebouncer>>,
    /// Consecutive-tick stability threshold, at least 1.
    pub threshold: u8,
}

impl MatrixDebouncer {
    /// Invariant: rectangular, a valid threshold, every counter settled
    /// below it.
    pub open spec fn wf(self, rows: u8, cols: u8) -> bool {
        &&& self.threshold >= 1
        &&& self.states@.len() == rows
        &&& forall|r: int| 0 <= r < self.states@.len() ==> #[trigger] self.states@[r]@.len() == cols
        &&& forall|r: int, c: int|
            0 <= r < self.states@.len() && 0 <= c < self.states@[r]@.len()
                ==> #[trigger] self.states@[r]@[c].counter < self.threshold
    }

    /// All positions idle at the released level.
    pub fn new(rows: u8, cols: u8, threshold: u8) -> (r: MatrixDebouncer)
        requires
            threshold >= 1,
        ensures
            r.wf(rows, cols),
            r.threshold == threshold,
            forall|x: int, y: int|
                0 <= x < rows && 0 <= y < cols ==> #[trigger] r.states@[x]@[y] == (KeyDebouncer {
                    stable: false,
                    counter: 0u8,
                }),
    {
        let mut states: Vec<Vec<KeyDebouncer>> = Vec::new();
        let mut r: usize = 0;
        while r < rows as usize
            invariant
                r <= rows as int,
                states@.len() == r,
                forall|x: int| 0 <= x < r ==> #[trigger] states@[x]@.len() == cols,
                forall|x: int, y: int|
                    0 <= x < r && 0 <= y < cols ==> #[trigger] states@[x]@[y] == (KeyDebouncer {
                        stable: false,
                        counter: 0u8,
                    }),
            decreases rows as int - r,
        {
            let mut row: Vec<KeyDebouncer> = Vec::new();
            let mut c: usize = 0;
            while c < cols as usize
                invariant
                    c <= cols as int,
                    row@.len() == c,
                    forall|y: int| 0 <= y < c ==> #[trigger] row@[y] == (KeyDebouncer {
                        stable: false,
                        counter: 0u8,
                    }),
                decreases cols as int - c,
            {
                row.push(KeyDebouncer::new());
                c = c + 1;
            }
            states.push(row);
            r = r + 1;
        }
        MatrixDebouncer { states, threshold }
    }

    /// Feed the raw sample of one position for this scan tick; other
    /// positions are untouched, so a stuck position never stalls the rest
    /// of the matrix.
    pub fn sample(&mut self, row: usize, col: usize, raw: bool, rows: u8, cols: u8) -> (r: Option<
        KeyEdge,
    >)
        requires
            old(self).wf(rows, cols),
            row < rows,
            col < cols,
        ensures
            final(self).wf(rows, cols),
            final(self).threshold == old(self).threshold,
            (final(self).states@[row as int]@[col as int], r) == spec_step(
                old(self).states@[row as int]@[col as int],
                raw,
                old(self).threshold,
            ),
            forall|x: int, y: int|
                0 <= x < rows && 0 <= y < cols && !(x == row && y == col)
                    ==> #[trigger] final(self).states@[x]@[y] == old(self).states@[x]@[y],
    {
        let threshold = self.threshold;
        let ghost old_states = self.states@;
        let mut row_vec = self.states.remove(row);
        let ghost row0 = row_vec@;
        let mut cell = row_vec.remove(col);
        let r = cell.update(raw, threshold);
        row_vec.insert(col, cell);
        proof {
            assert(row_vec@ =~= row0.update(col as int, cell));
        }
        let ghost new_row = row_vec;
        self.states.insert(row, row_vec);
        proof {
            assert(self.states@ =~= old_states.update(row as int, new_row));
            assert forall|x: int, y: int|
                0 <= x < rows && 0 <= y < cols && !(x == row && y == col) implies #[trigger] self
                .states@[x]@[y] == old(self).states@[x]@[y] by {
                if x == row {
                    assert(new_row@[y] == row0[y]);
                }
            }
        }
        r
    }
}

} // verus!
