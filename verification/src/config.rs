//! Declarative keymap configuration: the plain-data form of
//! `keyboard.toml`'s layout section, its size check, and the parsing of
//! key strings into actions.

use vstd::prelude::*;
use crate::keycode::ModifierCombination;

verus! {

/// Matrix dimensions fixed at construction time.
#[derive(Clone, Copy, Debug, PartialEq, Eq, Structural)]
pub struct MatrixConfig {
    pub rows: u8,
    pub cols: u8,
    pub layers: u8,
}

/// The declarative keymap: one string per key, indexed
/// `keymap[layer][row][col]`.
#[derive(Clone, Debug)]
pub struct LayoutConfig {
    pub keymap: Vec<Vec<Vec<String>>>,
}

/// A configuration fault, reported at build time; none of these can reach
/// runtime resolution.
#[derive(Clone, Copy, Debug, PartialEq, Eq, Structural)]
pub enum ConfigError {
    /// Layer count in the keymap differs from `[matrix.layers]`.
    LayerCountMismatch,
    /// Some layer's row count differs from `[matrix.rows]`.
    RowCountMismatch,
    /// Some row's key count differs from `[matrix.cols]`.
    ColCountMismatch,
    /// `LM(layer, modifier)` did not hold exactly two arguments.
    LmArity,
    /// The modifier list of `LM(layer, modifier)` named no modifier.
    LmModifier,
    /// `LT(layer, key)` did not hold exactly two arguments.
    LtArity,
    /// The layout's layers do not all share the matrix dimensions.
    NonUniformLayout,
    /// The base layer left a position `Transparent`, so resolution could
    /// fail to terminate in a concrete action.
    TransparentBase,
    /// An action names a layer outside the declared range.
    LayerOutOfRange,
}

impl ConfigError {
    /// A human-readable description of the fault.
    pub fn message(&self) -> &'static str {
        match self {
            ConfigError::LayerCountMismatch => "keyboard.toml: Layer number in keymap doesn't match with [matrix.layers]",
            ConfigError::RowCountMismatch => "keyboard.toml: Row number in keymap doesn't match with [matrix.row]",
            ConfigError::ColCountMismatch => "keyboard.toml: Col number in keymap doesn't match with [matrix.col]",
            ConfigError::LmArity => "keyboard.toml: LM(layer, modifier) invalid, please check the documentation",
            ConfigError::LmModifier => "keyboard.toml: modifier in LM(layer, modifier) is not valid! Please check the documentation",
            ConfigError::LtArity => "keyboard.toml: LT(layer, key) invalid, please check the documentation",
            ConfigError::NonUniformLayout => "layout: layers do not all have the declared matrix dimensions",
            ConfigError::TransparentBase => "layout: the base layer must bind every position to a concrete action",
            ConfigError::LayerOutOfRange => "layout: an action names a layer outside the declared range",
        }
    }
}

/// Check whether the size of the keymap matches the matrix config:
/// `Err` names the first of layer, row, col whose count disagrees.
pub fn check_keymap_size(l: &LayoutConfig, matrix_config: MatrixConfig) -> (r: Result<
    (),
    ConfigError,
>)
    ensures
        r == spec_check_keymap_size(*l, matrix_config),
{
    if l.keymap.len() != matrix_config.layers as usize {
        return Err(ConfigError::LayerCountMismatch);
    }
    let mut i: usize = 0;
    while i < l.keymap.len()
        invariant
            i <= l.keymap@.len(),
            l.keymap@.len() == matrix_config.layers as int,
            forall|a: int| 0 <= a < i ==> #[trigger] l.keymap@[a]@.len() == matrix_config.rows as int,
        decreases l.keymap@.len() - i,
    {
        if l.keymap[i].len() != matrix_config.rows as usize {
            return Err(ConfigError::RowCountMismatch);
        }
        i = i + 1;
    }
    let mut a: usize = 0;
    while a < l.keymap.len()
        invariant
            a <= l.keymap@.len(),
            l.keymap@.len() == matrix_config.layers as int,
            forall|x: int| 0 <= x < l.keymap@.len() ==> #[trigger] l.keymap@[x]@.len()
                == matrix_config.rows as int,
            forall|x: int, y: int|
                0 <= x < a && 0 <= y < l.keymap@[x]@.len() ==> #[trigger] l.keymap@[x]@[y]@.len()
                    == matrix_config.cols as int,
        decreases l.keymap@.len() - a,
    {
        let layer = &l.keymap[a];
        let mut b: usize = 0;
        while b < layer.len()
            invariant
                b <= layer@.len(),
                layer == l.keymap@[a as int],
                a < l.keymap@.len(),
                l.keymap@.len() == matrix_config.layers as int,
                forall|x: int| 0 <= x < l.keymap@.len() ==> #[trigger] l.keymap@[x]@.len()
                    == matrix_config.rows as int,
                forall|y: int| 0 <= y < b ==> #[trigger] layer@[y]@.len()
                    == matrix_config.cols as int,
            decreases layer@.len() - b,
        {
            if layer[b].len() != matrix_config.cols as usize {
                proof {
                    assert(l.keymap@[a as int]@[b as int]@.len() != matrix_config.cols as int);
                    assert(exists|x: int, y: int|
                        0 <= x < l.keymap@.len() && 0 <= y < l.keymap@[x]@.len()
                            && #[trigger] l.keymap@[x]@[y]@.len() != matrix_config.cols);
                    assert(!(exists|x: int|
                        0 <= x < l.keymap@.len() && #[trigger] l.keymap@[x]@.len()
                            != matrix_config.rows));
                }
                return Err(ConfigError::ColCountMismatch);
            }
            b = b + 1;
        }
        a = a + 1;
    }
    Ok(())
}

/// What `check_keymap_size` decides: the layer count must match, then
/// every layer's row count, then every row's key count, with the first
/// disagreement reported.
pub open spec fn spec_check_keymap_size(l: LayoutConfig, m: MatrixConfig) -> Result<
    (),
    ConfigError,
> {
    if l.keymap@.len() != m.layers {
        Err(ConfigError::LayerCountMismatch)
    } else if exists|a: int| 0 <= a < l.keymap@.len() && #[trigger] l.keymap@[a]@.len() != m.rows {
        Err(ConfigError::RowCountMismatch)
    } else if exists|a: int, b: int|
        0 <= a < l.keymap@.len() && 0 <= b < l.keymap@[a]@.len() && #[trigger] l.keymap@[a]@[b]@.len()
            != m.cols {
        Err(ConfigError::ColCountMismatch)
    } else {
        Ok(())
    }
}

/// A decimal digit.
pub open spec fn is_digit(c: char) -> bool {
    48 <= c as u32 <= 57
}

/// Every character a decimal digit.
pub open spec fn all_digits(s: Seq<char>) -> bool {
    forall|i: int| 0 <= i < s.len() ==> is_digit(#[trigger] s[i])
}

/// Value of a decimal digit string.
pub open spec fn digits_val(s: Seq<char>) -> int
    decreases s.len(),
{
    if s.len() == 0 {
        0
    } else {
        digits_val(s.drop_last()) * 10 + (s.last() as u32 - 48)
    }
}

/// What `str::parse::<u8>` returns on a plain digit string: the value
/// when the string is non-empty, all digits, and fits.
pub open spec fn spec_parse_u8(s: Seq<char>) -> Option<u8> {
    if s.len() > 0 && all_digits(s) && digits_val(s) <= 255 {
        Some(digits_val(s) as u8)
    } else {
        None
    }
}

pub proof fn lemma_digits_val_nonneg(s: Seq<char>)
    requires
        all_digits(s),
    ensures
        digits_val(s) >= 0,
    decreases s.len(),
{
    if s.len() > 0 {
        assert(all_digits(s.drop_last())) by {
            assert(forall|i: int| 0 <= i < s.len() - 1 ==> s.drop_last()[i] == s[i]);
        }
        lemma_digits_val_nonneg(s.drop_last());
    }
}

/// Once a digit prefix exceeds a bound, the whole string does too.
pub proof fn lemma_digits_val_monotone(s: Seq<char>, i: int)
    requires
        all_digits(s),
        0 <= i <= s.len(),
    ensures
        digits_val(s) >= digits_val(s.take(i)),
    decreases s.len() - i,
{
    if i < s.len() {
        lemma_digits_val_monotone(s, i + 1);
        assert(s.take(i + 1).drop_last() =~= s.take(i));
        assert(all_digits(s.take(i))) by {
            assert(forall|j: int| 0 <= j < i ==> s.take(i)[j] == s[j]);
        }
        lemma_digits_val_nonneg(s.take(i));
        assert(digits_val(s.take(i + 1)) == digits_val(s.take(i)) * 10 + (s[i] as u32 - 48));
    } else {
        assert(s.take(i) =~= s);
    }
}

/// The string starts with the prefix.
pub open spec fn starts_with(s: Seq<char>, p: Seq<char>) -> bool {
    s.len() >= p.len() && s.take(p.len() as int) == p
}

/// The string ends with the suffix.
pub open spec fn ends_with(s: Seq<char>, p: Seq<char>) -> bool {
    s.len() >= p.len() && s.skip(s.len() - p.len()) == p
}

/// What `str::trim_start_matches` leaves: every leading repetition of a
/// non-empty prefix removed.
pub open spec fn spec_trim_prefix(s: Seq<char>, p: Seq<char>) -> Seq<char>
    decreases s.len(),
{
    if p.len() >= 1 && starts_with(s, p) {
        spec_trim_prefix(s.skip(p.len() as int), p)
    } else {
        s
    }
}

/// What `str::trim_end_matches` leaves: every trailing repetition of a
/// non-empty suffix removed.
pub open spec fn spec_trim_suffix(s: Seq<char>, p: Seq<char>) -> Seq<char>
    decreases s.len(),
{
    if p.len() >= 1 && ends_with(s, p) {
        spec_trim_suffix(s.take(s.len() - p.len()), p)
    } else {
        s
    }
}

/// Compare two strings character by character.
pub fn str_equal(a: &str, b: &str) -> (r: bool)
    ensures
        r == (a@ == b@),
{
    let la = a.unicode_len();
    let lb = b.unicode_len();
    if la != lb {
        proof {
            assert(a@ != b@);
        }
        return false;
    }
    let mut i: usize = 0;
    while i < la
        invariant
            la == a@.len(),
            la == b@.len(),
            i <= la,
            forall|j: int| 0 <= j < i ==> a@[j] == b@[j],
        decreases la - i,
    {
        if a.get_char(i) != b.get_char(i) {
            return false;
        }
        i = i + 1;
    }
    proof {
        assert(a@ =~= b@);
    }
    true
}

/// Whether `s` starts with `p`, by characters.
pub fn str_starts_with(s: &str, p: &str) -> (r: bool)
    ensures
        r == starts_with(s@, p@),
{
    let ls = s.unicode_len();
    let lp = p.unicode_len();
    if ls < lp {
        return false;
    }
    let mut i: usize = 0;
    while i < lp
        invariant
            ls == s@.len(),
            lp == p@.len(),
            lp <= ls,
            i <= lp,
            forall|j: int| 0 <= j < i ==> s@[j] == p@[j],
        decreases lp - i,
    {
        if s.get_char(i) != p.get_char(i) {
            proof {
                assert(s@.take(p@.len() as int)[i as int] != p@[i as int]);
            }
            return false;
        }
        i = i + 1;
    }
    proof {
        assert(s@.take(p@.len() as int) =~= p@);
    }
    true
}

/// Whether `s` ends with `p`, by characters.
pub fn str_ends_with(s: &str, p: &str) -> (r: bool)
    ensures
        r == ends_with(s@, p@),
{
    let ls = s.unicode_len();
    let lp = p.unicode_len();
    if ls < lp {
        return false;
    }
    let off = ls - lp;
    let mut i: usize = 0;
    while i < lp
        invariant
            ls == s@.len(),
            lp == p@.len(),
            off == ls - lp,
            i <= lp,
            forall|j: int| 0 <= j < i ==> s@[off + j] == p@[j],
        decreases lp - i,
    {
        if s.get_char(off + i) != p.get_char(i) {
            proof {
                assert(s@.skip(s@.len() - p@.len())[i as int] != p@[i as int]);
            }
            return false;
        }
        i = i + 1;
    }
    proof {
        assert(s@.skip(s@.len() - p@.len()) =~= p@);
    }
    true
}

/// `str::trim_start_matches`, by characters.
pub fn trim_start_matching<'a>(s: &'a str, p: &str) -> (r: &'a str)
    ensures
        r@ == spec_trim_prefix(s@, p@),
    decreases s@.len(),
{
    let lp = p.unicode_len();
    if lp >= 1 && str_starts_with(s, p) {
        let rest = s.substring_char(lp, s.unicode_len());
        proof {
            assert(rest@ =~= s@.skip(p@.len() as int));
        }
        trim_start_matching(rest, p)
    } else {
        s
    }
}

/// `str::trim_end_matches`, by characters.
pub fn trim_end_matching<'a>(s: &'a str, p: &str) -> (r: &'a str)
    ensures
        r@ == spec_trim_suffix(s@, p@),
    decreases s@.len(),
{
    let lp = p.unicode_len();
    if lp >= 1 && str_ends_with(s, p) {
        let rest = s.substring_char(0, s.unicode_len() - lp);
        proof {
            assert(rest@ =~= s@.take(s@.len() - p@.len()));
        }
        trim_end_matching(rest, p)
    } else {
        s
    }
}

/// `str::parse::<u8>` on a digit string: the value when non-empty, all
/// digits and at most 255.
pub fn parse_u8(s: &str) -> (r: Option<u8>)
    ensures
        r == spec_parse_u8(s@),
{
    let n = s.unicode_len();
    if n == 0 {
        return None;
    }
    let mut val: u32 = 0;
    let mut i: usize = 0;
    while i < n
        invariant
            n == s@.len(),
            i <= n,
            all_digits(s@.take(i as int)),
            val == digits_val(s@.take(i as int)),
            val <= 255,
        decreases n - i,
    {
        let c = s.get_char(i);
        let cv = c as u32;
        if cv < 48 || cv > 57 {
            proof {
                assert(!is_digit(s@[i as int]));
                assert(!all_digits(s@));
            }
            return None;
        }
        let d = cv - 48;
        proof {
            assert(s@.take(i as int + 1).drop_last() =~= s@.take(i as int));
            assert(s@.take(i as int + 1).last() == s@[i as int]);
            assert(all_digits(s@.take(i as int + 1))) by {
                assert(forall|j: int| 0 <= j < i ==> s@.take(i as int + 1)[j] == s@.take(
                    i as int,
                )[j]);
            }
        }
        let next: u32 = val * 10 + d;
        if next > 255 {
            proof {
                assert(digits_val(s@.take(i as int + 1)) == next);
                if all_digits(s@) {
                    lemma_digits_val_monotone(s@, i as int + 1);
                }
            }
            return None;
        }
        val = next;
        i = i + 1;
    }
    proof {
        assert(s@.take(n as int) =~= s@);
    }
    Some(val as u8)
}

/// ASCII whitespace, as `str::trim` strips it.
pub open spec fn is_ws(c: char) -> bool {
    c as u32 == 32 || (9 <= c as u32 <= 13)
}

/// Leading whitespace removed.
pub open spec fn trim_front_ws(s: Seq<char>) -> Seq<char>
    decreases s.len(),
{
    if s.len() > 0 && is_ws(s.first()) {
        trim_front_ws(s.drop_first())
    } else {
        s
    }
}

/// Trailing whitespace removed.
pub open spec fn trim_back_ws(s: Seq<char>) -> Seq<char>
    decreases s.len(),
{
    if s.len() > 0 && is_ws(s.last()) {
        trim_back_ws(s.drop_last())
    } else {
        s
    }
}

/// What `str::trim` leaves.
pub open spec fn spec_trim_ws(s: Seq<char>) -> Seq<char> {
    trim_back_ws(trim_front_ws(s))
}

fn is_ws_char(c: char) -> (r: bool)
    ensures
        r == is_ws(c),
{
    let v = c as u32;
    v == 32 || (9 <= v && v <= 13)
}

/// `str::trim`, by characters.
pub fn trim_ws<'a>(s: &'a str) -> (r: &'a str)
    ensures
        r@ == spec_trim_ws(s@),
{
    let t = trim_front(s);
    trim_back(t)
}

fn trim_front<'a>(s: &'a str) -> (r: &'a str)
    ensures
        r@ == trim_front_ws(s@),
    decreases s@.len(),
{
    let n = s.unicode_len();
    if n > 0 && is_ws_char(s.get_char(0)) {
        let rest = s.substring_char(1, n);
        proof {
            assert(rest@ =~= s@.drop_first());
        }
        trim_front(rest)
    } else {
        s
    }
}

fn trim_back<'a>(s: &'a str) -> (r: &'a str)
    ensures
        r@ == trim_back_ws(s@),
    decreases s@.len(),
{
    let n = s.unicode_len();
    if n > 0 && is_ws_char(s.get_char(n - 1)) {
        let rest = s.substring_char(0, n - 1);
        proof {
            assert(rest@ =~= s@.drop_last());
        }
        trim_back(rest)
    } else {
        s
    }
}

/// Index of the first separator, `-1` when none occurs.
pub open spec fn first_sep(s: Seq<char>, sep: char) -> int
    decreases s.len(),
{
    if s.len() == 0 {
        -1
    } else if s.first() == sep {
        0
    } else {
        let r = first_sep(s.drop_first(), sep);
        if r < 0 {
            -1
        } else {
            r + 1
        }
    }
}

pub proof fn lemma_first_sep_bounds(s: Seq<char>, sep: char)
    ensures
        first_sep(s, sep) < s.len(),
        first_sep(s, sep) >= 0 ==> s[first_sep(s, sep)] == sep && (forall|j: int|
            0 <= j < first_sep(s, sep) ==> s[j] != sep),
        first_sep(s, sep) < 0 ==> forall|j: int| 0 <= j < s.len() ==> s[j] != sep,
    decreases s.len(),
{
    if s.len() > 0 && s.first() != sep {
        lemma_first_sep_bounds(s.drop_first(), sep);
        let r = first_sep(s.drop_first(), sep);
        if r >= 0 {
            assert(s[r + 1] == s.drop_first()[r]);
            assert forall|j: int| 0 <= j < r + 1 implies s[j] != sep by {
                if j > 0 {
                    assert(s.drop_first()[j - 1] == s[j]);
                }
            }
        } else {
            assert forall|j: int| 0 <= j < s.len() implies s[j] != sep by {
                if j > 0 {
                    assert(s.drop_first()[j - 1] == s[j]);
                }
            }
        }
    }
}

/// What `str::split_terminator` yields: segments between separators,
/// without a trailing empty segment for a trailing separator.
pub open spec fn spec_split(s: Seq<char>, sep: char) -> Seq<Seq<char>>
    decreases s.len(),
{
    if s.len() == 0 {
        Seq::empty()
    } else {
        let i = first_sep(s, sep);
        if 0 <= i < s.len() {
            seq![s.take(i)] + spec_split(s.skip(i + 1), sep)
        } else {
            seq![s]
        }
    }
}

/// Segments trimmed of whitespace, empty ones dropped.
pub open spec fn spec_clean(parts: Seq<Seq<char>>) -> Seq<Seq<char>>
    decreases parts.len(),
{
    if parts.len() == 0 {
        Seq::empty()
    } else {
        let rest = spec_clean(parts.drop_last());
        let t = spec_trim_ws(parts.last());
        if t.len() > 0 {
            rest.push(t)
        } else {
            rest
        }
    }
}

/// Index of the first separator character, scanning left to right.
fn find_sep(s: &str, sep: char) -> (r: Option<usize>)
    ensures
        match r {
            Some(i) => i < s@.len() && s@[i as int] == sep && (forall|j: int|
                0 <= j < i ==> s@[j] != sep),
            None => forall|j: int| 0 <= j < s@.len() ==> s@[j] != sep,
        },
{
    let n = s.unicode_len();
    let mut idx: usize = 0;
    while idx < n
        invariant
            n == s@.len(),
            idx <= n,
            forall|j: int| 0 <= j < idx ==> s@[j] != sep,
        decreases n - idx,
    {
        if s.get_char(idx) == sep {
            return Some(idx);
        }
        idx = idx + 1;
    }
    None
}

/// Split on the separator, trim each segment, and drop empty segments:
/// the argument-list form used by `LM(...)` and `LT(...)`.
pub fn split_clean(s: &str, sep: char) -> (r: Vec<String>)
    ensures
        r@.len() == spec_clean(spec_split(s@, sep)).len(),
        forall|i: int| 0 <= i < r@.len() ==> r@[i]@ == spec_clean(spec_split(s@, sep))[i],
    decreases s@.len(),
{
    let n = s.unicode_len();
    if n == 0 {
        proof {
            assert(spec_clean(spec_split(s@, sep)).len() == 0);
        }
        return Vec::new();
    }
    let sep_at = find_sep(s, sep);
    let found = sep_at.is_some();
    let idx = match sep_at {
        Some(i) => i,
        None => 0,
    };
    proof {
        lemma_first_sep_bounds(s@, sep);
        if found {
            assert(first_sep(s@, sep) == idx) by {
                if first_sep(s@, sep) < idx {
                    assert(s@[first_sep(s@, sep)] != sep);
                } else if first_sep(s@, sep) > idx {
                    assert(s@[idx as int] != sep);
                }
            }
        } else {
            assert(first_sep(s@, sep) < 0) by {
                if first_sep(s@, sep) >= 0 {
                    assert(s@[first_sep(s@, sep)] == sep);
                }
            }
        }
    }
    if found {
        let head = s.substring_char(0, idx);
        let tail = s.substring_char(idx + 1, n);
        proof {
            assert(head@ =~= s@.take(idx as int));
            assert(tail@ =~= s@.skip(idx as int + 1));
        }
        let mut rest = split_clean(tail, sep);
        let t = trim_ws(head);
        let ghost parts_rest = spec_split(tail@, sep);
        if t.unicode_len() > 0 {
            let mut out: Vec<String> = Vec::new();
            out.push(t.to_owned());
            let mut k: usize = 0;
            while k < rest.len()
                invariant
                    out@.len() == k + 1,
                    k <= rest@.len(),
                    out@[0]@ == spec_trim_ws(s@.take(first_sep(s@, sep))),
                    forall|i: int| 0 <= i < k ==> out@[i + 1]@ == rest@[i]@,
                decreases rest@.len() - k,
            {
                let item = rest[k].clone();
                out.push(item);
                k = k + 1;
            }
            proof {
                lemma_clean_prepend(s@, sep, true);
                let cleaned = spec_clean(spec_split(s@, sep));
                let cleaned_tail = spec_clean(spec_split(s@.skip(idx as int + 1), sep));
                assert(cleaned =~= seq![spec_trim_ws(s@.take(idx as int))] + cleaned_tail);
                assert forall|i: int| 0 <= i < out@.len() implies out@[i]@ == cleaned[i] by {
                    if i > 0 {
                        assert(out@[i]@ == rest@[i - 1]@);
                        assert(cleaned[i] == cleaned_tail[i - 1]);
                    }
                }
            }
            out
        } else {
            proof {
                lemma_clean_prepend(s@, sep, false);
                assert(spec_clean(spec_split(s@, sep)) =~= spec_clean(
                    spec_split(s@.skip(idx as int + 1), sep),
                ));
            }
            rest
        }
    } else {
        let t = trim_ws(s);
        let mut out: Vec<String> = Vec::new();
        proof {
            assert(spec_split(s@, sep) =~= seq![s@]);
            assert(seq![s@].drop_last() =~= Seq::<Seq<char>>::empty());
            assert(spec_clean(Seq::<Seq<char>>::empty()) =~= Seq::<Seq<char>>::empty());
        }
        if t.unicode_len() > 0 {
            out.push(t.to_owned());
            proof {
                assert(spec_clean(spec_split(s@, sep)) =~= Seq::<Seq<char>>::empty().push(
                    spec_trim_ws(s@),
                ));
                assert(out@[0]@ == spec_trim_ws(s@));
            }
        } else {
            proof {
                assert(spec_clean(spec_split(s@, sep)) =~= Seq::<Seq<char>>::empty());
            }
        }
        out
    }
}

/// Cleaning a split distributes over taking off the first segment.
proof fn lemma_clean_prepend(s: Seq<char>, sep: char, kept: bool)
    requires
        s.len() > 0,
        0 <= first_sep(s, sep) < s.len(),
        kept == (spec_trim_ws(s.take(first_sep(s, sep))).len() > 0),
    ensures
        kept ==> spec_clean(spec_split(s, sep)) =~= seq![
            spec_trim_ws(s.take(first_sep(s, sep))),
        ] + spec_clean(spec_split(s.skip(first_sep(s, sep) + 1), sep)),
        !kept ==> spec_clean(spec_split(s, sep)) =~= spec_clean(
            spec_split(s.skip(first_sep(s, sep) + 1), sep),
        ),
{
    let i = first_sep(s, sep);
    let head = s.take(i);
    let rest = spec_split(s.skip(i + 1), sep);
    assert(spec_split(s, sep) == seq![head] + rest);
    lemma_clean_prepend_parts(head, rest);
}

/// Cleaning `[head] + rest` keeps the trimmed head in front when it is
/// non-empty.
proof fn lemma_clean_prepend_parts(head: Seq<char>, rest: Seq<Seq<char>>)
    ensures
        spec_trim_ws(head).len() > 0 ==> spec_clean(seq![head] + rest) =~= seq![
            spec_trim_ws(head),
        ] + spec_clean(rest),
        spec_trim_ws(head).len() == 0 ==> spec_clean(seq![head] + rest) =~= spec_clean(rest),
    decreases rest.len(),
{
    let th = spec_trim_ws(head);
    if rest.len() == 0 {
        assert((seq![head] + rest) =~= seq![head]);
        assert(seq![head].drop_last() =~= Seq::<Seq<char>>::empty());
        assert(spec_clean(Seq::<Seq<char>>::empty()) =~= Seq::<Seq<char>>::empty());
        assert(spec_clean(rest) =~= Seq::<Seq<char>>::empty());
        if th.len() > 0 {
            assert(spec_clean(seq![head]) =~= Seq::<Seq<char>>::empty().push(th));
            assert(seq![th] + spec_clean(rest) =~= Seq::<Seq<char>>::empty().push(th));
        }
    } else {
        assert((seq![head] + rest).drop_last() =~= seq![head] + rest.drop_last());
        assert((seq![head] + rest).last() == rest.last());
        lemma_clean_prepend_parts(head, rest.drop_last());
        let tl = spec_trim_ws(rest.last());
        if th.len() > 0 {
            if tl.len() > 0 {
                assert((seq![th] + spec_clean(rest.drop_last())).push(tl) =~= seq![th]
                    + spec_clean(rest.drop_last()).push(tl));
            }
        }
    }
}

/// Parse the layer number between a prefix and a suffix, as in `MO(3)`:
/// the caller passes the delimiters, and the number between them must be
/// a plain decimal `u8`.
pub fn get_layer(key: String, prefix: &str, suffix: &str) -> (r: u8)
    requires
        spec_parse_u8(spec_trim_suffix(spec_trim_prefix(key@, prefix@), suffix@)) is Some,
    ensures
        Some(r) == spec_parse_u8(spec_trim_suffix(spec_trim_prefix(key@, prefix@), suffix@)),
{
    let stripped = trim_end_matching(trim_start_matching(key.as_str(), prefix), suffix);
    let parsed = parse_u8(stripped);
    match parsed {
        Some(v) => v,
        // Unreachable: the precondition promises the number parses.
        None => 0,
    }
}

/// A parsed key-string: the structured form a layout generator emits
/// code from. Named keys keep their name; layer forms carry their
/// parsed arguments.
#[derive(Clone, Debug, PartialEq, Eq)]
pub enum ParsedKey {
    /// An all-underscore key: bound to nothing.
    No,
    /// A plain named key such as `A` or `Kp7`.
    Named(String),
    /// `MO(n)`.
    MomentaryLayer(u8),
    /// `OSL(n)`.
    OneShotLayer(u8),
    /// `LM(n, mods)`.
    LayerWithModifier(u8, ModifierCombination),
    /// `LT(n, key)`.
    TapHold(u8, String),
    /// `TT(n)`.
    TapToggle(u8),
    /// `TG(n)`.
    ToggleLayer(u8),
}

/// Right/gui/alt/shift/ctrl contribution of one modifier word; an
/// unknown word contributes nothing.
pub open spec fn word_flags(w: Seq<char>) -> (bool, bool, bool, bool, bool) {
    if w == "LShift"@ {
        (false, false, false, true, false)
    } else if w == "LCtrl"@ {
        (false, false, false, false, true)
    } else if w == "LAlt"@ {
        (false, false, true, false, false)
    } else if w == "Lgui"@ {
        (false, true, false, false, false)
    } else if w == "RShift"@ {
        (true, false, false, true, false)
    } else if w == "RCtrl"@ {
        (true, false, false, false, true)
    } else if w == "RAlt"@ {
        (true, false, true, false, false)
    } else if w == "Rgui"@ {
        (true, true, false, false, false)
    } else {
        (false, false, false, false, false)
    }
}

/// Flags accumulated over all modifier words of an `LM(...)` argument.
pub open spec fn lm_flags(words: Seq<Seq<char>>) -> (bool, bool, bool, bool, bool)
    decreases words.len(),
{
    if words.len() == 0 {
        (false, false, false, false, false)
    } else {
        let a = lm_flags(words.drop_last());
        let b = word_flags(words.last());
        (a.0 || b.0, a.1 || b.1, a.2 || b.2, a.3 || b.3, a.4 || b.4)
    }
}

/// An all-underscore key string.
pub open spec fn underscores_only(s: Seq<char>) -> bool {
    s.len() > 0 && forall|i: int| 0 <= i < s.len() ==> s[i] == '_'
}

/// The trimmed arguments of `LM(...)`: prefix repetitions stripped, then
/// one closing parenthesis, then split on commas.
pub open spec fn lm_inner(s: Seq<char>) -> Seq<char> {
    let t = spec_trim_prefix(s, "LM("@);
    t.take(t.len() - 1)
}

/// The comma arguments of `LT(...)`.
pub open spec fn lt_args(s: Seq<char>) -> Seq<Seq<char>> {
    spec_clean(spec_split(spec_trim_suffix(spec_trim_prefix(s, "LT("@), ")"@), ','))
}

/// The configuration error `parse_key` reports for a key string, if any.
pub open spec fn spec_parse_key_err(s: Seq<char>) -> Option<ConfigError> {
    if s.len() < 5 {
        None
    } else if s.take(3) == "LM("@ {
        let t = spec_trim_prefix(s, "LM("@);
        if !ends_with(t, ")"@) {
            Some(ConfigError::LmArity)
        } else {
            let parts = spec_clean(spec_split(lm_inner(s), ','));
            if parts.len() != 2 {
                Some(ConfigError::LmArity)
            } else {
                let f = lm_flags(spec_clean(spec_split(parts[1], '|')));
                if !(f.1 || f.2 || f.3 || f.4) {
                    Some(ConfigError::LmModifier)
                } else {
                    None
                }
            }
        }
    } else if s.take(3) == "LT("@ {
        if lt_args(s).len() != 2 {
            Some(ConfigError::LtArity)
        } else {
            None
        }
    } else {
        None
    }
}

/// The inputs on which `parse_key` is defined: wherever a layer number
/// is read out of the key string, it must parse as a decimal `u8`.
pub open spec fn spec_parse_key_safe(s: Seq<char>) -> bool {
    if s.len() < 5 {
        true
    } else if s.take(3) == "MO("@ {
        spec_parse_u8(spec_trim_suffix(spec_trim_prefix(s, "MO("@), ")"@)) is Some
    } else if s.take(3) == "OSL"@ {
        spec_parse_u8(spec_trim_suffix(spec_trim_prefix(s, "OSL("@), ")"@)) is Some
    } else if s.take(3) == "TT("@ {
        spec_parse_u8(spec_trim_suffix(spec_trim_prefix(s, "TT("@), ")"@)) is Some
    } else if s.take(3) == "TG("@ {
        spec_parse_u8(spec_trim_suffix(spec_trim_prefix(s, "TG("@), ")"@)) is Some
    } else if s.take(3) == "LM("@ {
        spec_parse_key_err(s) is Some || spec_parse_u8(
            spec_clean(spec_split(lm_inner(s), ','))[0],
        ) is Some
    } else if s.take(3) == "LT("@ {
        spec_parse_key_err(s) is Some || spec_parse_u8(lt_args(s)[0]) is Some
    } else {
        true
    }
}

/// The value `parse_key` owes for a key string that parses cleanly.
pub open spec fn parsed_key_ok(s: Seq<char>, p: ParsedKey) -> bool {
    if s.len() < 5 {
        if underscores_only(s) {
            p == ParsedKey::No
        } else {
            p matches ParsedKey::Named(name) && name@ == s
        }
    } else if s.take(3) == "MO("@ {
        p matches ParsedKey::MomentaryLayer(n) && Some(n) == spec_parse_u8(
            spec_trim_suffix(spec_trim_prefix(s, "MO("@), ")"@),
        )
    } else if s.take(3) == "OSL"@ {
        p matches ParsedKey::OneShotLayer(n) && Some(n) == spec_parse_u8(
            spec_trim_suffix(spec_trim_prefix(s, "OSL("@), ")"@),
        )
    } else if s.take(3) == "TT("@ {
        p matches ParsedKey::TapToggle(n) && Some(n) == spec_parse_u8(
            spec_trim_suffix(spec_trim_prefix(s, "TT("@), ")"@),
        )
    } else if s.take(3) == "TG("@ {
        p matches ParsedKey::ToggleLayer(n) && Some(n) == spec_parse_u8(
            spec_trim_suffix(spec_trim_prefix(s, "TG("@), ")"@),
        )
    } else if s.take(3) == "LM("@ {
        let parts = spec_clean(spec_split(lm_inner(s), ','));
        let f = lm_flags(spec_clean(spec_split(parts[1], '|')));
        p matches ParsedKey::LayerWithModifier(n, m) && Some(n) == spec_parse_u8(parts[0])
            && m.wf() && m.spec_right() == f.0 && m.spec_gui() == f.1 && m.spec_alt() == f.2
            && m.spec_shift() == f.3 && m.spec_ctrl() == f.4
    } else if s.take(3) == "LT("@ {
        let parts = lt_args(s);
        p matches ParsedKey::TapHold(n, name) && Some(n) == spec_parse_u8(parts[0]) && name@
            == parts[1]
    } else {
        p matches ParsedKey::Named(name) && name@ == s
    }
}

/// Parse the key string at a single position of the keymap: underscores
/// and short names directly, the layer forms `MO(n)`, `OSL(n)`,
/// `LM(n, mods)`, `LT(n, key)`, `TT(n)` and `TG(n)` by their arguments;
/// anything else is a named key. `Err` reports a malformed `LM(...)` or
/// `LT(...)` argument list, exactly as `spec_parse_key_err` gives it.
pub fn parse_key(key: String) -> (r: Result<ParsedKey, ConfigError>)
    requires
        spec_parse_key_safe(key@),
    ensures
        match r {
            Ok(p) => spec_parse_key_err(key@) is None && parsed_key_ok(key@, p),
            Err(e) => Some(e) == spec_parse_key_err(key@),
        },
{
    let s = key.as_str();
    let n = s.unicode_len();
    if n < 5 {
        let mut all_unders = n > 0;
        let mut i: usize = 0;
        while i < n
            invariant
                n == s@.len(),
                i <= n,
                all_unders ==> n > 0 && (forall|j: int| 0 <= j < i ==> s@[j] == '_'),
                !all_unders ==> n == 0 || (exists|j: int| 0 <= j < i && s@[j] != '_'),
            decreases n - i,
        {
            if s.get_char(i) != '_' {
                all_unders = false;
                proof {
                    assert(s@[i as int] != '_');
                }
            }
            i = i + 1;
        }
        if all_unders {
            return Ok(ParsedKey::No);
        }
        return Ok(ParsedKey::Named(key));
    }
    let head = s.substring_char(0, 3);
    proof {
        assert(head@ =~= s@.take(3));
        reveal_strlit("MO(");
        reveal_strlit("OSL");
        reveal_strlit("TT(");
        reveal_strlit("TG(");
        reveal_strlit("LM(");
        reveal_strlit("LT(");
        reveal_strlit(")");
        assert("MO("@[0] == 'M' && "LM("@[0] == 'L' && "LT("@[0] == 'L' && "OSL"@[0] == 'O'
            && "TT("@[0] == 'T' && "TG("@[0] == 'T' && "LM("@[1] == 'M' && "LT("@[1] == 'T');
        assert("MO("@ != "LM("@ && "MO("@ != "LT("@);
        assert("OSL"@ != "LM("@ && "OSL"@ != "LT("@);
        assert("TT("@ != "LM("@ && "TT("@ != "LT("@);
        assert("TG("@ != "LM("@ && "TG("@ != "LT("@);
        assert("LM("@ != "LT("@);
    }
    if str_equal(head, "MO(") {
        return Ok(ParsedKey::MomentaryLayer(get_layer(key.clone(), "MO(", ")")));
    }
    if str_equal(head, "OSL") {
        return Ok(ParsedKey::OneShotLayer(get_layer(key.clone(), "OSL(", ")")));
    }
    if str_equal(head, "TT(") {
        return Ok(ParsedKey::TapToggle(get_layer(key.clone(), "TT(", ")")));
    }
    if str_equal(head, "TG(") {
        return Ok(ParsedKey::ToggleLayer(get_layer(key.clone(), "TG(", ")")));
    }
    if str_equal(head, "LM(") {
        let t = trim_start_matching(s, "LM(");
        if !str_ends_with(t, ")") {
            return Err(ConfigError::LmArity);
        }
        let inner = t.substring_char(0, t.unicode_len() - 1);
        proof {
            assert(inner@ =~= lm_inner(key@));
        }
        let parts = split_clean(inner, ',');
        if parts.len() != 2 {
            return Err(ConfigError::LmArity);
        }
        let p0 = &parts[0];
        let layer = match parse_u8(p0.as_str()) {
            Some(v) => v,
            None => 0,
        };
        let p1 = &parts[1];
        let words = split_clean(p1.as_str(), '|');
        let mut right = false;
        let mut gui = false;
        let mut alt = false;
        let mut shift = false;
        let mut ctrl = false;
        let mut k: usize = 0;
        let ghost wordseq = spec_clean(spec_split(parts@[1]@, '|'));
        while k < words.len()
            invariant
                k <= words@.len(),
                words@.len() == wordseq.len(),
                forall|i: int| 0 <= i < words@.len() ==> words@[i]@ == wordseq[i],
                (right, gui, alt, shift, ctrl) == lm_flags(wordseq.take(k as int)),
            decreases words@.len() - k,
        {
            let w = &words[k];
            proof {
                assert(wordseq.take(k as int + 1).drop_last() =~= wordseq.take(k as int));
                assert(wordseq.take(k as int + 1).last() == wordseq[k as int]);
            }
            if str_equal(w.as_str(), "LShift") {
                shift = true;
            } else if str_equal(w.as_str(), "LCtrl") {
                ctrl = true;
            } else if str_equal(w.as_str(), "LAlt") {
                alt = true;
            } else if str_equal(w.as_str(), "Lgui") {
                gui = true;
            } else if str_equal(w.as_str(), "RShift") {
                right = true;
                shift = true;
            } else if str_equal(w.as_str(), "RCtrl") {
                right = true;
                ctrl = true;
            } else if str_equal(w.as_str(), "RAlt") {
                right = true;
                alt = true;
            } else if str_equal(w.as_str(), "Rgui") {
                right = true;
                gui = true;
            }
            k = k + 1;
        }
        proof {
            assert(wordseq.take(wordseq.len() as int) =~= wordseq);
        }
        if !(gui || alt || shift || ctrl) {
            return Err(ConfigError::LmModifier);
        }
        let combo = ModifierCombination::new_from(right, gui, alt, shift, ctrl);
        return Ok(ParsedKey::LayerWithModifier(layer, combo));
    }
    if str_equal(head, "LT(") {
        let t = trim_end_matching(trim_start_matching(s, "LT("), ")");
        let parts = split_clean(t, ',');
        if parts.len() != 2 {
            return Err(ConfigError::LtArity);
        }
        let p0 = &parts[0];
        let layer = match parse_u8(p0.as_str()) {
            Some(v) => v,
            None => 0,
        };
        let name = parts[1].clone();
        return Ok(ParsedKey::TapHold(layer, name));
    }
    Ok(ParsedKey::Named(key))
}

/// Parse every key of one row.
pub fn parse_row(row: &Vec<String>) -> (r: Result<Vec<ParsedKey>, ConfigError>)
    requires
        forall|i: int| 0 <= i < row@.len() ==> spec_parse_key_safe(#[trigger] row@[i]@),
    ensures
        match r {
            Ok(ps) => ps@.len() == row@.len() && (forall|i: int|
                0 <= i < row@.len() ==> spec_parse_key_err(#[trigger] row@[i]@) is None
                    && parsed_key_ok(row@[i]@, ps@[i])),
            Err(e) => exists|i: int|
                0 <= i < row@.len() && Some(e) == spec_parse_key_err(#[trigger] row@[i]@),
        },
{
    let mut out: Vec<ParsedKey> = Vec::new();
    let mut i: usize = 0;
    while i < row.len()
        invariant
            i <= row@.len(),
            out@.len() == i,
            forall|i2: int| 0 <= i2 < row@.len() ==> spec_parse_key_safe(#[trigger] row@[i2]@),
            forall|j: int|
                0 <= j < i ==> spec_parse_key_err(#[trigger] row@[j]@) is None && parsed_key_ok(
                    row@[j]@,
                    out@[j],
                ),
        decreases row@.len() - i,
    {
        let key = row[i].clone();
        match parse_key(key) {
            Ok(p) => {
                out.push(p);
            },
            Err(e) => {
                return Err(e);
            },
        }
        i = i + 1;
    }
    Ok(out)
}

/// Parse every row of one layer.
pub fn parse_layer(layer: &Vec<Vec<String>>) -> (r: Result<Vec<Vec<ParsedKey>>, ConfigError>)
    requires
        forall|a: int, b: int|
            0 <= a < layer@.len() && 0 <= b < layer@[a]@.len() ==> spec_parse_key_safe(
                #[trigger] layer@[a]@[b]@,
            ),
    ensures
        match r {
            Ok(ps) => ps@.len() == layer@.len() && (forall|a: int|
                0 <= a < layer@.len() ==> (#[trigger] ps@[a])@.len() == layer@[a]@.len()) && (
            forall|a: int, b: int|
                0 <= a < layer@.len() && 0 <= b < layer@[a]@.len() ==> spec_parse_key_err(
                    #[trigger] layer@[a]@[b]@,
                ) is None && parsed_key_ok(layer@[a]@[b]@, ps@[a]@[b])),
            Err(e) => exists|a: int, b: int|
                0 <= a < layer@.len() && 0 <= b < layer@[a]@.len() && Some(e)
                    == spec_parse_key_err(#[trigger] layer@[a]@[b]@),
        },
{
    let mut out: Vec<Vec<ParsedKey>> = Vec::new();
    let mut a: usize = 0;
    while a < layer.len()
        invariant
            a <= layer@.len(),
            out@.len() == a,
            forall|a2: int, b: int|
                0 <= a2 < layer@.len() && 0 <= b < layer@[a2]@.len() ==> spec_parse_key_safe(
                    #[trigger] layer@[a2]@[b]@,
                ),
            forall|a2: int| 0 <= a2 < a ==> (#[trigger] out@[a2])@.len() == layer@[a2]@.len(),
            forall|a2: int, b: int|
                0 <= a2 < a && 0 <= b < layer@[a2]@.len() ==> spec_parse_key_err(
                    #[trigger] layer@[a2]@[b]@,
                ) is None && parsed_key_ok(layer@[a2]@[b]@, out@[a2]@[b]),
        decreases layer@.len() - a,
    {
        match parse_row(&layer[a]) {
            Ok(ps) => {
                out.push(ps);
            },
            Err(e) => {
                return Err(e);
            },
        }
        a = a + 1;
    }
    Ok(out)
}

/// Build the parsed keymap from the declarative config: check the sizes
/// against the matrix dimensions, then parse every key of every layer.
/// Without a layout section there is nothing to build.
pub fn parse_layout(layout_config: Option<&LayoutConfig>, matrix_config: MatrixConfig) -> (r:
    Result<Option<Vec<Vec<Vec<ParsedKey>>>>, ConfigError>)
    requires
        match layout_config {
            Some(l) => forall|a: int, b: int, c: int|
                0 <= a < l.keymap@.len() && 0 <= b < l.keymap@[a]@.len() && 0 <= c
                    < l.keymap@[a]@[b]@.len() ==> spec_parse_key_safe(
                    #[trigger] l.keymap@[a]@[b]@[c]@,
                ),
            None => true,
        },
    ensures
        match layout_config {
            None => r matches Ok(opt) && opt is None,
            Some(l) => match r {
                Ok(opt) => {
                    &&& spec_check_keymap_size(*l, matrix_config) is Ok
                    &&& opt matches Some(ps) && ps@.len() == l.keymap@.len() && (forall|a: int|
                        0 <= a < l.keymap@.len() ==> (#[trigger] ps@[a])@.len()
                            == l.keymap@[a]@.len()) && (forall|a: int, b: int|
                        0 <= a < l.keymap@.len() && 0 <= b < l.keymap@[a]@.len()
                            ==> (#[trigger] ps@[a]@[b])@.len() == l.keymap@[a]@[b]@.len()) && (
                    forall|a: int, b: int, c: int|
                        0 <= a < l.keymap@.len() && 0 <= b < l.keymap@[a]@.len() && 0 <= c
                            < l.keymap@[a]@[b]@.len() ==> parsed_key_ok(
                            #[trigger] l.keymap@[a]@[b]@[c]@,
                            ps@[a]@[b]@[c],
                        ))
                },
                Err(e) => spec_check_keymap_size(*l, matrix_config) == Err::<(), ConfigError>(e)
                    || (spec_check_keymap_size(*l, matrix_config) is Ok && exists|
                    a: int,
                    b: int,
                    c: int,
                |
                    0 <= a < l.keymap@.len() && 0 <= b < l.keymap@[a]@.len() && 0 <= c
                        < l.keymap@[a]@[b]@.len() && Some(e) == spec_parse_key_err(
                        #[trigger] l.keymap@[a]@[b]@[c]@,
                    )),
            },
        },
{
    let l = match layout_config {
        Some(l) => l,
        None => {
            return Ok(None);
        },
    };
    match check_keymap_size(l, matrix_config) {
        Ok(()) => {},
        Err(e) => {
            return Err(e);
        },
    }
    let mut out: Vec<Vec<Vec<ParsedKey>>> = Vec::new();
    let mut a: usize = 0;
    while a < l.keymap.len()
        invariant
            a <= l.keymap@.len(),
            out@.len() == a,
            layout_config == Some(l),
            spec_check_keymap_size(*l, matrix_config) == Ok::<(), ConfigError>(()),
            forall|a2: int, b: int, c: int|
                0 <= a2 < l.keymap@.len() && 0 <= b < l.keymap@[a2]@.len() && 0 <= c
                    < l.keymap@[a2]@[b]@.len() ==> spec_parse_key_safe(
                    #[trigger] l.keymap@[a2]@[b]@[c]@,
                ),
            forall|a2: int| 0 <= a2 < a ==> (#[trigger] out@[a2])@.len() == l.keymap@[a2]@.len(),
            forall|a2: int, b: int|
                0 <= a2 < a && 0 <= b < l.keymap@[a2]@.len() ==> (#[trigger] out@[a2]@[b])@.len()
                    == l.keymap@[a2]@[b]@.len(),
            forall|a2: int, b: int, c: int|
                0 <= a2 < a && 0 <= b < l.keymap@[a2]@.len() && 0 <= c < l.keymap@[a2]@[b]@.len()
                    ==> parsed_key_ok(#[trigger] l.keymap@[a2]@[b]@[c]@, out@[a2]@[b]@[c]),
        decreases l.keymap@.len() - a,
    {
        let ghost lv = l.keymap@[a as int];
        match parse_layer(&l.keymap[a]) {
            Ok(ps) => {
                let ghost gps = ps@;
                let ghost pre_out = out@;
                out.push(ps);
                proof {
                    assert(out@[a as int]@ == gps);
                    assert(gps.len() == lv@.len());
                    assert(forall|x: int|
                        0 <= x < lv@.len() ==> (#[trigger] gps[x])@.len() == lv@[x]@.len());
                    assert(forall|x: int, y: int|
                        0 <= x < lv@.len() && 0 <= y < lv@[x]@.len() ==> spec_parse_key_err(
                            #[trigger] lv@[x]@[y]@,
                        ) is None && parsed_key_ok(lv@[x]@[y]@, gps[x]@[y]));
                    assert forall|a2: int| 0 <= a2 < a + 1 implies (#[trigger] out@[a2])@.len()
                        == l.keymap@[a2]@.len() by {
                        if a2 == a {
                            assert(lv == l.keymap@[a2]);
                            assert(out@[a2]@ == gps);
                        } else {
                            assert(out@[a2] == pre_out[a2]);
                        }
                    }
                    assert forall|a2: int, b: int|
                        0 <= a2 < a + 1 && 0 <= b < l.keymap@[a2]@.len() implies (
                    #[trigger] out@[a2]@[b])@.len() == l.keymap@[a2]@[b]@.len() by {
                        if a2 == a {
                            assert(lv == l.keymap@[a2]);
                            assert(out@[a2]@ == gps);
                            assert(gps[b]@.len() == lv@[b]@.len());
                        } else {
                            assert(out@[a2] == pre_out[a2]);
                        }
                    }
                    assert forall|a2: int, b: int, c: int|
                        0 <= a2 < a + 1 && 0 <= b < l.keymap@[a2]@.len() && 0 <= c
                            < l.keymap@[a2]@[b]@.len() implies parsed_key_ok(
                        #[trigger] l.keymap@[a2]@[b]@[c]@,
                        out@[a2]@[b]@[c],
                    ) by {
                        if a2 == a {
                            assert(lv == l.keymap@[a2]);
                            assert(out@[a2]@ == gps);
                            assert(spec_parse_key_err(lv@[b]@[c]@) is None && parsed_key_ok(
                                lv@[b]@[c]@,
                                gps[b]@[c],
                            ));
                        } else {
                            assert(out@[a2] == pre_out[a2]);
                        }
                    }
                }
            },
            Err(e) => {
                proof {
                    assert(exists|bb: int, cc: int|
                        0 <= bb < lv@.len() && 0 <= cc < lv@[bb]@.len() && Some(e)
                            == spec_parse_key_err(#[trigger] lv@[bb]@[cc]@));
                    let (bb, cc) = choose|bb: int, cc: int|
                        0 <= bb < lv@.len() && 0 <= cc < lv@[bb]@.len() && Some(e)
                            == spec_parse_key_err(#[trigger] lv@[bb]@[cc]@);
                    assert(lv == l.keymap@[a as int]);
                    assert(0 <= a < l.keymap@.len());
                    assert(0 <= bb < l.keymap@[a as int]@.len());
                    assert(0 <= cc < l.keymap@[a as int]@[bb]@.len());
                    assert(Some(e) == spec_parse_key_err(l.keymap@[a as int]@[bb]@[cc]@));
                    assert(exists|x: int, y: int, z: int|
                        0 <= x < l.keymap@.len() && 0 <= y < l.keymap@[x]@.len() && 0 <= z
                            < l.keymap@[x]@[y]@.len() && Some(e) == spec_parse_key_err(
                            #[trigger] l.keymap@[x]@[y]@[z]@,
                        ));
                }
                return Err(e);
            },
        }
        a = a + 1;
    }
    Ok(Some(out))
}

} // verus!
