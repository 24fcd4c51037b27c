//! What holds of expansion and of auto-fit for all inputs.

use crate::dict::resolved;
use crate::fit::{column_ratio, magnitude, max_len, scale, widest, Fraction};
use crate::layout::tallest;
use crate::subst::replaced;
use crate::text::{expansion, pass, substituted, substituted_all, TextView};
use vstd::arithmetic::div_mod::{
    lemma_div_pos_is_pos, lemma_fundamental_div_mod_converse, lemma_multiply_divide_lt,
};
use vstd::prelude::*;

verus! {

/// Whether `pat` occurs somewhere in `s`.
pub open spec fn occurs(s: Seq<char>, pat: Seq<char>) -> bool {
    exists|at: int| 0 <= at <= s.len() && #[trigger] pat.is_prefix_of(s.skip(at))
}

/// Replacing leaves a string as it is where the pattern does not occur in it.
pub proof fn lemma_replaced_without_occurrence(s: Seq<char>, pat: Seq<char>, to: Seq<char>)
    requires
        !occurs(s, pat),
    ensures
        replaced(s, pat, to) == s,
    decreases s.len(),
{
    if pat.len() > 0 && s.len() >= pat.len() {
        assert(s.skip(0) =~= s);
        assert(!pat.is_prefix_of(s.skip(0)));
        assert forall|at: int| 0 <= at <= s.skip(1).len() implies !#[trigger] pat.is_prefix_of(
            s.skip(1).skip(at),
        ) by {
            assert(s.skip(1).skip(at) =~= s.skip(at + 1));
        }
        lemma_replaced_without_occurrence(s.skip(1), pat, to);
        assert(s.take(1) + s.skip(1) =~= s);
    }
}

/// A pass for a single-valued field keeps the number of strings and substitutes the value
/// in each of them.
pub proof fn lemma_single_pass(work: Seq<Seq<char>>, key: Seq<char>, s: Seq<char>)
    ensures
        pass(work, key, TextView::Single(s)).len() == work.len(),
        forall|i: int|
            0 <= i < work.len() ==> #[trigger] pass(work, key, TextView::Single(s))[i]
                == substituted(work[i], key, s),
{
}

/// A pass for a multi-valued field multiplies the working sequence by the number of values.
/// With `n` strings in the working sequence, the result holds `n` strings per value, and the
/// string at position `p` is the working string `p % n` with the value `p / n` substituted:
/// the copies follow each other in the order of the values.
pub proof fn lemma_multi_pass(work: Seq<Seq<char>>, key: Seq<char>, values: Seq<Seq<char>>)
    ensures
        pass(work, key, TextView::Multi(values)) == Seq::new(
            values.len() * work.len(),
            |p: int| substituted(work[p % work.len() as int], key, values[p / work.len() as int]),
        ),
    decreases values.len(),
{
    let copy = |v: Seq<char>| substituted_all(work, key, v);
    let n = work.len() as int;
    let whole = pass(work, key, TextView::Multi(values));
    let product = Seq::new(
        values.len() * work.len(),
        |p: int| substituted(work[p % work.len() as int], key, values[p / work.len() as int]),
    );
    if values.len() == 0 {
        assert(values.map_values(copy) =~= Seq::<Seq<Seq<char>>>::empty());
        assert(values.len() * n == 0) by (nonlinear_arith)
            requires
                values.len() == 0,
        ;
        assert(whole =~= product);
    } else {
        let front = values.drop_last();
        let last = values.last();
        let before = pass(work, key, TextView::Multi(front));
        lemma_multi_pass(work, key, front);
        assert(values.map_values(copy) =~= front.map_values(copy).push(copy(last)));
        front.map_values(copy).lemma_flatten_push(copy(last));
        assert(whole =~= before + copy(last));
        assert(values.len() * n == front.len() * n + n && front.len() * n >= 0)
            by (nonlinear_arith)
            requires
                values.len() == front.len() + 1,
                n >= 0,
        ;
        assert forall|p: int| 0 <= p < whole.len() implies whole[p] == product[p] by {
            if p < front.len() * n {
                assert(p / n < front.len()) by {
                    assert(front.len() * n == n * front.len()) by (nonlinear_arith);
                    lemma_multiply_divide_lt(p, n, front.len() as int);
                }
                lemma_div_pos_is_pos(p, n);
                assert(front[p / n] == values[p / n]);
            } else {
                let i = p - front.len() * n;
                lemma_fundamental_div_mod_converse(p, n, front.len() as int, i);
                assert(whole[p] == copy(last)[i]);
            }
        }
        assert(whole =~= product);
    }
}

/// A text whose one placeholder occurrence names a single-valued field expands to exactly
/// one string: the text with the placeholder replaced by the value.
pub proof fn lemma_one_single_occurrence(
    text: Seq<char>,
    key: Seq<char>,
    s: Seq<char>,
    dict: Map<Seq<char>, TextView>,
)
    requires
        dict.contains_key(key),
        dict[key] == TextView::Single(s),
    ensures
        expansion(text, seq![key], dict) == seq![substituted(text, key, s)],
{
    lemma_expansion_of_one(text, key, dict);
    assert(substituted_all(seq![text], key, s) =~= seq![substituted(text, key, s)]);
}

/// A text whose one placeholder occurrence names a field without an entry expands to
/// exactly one string: the text with the placeholder removed.
pub proof fn lemma_one_missing_occurrence(
    text: Seq<char>,
    key: Seq<char>,
    dict: Map<Seq<char>, TextView>,
)
    requires
        !dict.contains_key(key),
    ensures
        expansion(text, seq![key], dict) == seq![substituted(text, key, Seq::empty())],
{
    lemma_expansion_of_one(text, key, dict);
    assert(substituted_all(seq![text], key, Seq::empty()) =~= seq![
        substituted(text, key, Seq::empty()),
    ]);
}

/// A text whose one placeholder occurrence names a multi-valued field expands to one string
/// per value, in the order of the values, each with its value substituted.
pub proof fn lemma_one_multi_occurrence(
    text: Seq<char>,
    key: Seq<char>,
    values: Seq<Seq<char>>,
    dict: Map<Seq<char>, TextView>,
)
    requires
        dict.contains_key(key),
        dict[key] == TextView::Multi(values),
    ensures
        expansion(text, seq![key], dict) == Seq::new(
            values.len(),
            |j: int| substituted(text, key, values[j]),
        ),
{
    lemma_expansion_of_one(text, key, dict);
    lemma_multi_pass(seq![text], key, values);
    let lines = expansion(text, seq![key], dict);
    assert(values.len() * 1 == values.len()) by (nonlinear_arith);
    assert(lines =~= Seq::new(values.len(), |j: int| substituted(text, key, values[j])));
}

/// The expansion for one occurrence is one pass over the text alone.
proof fn lemma_expansion_of_one(text: Seq<char>, key: Seq<char>, dict: Map<Seq<char>, TextView>)
    ensures
        expansion(text, seq![key], dict) == pass(seq![text], key, resolved(dict, key)),
{
    let keys = seq![key];
    assert(keys.drop_last() =~= Seq::<Seq<char>>::empty());
    assert(keys.last() == key);
    assert(expansion(text, keys.drop_last(), dict) == seq![text]);
}

/// The number of values that the occurrences `keys` multiply an expansion by: the product,
/// over the occurrences, of the number of strings that the name resolves to.
pub open spec fn variants(keys: Seq<Seq<char>>, dict: Map<Seq<char>, TextView>) -> nat
    decreases keys.len(),
{
    if keys.len() == 0 {
        1
    } else {
        variants(keys.drop_last(), dict) * resolved(dict, keys.last()).strings().len()
    }
}

/// Every occurrence multiplies: a text expands to as many strings as the product of the
/// numbers of values of its placeholder occurrences, a repeated name counted each time.
pub proof fn lemma_expansion_len(
    text: Seq<char>,
    keys: Seq<Seq<char>>,
    dict: Map<Seq<char>, TextView>,
)
    ensures
        expansion(text, keys, dict).len() == variants(keys, dict),
    decreases keys.len(),
{
    if keys.len() > 0 {
        lemma_expansion_len(text, keys.drop_last(), dict);
        let work = expansion(text, keys.drop_last(), dict);
        match resolved(dict, keys.last()) {
            TextView::Single(s) => {
                assert(work.len() * 1 == work.len()) by (nonlinear_arith);
            },
            TextView::Multi(values) => {
                lemma_multi_pass(work, keys.last(), values);
                assert(values.len() * work.len() == work.len() * values.len())
                    by (nonlinear_arith);
                assert(values.len() * work.len() >= 0) by (nonlinear_arith);
            },
        }
    }
}

/// A multi-valued name that occurs twice multiplies twice: the text expands to the square
/// of the number of values, not to that number.
pub proof fn lemma_repeated_occurrence(
    text: Seq<char>,
    key: Seq<char>,
    values: Seq<Seq<char>>,
    dict: Map<Seq<char>, TextView>,
)
    requires
        dict.contains_key(key),
        dict[key] == TextView::Multi(values),
    ensures
        expansion(text, seq![key, key], dict).len() == values.len() * values.len(),
{
    let keys = seq![key, key];
    lemma_expansion_len(text, keys, dict);
    assert(keys.drop_last() =~= seq![key]);
    assert(seq![key].drop_last() =~= Seq::<Seq<char>>::empty());
    assert(seq![key].last() == key);
    assert(variants(seq![key].drop_last(), dict) == 1);
    assert(variants(seq![key], dict) == 1 * values.len());
    assert(keys.last() == key);
    assert(1 * values.len() == values.len()) by (nonlinear_arith);
}

/// No line is longer than the longest, and where there are lines one of them is as long.
pub proof fn lemma_widest(lines: Seq<Seq<char>>)
    ensures
        forall|i: int| 0 <= i < lines.len() ==> (#[trigger] lines[i]).len() <= widest(lines),
        lines.len() > 0 ==> exists|i: int|
            0 <= i < lines.len() && (#[trigger] lines[i]).len() == widest(lines),
    decreases lines.len(),
{
    if lines.len() > 0 {
        let front = lines.drop_last();
        lemma_widest(front);
        assert forall|i: int| 0 <= i < lines.len() implies (#[trigger] lines[i]).len() <= widest(
            lines,
        ) by {
            if i < front.len() {
                assert(front[i] == lines[i]);
            }
        }
        if lines.last().len() > widest(front) || front.len() == 0 {
            assert(lines[lines.len() - 1].len() == widest(lines));
        } else {
            let i = choose|i: int| 0 <= i < front.len() && (#[trigger] front[i]).len() == widest(front);
            assert(lines[i] == front[i]);
        }
    }
}

/// A line is as tall as its tallest character: no character is taller, and a line with a
/// character of positive height is exactly as tall as one of its characters.
pub proof fn lemma_tallest(heights: Seq<i32>)
    ensures
        tallest(heights) >= 0,
        forall|i: int| 0 <= i < heights.len() ==> #[trigger] heights[i] <= tallest(heights),
        tallest(heights) > 0 ==> exists|i: int|
            0 <= i < heights.len() && #[trigger] heights[i] == tallest(heights),
    decreases heights.len(),
{
    if heights.len() > 0 {
        let front = heights.drop_last();
        lemma_tallest(front);
        assert forall|i: int| 0 <= i < heights.len() implies #[trigger] heights[i] <= tallest(
            heights,
        ) by {
            if i < front.len() {
                assert(front[i] == heights[i]);
            }
        }
        if heights.last() > tallest(front) {
            assert(heights[heights.len() - 1] == tallest(heights));
        } else if tallest(front) > 0 {
            let i = choose|i: int| 0 <= i < front.len() && #[trigger] front[i] == tallest(front);
            assert(heights[i] == front[i]);
        }
    }
}

/// The smaller of two fractions is at most either of them.
pub proof fn lemma_lesser(a: Fraction, b: Fraction)
    ensures
        a.lesser(b) == a || a.lesser(b) == b,
        a.lesser(b).at_most(a),
        a.lesser(b).at_most(b),
{
    assert(a.num * b.den <= b.num * a.den || b.num * a.den <= a.num * b.den);
    assert(a.den == 0 ==> b.num * a.den == 0) by (nonlinear_arith);
    assert(b.den == 0 ==> a.num * b.den == 0) by (nonlinear_arith);
}

/// Without a column cap, an element that expands to more lines is never scaled by more:
/// with the declared lines fixed, the factor for the longer expansion is at most the factor
/// for the shorter one.
pub proof fn lemma_more_lines_scale_less(fewer: Seq<Seq<char>>, more: Seq<Seq<char>>, slots: nat)
    requires
        fewer.len() <= more.len(),
    ensures
        scale(more, slots, None).at_most(scale(fewer, slots, None)),
{
    assert(slots * fewer.len() <= slots * more.len()) by (nonlinear_arith)
        requires
            fewer.len() <= more.len(),
    ;
}

/// A column cap that lies below the longest line's length times the magnitude decides the
/// factor alone: it is the cap over the longest line's length, whatever the magnitude is.
pub proof fn lemma_column_cap_decides(lines: Seq<Seq<char>>, slots: nat, cap: usize)
    requires
        cap * lines.len() < max_len(lines) * slots,
    ensures
        scale(lines, slots, Some(cap)) == column_ratio(lines, cap as nat),
{
    let a = column_ratio(lines, cap as nat);
    let b = magnitude(lines, slots);
    assert(a.den != 0) by (nonlinear_arith)
        requires
            cap * lines.len() < a.den * slots,
    ;
    assert(cap * lines.len() == a.num * b.den);
    assert(b.num * a.den == max_len(lines) * slots) by (nonlinear_arith)
        requires
            b.num == slots,
            a.den == max_len(lines),
    ;
}

} // verus!
