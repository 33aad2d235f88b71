//! When a step counts as settled: the largest absolute change of a component
//! is below a fixed tolerance.

use crate::binary64::{
    abs, at_least, exponent, fraction, ge, is_nan, is_negative, less_than,
    lemma_order_of_magnitudes, lt, magnitude, scaled_magnitude, scaled_value, HIDDEN_BIT,
};
use vstd::arithmetic::power2::{lemma2_to64, lemma_pow2_adds, lemma_pow2_pos, pow2};
use vstd::prelude::*;

verus! {

/// The encoding of the convergence tolerance: the binary64 number nearest to
/// one hundred-thousandth (see [`lemma_tolerance_is_nearest`]).
pub const TOLERANCE: u64 = 0x3ee4_f8b5_88e3_68f1;

/// The largest absolute value among `values`, found from the first to the
/// last: the absolute value of a component takes the place of the largest so
/// far unless the largest so far is at least as great. Without components it
/// is `+0`.
///
/// A NaN is at least as great as nothing and nothing is at least as great as
/// a NaN, so a NaN takes the place and then gives it up to the next
/// component: the result is a NaN exactly when the last component is one.
pub open spec fn max_abs(values: Seq<u64>) -> u64
    decreases values.len(),
{
    if values.len() == 0 {
        0
    } else {
        let so_far = max_abs(values.drop_last());
        let size = magnitude(values.last());
        if at_least(so_far, size) {
            so_far
        } else {
            size
        }
    }
}

/// Whether a step with these component-wise changes counts as settled: their
/// largest absolute value is below the tolerance.
pub open spec fn settles(changes: Seq<u64>) -> bool {
    less_than(max_abs(changes), TOLERANCE)
}

/// The tolerance is the binary64 number nearest to one hundred-thousandth.
///
/// Numbers with the tolerance's exponent lie `2^-69` apart, which is
/// `2^1005` after scaling by `2^1074`. A hundred thousand times the tolerance
/// differs from 1 by less than a hundred thousand times half that gap.
pub proof fn lemma_tolerance_is_nearest()
    ensures
        !is_nan(TOLERANCE),
        !is_negative(TOLERANCE),
        -(100000 * pow2(1005)) < 2 * (100000 * scaled_value(TOLERANCE) - pow2(1074)) < 100000
            * pow2(1005),
{
    let p: int = pow2(1005) as int;
    let m: int = HIDDEN_BIT + fraction(TOLERANCE);
    lemma_pow2_pos(1005);
    lemma_pow2_adds(69, 1005);
    assert(exponent(TOLERANCE) == 1006);
    assert(m == 5902958103587057);
    assert(pow2(69) == 0x20_0000_0000_0000_0000) by {
        lemma_pow2_adds(64, 5);
        lemma2_to64();
    }
    assert(2 * (100000 * m - pow2(69)) == 96576);
    assert(2 * (100000 * (m * p) - pow2(69) * p) == 96576 * p) by (nonlinear_arith)
        requires
            2 * (100000 * m - pow2(69)) == 96576,
    ;
    assert(-(100000 * p) < 96576 * p < 100000 * p) by (nonlinear_arith)
        requires
            p > 0,
    ;
}

/// The largest absolute value is never negative, and it is a NaN exactly
/// when the last component is one.
pub proof fn lemma_max_abs_is_a_magnitude(values: Seq<u64>)
    ensures
        !is_negative(max_abs(values)),
        is_nan(max_abs(values)) <==> values.len() > 0 && is_nan(values.last()),
    decreases values.len(),
{
    if values.len() > 0 {
        lemma_max_abs_is_a_magnitude(values.drop_last());
    }
}

/// Where no component is a NaN, the largest absolute value is the maximum
/// norm: no component exceeds it in absolute value, and, unless there is no
/// component, one attains it.
pub proof fn lemma_max_abs_is_the_maximum(values: Seq<u64>)
    requires
        forall|i: int| 0 <= i < values.len() ==> !is_nan(#[trigger] values[i]),
    ensures
        !is_nan(max_abs(values)),
        forall|i: int|
            0 <= i < values.len() ==> scaled_magnitude(#[trigger] values[i]) <= scaled_value(
                max_abs(values),
            ),
        values.len() > 0 ==> exists|i: int|
            0 <= i < values.len() && magnitude(#[trigger] values[i]) == max_abs(values),
    decreases values.len(),
{
    if values.len() > 0 {
        let front = values.drop_last();
        let last = values.last();
        lemma_max_abs_is_the_maximum(front);
        lemma_max_abs_is_a_magnitude(front);
        lemma_order_of_magnitudes(last, 0);
        assert(forall|i: int| 0 <= i < front.len() ==> front[i] == values[i]);
        assert(scaled_value(magnitude(last)) == scaled_magnitude(last));
        if max_abs(values) == magnitude(last) {
            assert(magnitude(values[values.len() - 1]) == max_abs(values));
        } else {
            let i = choose|i: int|
                0 <= i < front.len() && magnitude(#[trigger] front[i]) == max_abs(front);
            assert(magnitude(values[i]) == max_abs(values));
        }
    }
}

/// Where no component is a NaN, a step settles exactly when every component
/// changed by less than the tolerance. Without components it settles.
pub proof fn lemma_settles_iff_every_change_is_small(changes: Seq<u64>)
    requires
        forall|i: int| 0 <= i < changes.len() ==> !is_nan(#[trigger] changes[i]),
    ensures
        settles(changes) <==> forall|i: int|
            0 <= i < changes.len() ==> less_than(magnitude(#[trigger] changes[i]), TOLERANCE),
{
    lemma_max_abs_is_the_maximum(changes);
    lemma_max_abs_is_a_magnitude(changes);
    lemma_order_of_magnitudes(0, TOLERANCE);
    if changes.len() > 0 {
        let i = choose|i: int|
            0 <= i < changes.len() && magnitude(#[trigger] changes[i]) == max_abs(changes);
        if forall|i: int|
            0 <= i < changes.len() ==> less_than(magnitude(#[trigger] changes[i]), TOLERANCE) {
            assert(less_than(magnitude(changes[i]), TOLERANCE));
        }
    }
    if settles(changes) {
        assert forall|i: int| 0 <= i < changes.len() implies less_than(
            magnitude(#[trigger] changes[i]),
            TOLERANCE,
        ) by {
            assert(scaled_magnitude(changes[i]) <= scaled_value(max_abs(changes)));
        }
    }
}

/// The largest absolute value among `values`; see [`max_abs`].
pub fn largest_magnitude(values: &Vec<u64>) -> (largest: u64)
    ensures
        largest == max_abs(values@),
{
    let mut largest: u64 = 0;
    let mut i: usize = 0;
    while i < values.len()
        invariant
            i <= values.len(),
            largest == max_abs(values@.take(i as int)),
        decreases values.len() - i,
    {
        let size: u64 = abs(values[i]);
        assert(values@.take(i + 1).drop_last() =~= values@.take(i as int));
        if !ge(largest, size) {
            largest = size;
        }
        i += 1;
    }
    assert(values@.take(i as int) =~= values@);
    largest
}

/// Whether a step with these component-wise changes counts as settled.
pub fn settled(changes: &Vec<u64>) -> (settled: bool)
    ensures
        settled == settles(changes@),
{
    lt(largest_magnitude(changes), TOLERANCE)
}

} // verus!
