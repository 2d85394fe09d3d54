//! DDC design bookkeeping.
//!
//! The DDC is a chain of up to three decimating FIR filters. The functions
//! here do the integer part of a DDC design: which ways of splitting the total
//! decimation into per-stage factors the FPGA can realize, how many
//! coefficients a stage can hold, and the zero-packing of a filter impulse
//! response. The filter design itself (Parks-McClellan) is done by the caller.

use vstd::prelude::*;
use crate::ddc::constants::{MAX_COEFFICIENTS_2DSP, MAX_COEFFICIENTS_4DSP, MAX_DECIMATION, MAX_OPERATIONS};

pub mod constants;

verus! {

/// Product of the factors of a split (of one to three factors).
pub open spec fn split_product(s: Seq<usize>) -> int {
    if s.len() == 1 {
        s[0] as int
    } else if s.len() == 2 {
        s[0] * s[1]
    } else {
        s[0] * s[1] * s[2]
    }
}

/// A way of realizing the total decimation `d` with the DDC: one to three
/// per-stage decimation factors in non-increasing order, each between 2 and
/// the maximum decimation of a stage, whose product is `d`.
pub open spec fn valid_split(s: Seq<usize>, d: int) -> bool {
    &&& 1 <= s.len() <= 3
    &&& forall|i: int| 0 <= i < s.len() ==> 2 <= #[trigger] s[i] <= MAX_DECIMATION
    &&& forall|i: int, j: int| 0 <= i < j < s.len() ==> s[j] <= s[i]
    &&& split_product(s) == d
}

/// Second factor of a split, or 1 when the split has a single factor.
pub open spec fn split_second(s: Seq<usize>) -> int {
    if s.len() >= 2 {
        s[1] as int
    } else {
        1
    }
}

/// Lexicographic order of splits by their first and second factors.
pub open spec fn split_before(a: Seq<usize>, b: Seq<usize>) -> bool {
    a[0] < b[0] || (a[0] == b[0] && split_second(a) < split_second(b))
}

/// The split made of the first factor `d1`, the second factor `d2` (left out
/// when it is 1) and the third factor `d / (d1 * d2)` (left out when it is 1).
pub open spec fn split_of(d1: int, d2: int, d: int) -> Seq<usize> {
    let d3 = d / (d1 * d2);
    let s = seq![d1 as usize];
    let s = if d2 > 1 { s.push(d2 as usize) } else { s };
    if d3 > 1 { s.push(d3 as usize) } else { s }
}

/// The conditions under which the first and second factors `d1` and `d2`
/// give a split of `d`.
pub open spec fn split_candidate(d1: int, d2: int, d: int) -> bool {
    &&& 2 <= d1 <= MAX_DECIMATION
    &&& d1 <= d
    &&& d % d1 == 0
    &&& 1 <= d2 <= MAX_DECIMATION
    &&& d2 <= d / d1
    &&& d % (d1 * d2) == 0
    &&& d2 <= d1
    &&& d / (d1 * d2) <= d2
    &&& d / (d1 * d2) <= MAX_DECIMATION
}

proof fn lemma_candidate_is_split(d1: int, d2: int, d: int)
    requires
        split_candidate(d1, d2, d),
    ensures
        valid_split(split_of(d1, d2, d), d),
        split_of(d1, d2, d)[0] == d1,
        split_second(split_of(d1, d2, d)) == d2,
{
    let p = d1 * d2;
    assert(p > 0) by (nonlinear_arith)
        requires
            d1 >= 2,
            d2 >= 1,
            p == d1 * d2,
    ;
    vstd::arithmetic::div_mod::lemma_fundamental_div_mod(d, p);
    vstd::arithmetic::div_mod::lemma_fundamental_div_mod(d, d1);
    let d3 = d / p;
    assert(d == p * d3);
    assert(p <= d) by (nonlinear_arith)
        requires
            d2 <= d / d1,
            d == d1 * (d / d1),
            d1 > 0,
            p == d1 * d2,
    ;
    assert(d3 >= 1) by (nonlinear_arith)
        requires
            d == p * d3,
            p <= d,
            p > 0,
    ;
    let s = split_of(d1, d2, d);
    if d2 == 1 {
        assert(d3 == 1);
        assert(s =~= seq![d1 as usize]);
        assert(d == d1) by (nonlinear_arith)
            requires
                d == p * d3,
                d3 == 1,
                p == d1 * d2,
                d2 == 1,
        ;
    } else if d3 == 1 {
        assert(s =~= seq![d1 as usize, d2 as usize]);
        assert(d == d1 * d2) by (nonlinear_arith)
            requires
                d == p * d3,
                d3 == 1,
                p == d1 * d2,
        ;
    } else {
        assert(s =~= seq![d1 as usize, d2 as usize, d3 as usize]);
        assert(d == d1 * d2 * d3);
    }
}

proof fn lemma_split_is_candidate(s: Seq<usize>, d: int)
    requires
        valid_split(s, d),
    ensures
        split_candidate(s[0] as int, split_second(s), d),
        split_of(s[0] as int, split_second(s), d) == s,
{
    let d1 = s[0] as int;
    let d2 = split_second(s);
    let d3: int = if s.len() == 3 { s[2] as int } else { 1 };
    assert(2 <= s[0] <= MAX_DECIMATION);
    if s.len() >= 2 {
        assert(2 <= s[1] <= MAX_DECIMATION);
        assert(s[1] <= s[0]);
    }
    if s.len() == 3 {
        assert(2 <= s[2] <= MAX_DECIMATION);
        assert(s[2] <= s[1]);
    }
    assert(d == d1 * d2 * d3) by (nonlinear_arith)
        requires
            s.len() == 1 ==> d == d1 && d2 == 1 && d3 == 1,
            s.len() == 2 ==> d == d1 * d2 && d3 == 1,
            s.len() == 3 ==> d == d1 * d2 * d3,
            1 <= s.len() <= 3,
    ;
    let p = d1 * d2;
    assert(p > 0) by (nonlinear_arith)
        requires
            d1 >= 2,
            d2 >= 1,
            p == d1 * d2,
    ;
    assert(d == p * d3) by (nonlinear_arith)
        requires
            d == d1 * d2 * d3,
            p == d1 * d2,
    ;
    vstd::arithmetic::div_mod::lemma_div_multiples_vanish(d3, p);
    vstd::arithmetic::div_mod::lemma_mod_multiples_basic(d3, p);
    assert(d / p == d3 && d % p == 0) by {
        assert(p * d3 == d3 * p) by (nonlinear_arith);
    }
    assert(d == d1 * (d2 * d3)) by (nonlinear_arith)
        requires
            d == d1 * d2 * d3,
    ;
    vstd::arithmetic::div_mod::lemma_div_multiples_vanish(d2 * d3, d1);
    vstd::arithmetic::div_mod::lemma_mod_multiples_basic(d2 * d3, d1);
    assert(d / d1 == d2 * d3 && d % d1 == 0) by {
        assert(d1 * (d2 * d3) == (d2 * d3) * d1) by (nonlinear_arith);
    }
    assert(d2 <= d2 * d3) by (nonlinear_arith)
        requires
            d2 >= 1,
            d3 >= 1,
    ;
    assert(d1 <= d) by (nonlinear_arith)
        requires
            d == d1 * (d2 * d3),
            d2 >= 1,
            d3 >= 1,
            d1 >= 0,
    ;
    assert(split_of(d1, d2, d) =~= s);
}

/// Lists every way of splitting the decimation `d` into per-stage decimation
/// factors that the DDC can realize, ordered by first factor and then by
/// second factor.
///
/// The list is empty when `d` cannot be factored into at most three factors
/// no greater than the maximum decimation of a stage.
pub fn decimation_splits(d: usize) -> (r: Vec<Vec<usize>>)
    ensures
        forall|i: int| 0 <= i < r.len() ==> valid_split(#[trigger] r@[i]@, d as int),
        forall|s: Seq<usize>| valid_split(s, d as int) ==> exists|i: int| 0 <= i < r.len() && #[trigger] r@[i]@ == s,
        forall|i: int, j: int| 0 <= i < j < r.len() ==> split_before(r@[i]@, r@[j]@),
{
    let mut out: Vec<Vec<usize>> = Vec::new();
    let max_d1 = if d < MAX_DECIMATION { d } else { MAX_DECIMATION };
    let mut d1: usize = 2;
    while d1 <= max_d1
        invariant
            max_d1 == if d < MAX_DECIMATION { d } else { MAX_DECIMATION },
            2 <= d1 <= max_d1 + 1 || max_d1 < 2,
            d1 >= 2,
            forall|i: int| 0 <= i < out.len() ==> valid_split(#[trigger] out@[i]@, d as int) && out@[i]@[0] < d1,
            forall|s: Seq<usize>| valid_split(s, d as int) && s[0] < d1 ==> exists|i: int| 0 <= i < out.len() && #[trigger] out@[i]@ == s,
            forall|i: int, j: int| 0 <= i < j < out.len() ==> split_before(out@[i]@, out@[j]@),
        decreases max_d1 + 1 - d1,
    {
        if d % d1 == 0 {
            let q = d / d1;
            let max_d2 = if q < MAX_DECIMATION { q } else { MAX_DECIMATION };
            let mut d2: usize = 1;
            while d2 <= max_d2
                invariant
                    2 <= d1 <= max_d1,
                    max_d1 == if d < MAX_DECIMATION { d } else { MAX_DECIMATION },
                    d % d1 == 0,
                    q == d / d1,
                    max_d2 == if q < MAX_DECIMATION { q } else { MAX_DECIMATION },
                    1 <= d2 <= max_d2 + 1,
                    forall|i: int| 0 <= i < out.len() ==> valid_split(#[trigger] out@[i]@, d as int) && (
                        out@[i]@[0] < d1 || (out@[i]@[0] == d1 && split_second(out@[i]@) < d2)),
                    forall|s: Seq<usize>| valid_split(s, d as int) && (s[0] < d1 || (s[0] == d1 && split_second(s) < d2))
                        ==> exists|i: int| 0 <= i < out.len() && #[trigger] out@[i]@ == s,
                    forall|i: int, j: int| 0 <= i < j < out.len() ==> split_before(out@[i]@, out@[j]@),
                decreases max_d2 + 1 - d2,
            {
                assert(1 <= d1 * d2 <= MAX_DECIMATION * MAX_DECIMATION) by (nonlinear_arith)
                    requires
                        1 <= d1 <= MAX_DECIMATION,
                        1 <= d2 <= MAX_DECIMATION,
                ;
                let ghost pushed = false;
                if d % (d1 * d2) == 0 && d2 <= d1 {
                    let d3 = d / (d1 * d2);
                    if d3 <= d2 && d3 <= MAX_DECIMATION {
                        let mut split: Vec<usize> = Vec::new();
                        split.push(d1);
                        if d2 > 1 {
                            split.push(d2);
                        }
                        if d3 > 1 {
                            split.push(d3);
                        }
                        proof {
                            assert(split_candidate(d1 as int, d2 as int, d as int));
                            assert(split@ =~= split_of(d1 as int, d2 as int, d as int));
                            lemma_candidate_is_split(d1 as int, d2 as int, d as int);
                        }
                        let ghost before = out@;
                        out.push(split);
                        proof {
                            assert forall|i: int, j: int| 0 <= i < j < out.len() implies split_before(out@[i]@, out@[j]@) by {
                                if j < before.len() {
                                    assert(out@[i] == before[i] && out@[j] == before[j]);
                                } else {
                                    assert(out@[i] == before[i]);
                                }
                            }
                            assert forall|s: Seq<usize>| valid_split(s, d as int) && (s[0] < d1 || (s[0] == d1 && split_second(s) < d2 + 1))
                                implies exists|i: int| 0 <= i < out.len() && #[trigger] out@[i]@ == s by {
                                if s[0] < d1 || (s[0] == d1 && split_second(s) < d2) {
                                    let i = choose|i: int| 0 <= i < before.len() && #[trigger] before[i]@ == s;
                                    assert(out@[i]@ == s);
                                } else {
                                    lemma_split_is_candidate(s, d as int);
                                    assert(out@[before.len() as int]@ == s);
                                }
                            }
                        }
                    }
                }
                proof {
                    assert forall|s: Seq<usize>| valid_split(s, d as int) && (s[0] < d1 || (s[0] == d1 && split_second(s) < d2 + 1))
                        implies exists|i: int| 0 <= i < out.len() && #[trigger] out@[i]@ == s by {
                        lemma_split_is_candidate(s, d as int);
                    }
                }
                d2 = d2 + 1;
            }
            proof {
                assert forall|s: Seq<usize>| valid_split(s, d as int) && s[0] < d1 + 1
                    implies exists|i: int| 0 <= i < out.len() && #[trigger] out@[i]@ == s by {
                    lemma_split_is_candidate(s, d as int);
                }
            }
        } else {
            proof {
                assert forall|s: Seq<usize>| valid_split(s, d as int) && s[0] < d1 + 1
                    implies exists|i: int| 0 <= i < out.len() && #[trigger] out@[i]@ == s by {
                    lemma_split_is_candidate(s, d as int);
                }
            }
        }
        d1 = d1 + 1;
    }
    proof {
        assert forall|s: Seq<usize>| valid_split(s, d as int)
            implies exists|i: int| 0 <= i < out.len() && #[trigger] out@[i]@ == s by {
            lemma_split_is_candidate(s, d as int);
        }
    }
    out
}

/// Largest number of coefficients that a FIR stage can use, given how many
/// clock cycles of the DDC there are per input sample of the stage.
///
/// A stage can do at most `MAX_OPERATIONS` operations per output, each taking
/// one clock cycle and using two coefficients with four DSPs or one with two
/// DSPs; the coefficients must also fit in the RAM of the stage, rounded down
/// to a multiple of the decimation.
pub fn stage_max_coefficients(clocks_per_input: usize, decimation: usize, four_dsp: bool) -> (r: usize)
    requires
        decimation > 0,
        2 * MAX_OPERATIONS * decimation <= usize::MAX,
    ensures
        ({
            let ops = if clocks_per_input < MAX_OPERATIONS { clocks_per_input as int } else { MAX_OPERATIONS as int };
            let per_clock: int = if four_dsp { 2 } else { 1 };
            let ram = if four_dsp { MAX_COEFFICIENTS_4DSP as int } else { MAX_COEFFICIENTS_2DSP as int };
            let by_operations = ops * per_clock * decimation;
            let by_ram = (ram / (decimation as int)) * decimation;
            r == if by_operations < by_ram { by_operations } else { by_ram }
        }),
{
    let coefficients_per_clock: usize = if four_dsp { 2 } else { 1 };
    let max_operations = if clocks_per_input < MAX_OPERATIONS { clocks_per_input } else { MAX_OPERATIONS };
    assert(max_operations * coefficients_per_clock * decimation <= 2 * MAX_OPERATIONS * decimation) by (nonlinear_arith)
        requires
            max_operations <= MAX_OPERATIONS,
            coefficients_per_clock <= 2,
    ;
    let max_coeffs = max_operations * coefficients_per_clock * decimation;
    let max_coeffs_ram = if four_dsp { MAX_COEFFICIENTS_4DSP } else { MAX_COEFFICIENTS_2DSP };
    assert((max_coeffs_ram / decimation) * decimation <= max_coeffs_ram) by {
        vstd::arithmetic::div_mod::lemma_fundamental_div_mod(max_coeffs_ram as int, decimation as int);
        assert((max_coeffs_ram / decimation) * decimation <= max_coeffs_ram) by (nonlinear_arith)
            requires
                max_coeffs_ram == decimation * (max_coeffs_ram / decimation) + max_coeffs_ram % decimation,
                max_coeffs_ram % decimation >= 0,
        ;
    }
    let max_coeffs_ram = (max_coeffs_ram / decimation) * decimation;
    if max_coeffs < max_coeffs_ram {
        max_coeffs
    } else {
        max_coeffs_ram
    }
}

/// Inserts `n - 1` zeros (default values) after each element of `x`.
///
/// This is the impulse response of a filter running at `n` times the rate of
/// `x`.
pub fn zero_pack<T: Default + Clone>(x: &[T], n: usize) -> (out: Vec<T>)
    requires
        n > 0,
        x.len() * n <= usize::MAX,
    ensures
        out.len() == x.len() * n,
        forall|i: int| 0 <= i < x.len() ==> cloned::<T>(x@[i], #[trigger] out@[i * n]),
        exists|z: T| call_ensures(T::default, (), z) && forall|j: int| 0 <= j < out.len() && j % (n as int) != 0 ==> cloned::<T>(z, #[trigger] out@[j]),
{
    let zero = T::default();
    let len = x.len() * n;
    let mut out: Vec<T> = Vec::new();
    let mut j: usize = 0;
    while j < len
        invariant
            len == x.len() * n,
            n > 0,
            j <= len,
            out.len() == j,
            call_ensures(T::default, (), zero),
            forall|i: int| 0 <= i < x.len() && i * n < j ==> cloned::<T>(x@[i], #[trigger] out@[i * n]),
            forall|k: int| 0 <= k < j && k % (n as int) != 0 ==> cloned::<T>(zero, #[trigger] out@[k]),
        decreases len - j,
    {
        if j % n == 0 {
            let i = j / n;
            proof {
                vstd::arithmetic::div_mod::lemma_fundamental_div_mod(j as int, n as int);
                assert(i < x.len()) by (nonlinear_arith)
                    requires
                        j == n * i,
                        j < x.len() * n,
                        n > 0,
                ;
            }
            out.push(x[i].clone());
            proof {
                assert forall|a: int| 0 <= a < x.len() && a * n < j + 1 implies cloned::<T>(x@[a], #[trigger] out@[a * n]) by {
                    if a * n == j {
                        assert(a == i) by (nonlinear_arith)
                            requires
                                a * n == j,
                                j == n * i,
                                n > 0,
                        ;
                    }
                }
            }
        } else {
            out.push(zero.clone());
            proof {
                assert forall|a: int| 0 <= a < x.len() && a * n < j + 1 implies cloned::<T>(x@[a], #[trigger] out@[a * n]) by {
                    if a * n == j {
                        vstd::arithmetic::div_mod::lemma_mod_multiples_basic(a, n as int);
                    }
                }
            }
        }
        j = j + 1;
    }
    assert forall|i: int| 0 <= i < x.len() implies #[trigger] (i * n) < len by {
        assert(i * n < x.len() * n) by (nonlinear_arith)
            requires
                0 <= i < x.len(),
                n > 0,
        ;
    }
    out
}

} // verus!
