//! Register-level bookkeeping of the Maia SDR FPGA IP core.
//!
//! The functions here compute what is written to, or read from, the IP core
//! registers: the layout of the DDC FIR coefficient RAMs, the encoding of the
//! recorder mode, the validation of the spectrometer integration count and the
//! walk over the spectrometer DMA ring. The register accesses themselves are
//! done by the caller.

use vstd::prelude::*;
use vstd::arithmetic::power2::pow2;
use vstd::bits::low_bits_mask;
use crate::json::{DDCFIRConfig, RecorderMode, SpectrometerInput, SpectrometerMode};
use crate::ddc::constants::{MAX_COEFFICIENTS_2DSP, MAX_COEFFICIENTS_4DSP, MAX_DECIMATION, MAX_OPERATIONS};

verus! {

/// Smallest FIR coefficient that the DDC can hold: -2^(COEFFICIENT_BITS - 1).
pub const MIN_COEFF: i32 = -131072;

/// Largest FIR coefficient that the DDC can hold: 2^(COEFFICIENT_BITS - 1) - 1.
pub const MAX_COEFF: i32 = 131071;

/// One of the three FIR filters of the DDC.
#[derive(Debug, Copy, Clone, PartialEq, Eq, Hash, Structural)]
pub enum FirStage {
    /// First stage: folded, four DSPs, RAM addresses 0..256.
    Fir1,
    /// Second stage: not folded, two DSPs, RAM addresses 256..384.
    Fir2,
    /// Third stage: folded, four DSPs, RAM addresses 512..768.
    Fir3,
}

/// Errors found when programming a FIR filter of the DDC.
#[derive(Debug, Copy, Clone, PartialEq, Eq, Hash, Structural)]
pub enum FirError {
    /// Some coefficient does not fit in the coefficient width.
    CoefficientOutOfRange,
    /// The decimation is not between 2 and the maximum decimation.
    DecimationOutOfRange,
    /// The coefficient list is empty.
    NoCoefficients,
    /// The filter needs more operations than the operations register allows.
    TooManyOperations,
    /// The filter needs more operations per sample than the clock allows.
    TooManyOperationsForSampleRate,
    /// The coefficients do not fit in the coefficient RAM.
    DoesNotFitRam,
}

impl FirStage {
    /// Whether the stage folds its coefficient list over two DSP pairs.
    pub open spec fn spec_folded(self) -> bool {
        match self {
            FirStage::Fir2 => false,
            _ => true,
        }
    }

    /// Number of coefficient RAM addresses of the stage.
    pub open spec fn spec_num_addr(self) -> int {
        if self.spec_folded() {
            MAX_COEFFICIENTS_4DSP as int
        } else {
            MAX_COEFFICIENTS_2DSP as int
        }
    }

    /// First coefficient RAM address of the stage.
    pub open spec fn spec_addr_offset(self) -> int {
        match self {
            FirStage::Fir1 => 0,
            FirStage::Fir2 => 256,
            FirStage::Fir3 => 512,
        }
    }

    /// Whether the stage folds its coefficient list over two DSP pairs.
    pub fn folded(&self) -> (r: bool)
        ensures
            r == self.spec_folded(),
    {
        match self {
            FirStage::Fir2 => false,
            _ => true,
        }
    }

    /// Number of coefficient RAM addresses of the stage.
    pub fn num_addr(&self) -> (r: usize)
        ensures
            r == self.spec_num_addr(),
    {
        if self.folded() {
            MAX_COEFFICIENTS_4DSP
        } else {
            MAX_COEFFICIENTS_2DSP
        }
    }

    /// First coefficient RAM address of the stage.
    pub fn addr_offset(&self) -> (r: u16)
        ensures
            r == self.spec_addr_offset(),
    {
        match self {
            FirStage::Fir1 => 0,
            FirStage::Fir2 => 256,
            FirStage::Fir3 => 512,
        }
    }
}

/// Division rounding up.
pub open spec fn ceil_div(a: int, b: int) -> int {
    (a + b - 1) / b
}

/// Whether a coefficient fits in the coefficient width of the DDC.
pub open spec fn coefficient_in_range(c: i32) -> bool {
    MIN_COEFF <= c <= MAX_COEFF
}

/// Number of operations (multiply-accumulate cycles per output) that a FIR
/// stage performs with a coefficient list of length `len` and decimation `d`.
pub open spec fn stage_operations(len: int, d: int, folded: bool) -> int {
    if folded {
        ceil_div(ceil_div(len, d), 2)
    } else {
        ceil_div(len, d)
    }
}

/// What checking a coefficient list against a FIR stage gives: the number of
/// operations, or the first check that fails.
pub open spec fn fir_check(stage: FirStage, coefficients: Seq<i32>, decimation: int) -> Result<FirPlan, FirError> {
    if exists|i: int| 0 <= i < coefficients.len() && !coefficient_in_range(#[trigger] coefficients[i]) {
        Err(FirError::CoefficientOutOfRange)
    } else if !(2 <= decimation <= MAX_DECIMATION) {
        Err(FirError::DecimationOutOfRange)
    } else if coefficients.len() == 0 {
        Err(FirError::NoCoefficients)
    } else if stage_operations(coefficients.len() as int, decimation, stage.spec_folded()) > MAX_OPERATIONS {
        Err(FirError::TooManyOperations)
    } else {
        Ok(FirPlan {
            operations: stage_operations(coefficients.len() as int, decimation, stage.spec_folded()) as usize,
            odd_operations: ceil_div(coefficients.len() as int, decimation) % 2 == 1,
        })
    }
}

/// What checking a FIR stage accepts and plans, stated on the coefficient
/// count and decimation: the list is accepted exactly when every coefficient
/// fits in 18 bits, the decimation is between 2 and 127, the list is not empty
/// and the stage needs at most 128 operations. The operations before folding
/// are `ceil(len / decimation)`, the least count of operations that covers
/// every coefficient; a folded stage does half of them, rounded up; and the
/// odd-operations flag tells whether that count before folding is odd.
pub proof fn lemma_fir_plan(stage: FirStage, coefficients: Seq<i32>, decimation: int, ops0: int)
    requires
        2 <= decimation,
        ops0 * decimation >= coefficients.len(),
        (ops0 - 1) * decimation < coefficients.len(),
    ensures
        ({
            let folded = stage != FirStage::Fir2;
            let operations = if folded { (ops0 + 1) / 2 } else { ops0 };
            &&& fir_check(stage, coefficients, decimation) is Ok <==> {
                &&& forall|i: int| 0 <= i < coefficients.len() ==> -131072 <= #[trigger] coefficients[i] <= 131071
                &&& decimation <= 127
                &&& coefficients.len() > 0
                &&& operations <= 128
            }
            &&& fir_check(stage, coefficients, decimation) matches Ok(p) ==> {
                &&& p.operations == operations
                &&& p.odd_operations == (ops0 % 2 == 1)
            }
        }),
{
    let len = coefficients.len() as int;
    let d = decimation;
    // ops0 is the rounded-up quotient
    vstd::arithmetic::div_mod::lemma_fundamental_div_mod(len + d - 1, d);
    let q = (len + d - 1) / d;
    assert(q == ops0) by (nonlinear_arith)
        requires
            len + d - 1 == d * q + (len + d - 1) % d,
            0 <= (len + d - 1) % d < d,
            ops0 * d >= len,
            (ops0 - 1) * d < len,
            d >= 2,
    ;
    assert(ceil_div(len, d) == ops0);
    if ops0 >= 0 {
        vstd::arithmetic::div_mod::lemma_fundamental_div_mod(ops0 + 1, 2);
    }
    assert(ceil_div(ops0, 2) == (ops0 + 1) / 2);
}

/// Number of operations of a FIR stage, as checked against its limits.
#[derive(Debug, Copy, Clone, PartialEq, Eq, Hash, Structural)]
pub struct FirPlan {
    /// Operations per output sample (after folding, for folded stages).
    pub operations: usize,
    /// Whether the number of operations before folding is odd.
    pub odd_operations: bool,
}

/// Checks a coefficient list and decimation against the limits of a FIR stage
/// and computes the number of operations it needs.
///
/// The checks happen in this order: coefficient range, decimation range,
/// empty list, and number of operations.
pub fn fir_plan(stage: FirStage, coefficients: &[i32], decimation: usize) -> (r: Result<FirPlan, FirError>)
    ensures
        r == fir_check(stage, coefficients@, decimation as int),
{
    let mut i: usize = 0;
    while i < coefficients.len()
        invariant
            i <= coefficients.len(),
            forall|j: int| 0 <= j < i ==> coefficient_in_range(#[trigger] coefficients@[j]),
        decreases coefficients.len() - i,
    {
        let c = coefficients[i];
        if c < MIN_COEFF || c > MAX_COEFF {
            assert(!coefficient_in_range(coefficients@[i as int]));
            return Err(FirError::CoefficientOutOfRange);
        }
        i = i + 1;
    }
    if decimation < 2 || decimation > MAX_DECIMATION {
        return Err(FirError::DecimationOutOfRange);
    }
    if coefficients.len() == 0 {
        return Err(FirError::NoCoefficients);
    }
    let len = coefficients.len();
    assert(len / decimation <= len / 2) by {
        vstd::arithmetic::div_mod::lemma_div_is_ordered_by_denominator(len as int, 2, decimation as int);
    }
    let ops0 = len / decimation + if len % decimation != 0 { 1 } else { 0 };
    assert(ops0 == ceil_div(len as int, decimation as int)) by {
        ceil_div_exact(len as int, decimation as int);
    }
    let odd_operations = ops0 % 2 == 1;
    let operations = if stage.folded() {
        let h = ops0 / 2 + ops0 % 2;
        assert(h == ceil_div(ops0 as int, 2)) by {
            ceil_div_exact(ops0 as int, 2);
        }
        h
    } else {
        ops0
    };
    if operations > MAX_OPERATIONS {
        return Err(FirError::TooManyOperations);
    }
    Ok(FirPlan { operations, odd_operations })
}

/// What a FIR stage is programmed with: the contents of its coefficient RAM
/// and the values of its decimation, operations and odd-operations fields.
#[derive(Debug)]
pub struct FirProgram {
    /// Register address of the first entry of `ram`.
    pub base_address: u16,
    /// Coefficient RAM contents, one entry per address.
    pub ram: Vec<i32>,
    /// Value of the decimation field.
    pub decimation: u8,
    /// Value of the operations-minus-one field.
    pub operations_minus_one: u8,
    /// Value of the odd-operations field (only written for folded stages).
    pub odd_operations: bool,
}

/// The coefficient stored at RAM address `addr` of a stage.
///
/// The RAM is split in `operations`-long rows, one per decimation phase `k`,
/// in reverse phase order. A folded stage holds the even operations in the
/// lower half of the RAM and the odd ones in the upper half. Addresses past the
/// last phase, and positions past the end of the coefficient list, hold zero.
pub open spec fn fir_ram_entry(
    coefficients: Seq<i32>,
    decimation: int,
    operations: int,
    folded: bool,
    num_addr: int,
    addr: int,
) -> i32 {
    let upper = folded && addr >= num_addr / 2;
    let off: int = if upper { 1 } else { 0 };
    let base: int = if upper { num_addr / 2 } else { 0 };
    let k = (addr - base) / operations;
    let j = (addr - base) % operations;
    let fold_mult: int = if folded { 2 } else { 1 };
    let n = (fold_mult * j + off) * decimation + (decimation - 1 - k);
    if k >= decimation || n >= coefficients.len() {
        0
    } else {
        coefficients[n]
    }
}

/// Lays out the coefficients of a FIR stage in its coefficient RAM.
///
/// `plan` is what [`fir_plan`] gave for the same stage, coefficients and
/// decimation. The layout fails when the operations times the decimation do
/// not fit in the RAM of the stage.
pub fn fir_program(stage: FirStage, coefficients: &[i32], decimation: usize, plan: FirPlan) -> (r: Result<FirProgram, FirError>)
    requires
        fir_check(stage, coefficients@, decimation as int) == Ok::<FirPlan, FirError>(plan),
    ensures
        r is Err <==> plan.operations * decimation > stage.spec_num_addr(),
        r is Err ==> r == Err::<FirProgram, FirError>(FirError::DoesNotFitRam),
        r matches Ok(p) ==> {
            &&& p.base_address == stage.spec_addr_offset()
            &&& p.ram.len() == stage.spec_num_addr()
            &&& forall|addr: int| 0 <= addr < p.ram.len() ==> #[trigger] p.ram@[addr] == fir_ram_entry(
                coefficients@,
                decimation as int,
                plan.operations as int,
                stage.spec_folded(),
                stage.spec_num_addr(),
                addr,
            )
            &&& p.decimation == decimation
            &&& p.operations_minus_one == plan.operations - 1
            &&& p.odd_operations == plan.odd_operations
        },
{
    let operations = plan.operations;
    let num_addr = stage.num_addr();
    let folded = stage.folded();
    proof {
        let len = coefficients@.len() as int;
        let d = decimation as int;
        ceil_div_positive(len, d);
        if folded {
            ceil_div_positive(ceil_div(len, d), 2);
        }
    }
    assert(1 <= operations <= MAX_OPERATIONS);
    assert(operations * decimation <= MAX_OPERATIONS * MAX_DECIMATION) by (nonlinear_arith)
        requires
            operations <= MAX_OPERATIONS,
            decimation <= MAX_DECIMATION,
    ;
    if operations * decimation > num_addr {
        return Err(FirError::DoesNotFitRam);
    }
    let half = num_addr / 2;
    let mut ram: Vec<i32> = Vec::new();
    let mut addr: usize = 0;
    while addr < num_addr
        invariant
            num_addr == stage.spec_num_addr(),
            folded == stage.spec_folded(),
            half == num_addr / 2,
            1 <= operations <= MAX_OPERATIONS,
            operations == plan.operations,
            2 <= decimation <= MAX_DECIMATION,
            addr <= num_addr,
            ram.len() == addr,
            forall|a: int| 0 <= a < addr ==> #[trigger] ram@[a] == fir_ram_entry(
                coefficients@,
                decimation as int,
                operations as int,
                folded,
                num_addr as int,
                a,
            ),
        decreases num_addr - addr,
    {
        let (off, base) = if folded && addr >= half {
            (1usize, half)
        } else {
            (0usize, 0usize)
        };
        let k = (addr - base) / operations;
        let coeff = if k >= decimation {
            0
        } else {
            let j = (addr - base) % operations;
            let fold_mult: usize = if folded { 2 } else { 1 };
            assert(fold_mult * j + off <= 2 * MAX_OPERATIONS) by (nonlinear_arith)
                requires
                    j < operations,
                    operations <= MAX_OPERATIONS,
                    fold_mult <= 2,
                    off <= 1,
            ;
            assert((fold_mult * j + off) * decimation <= 2 * MAX_OPERATIONS * MAX_DECIMATION) by (nonlinear_arith)
                requires
                    fold_mult * j + off <= 2 * MAX_OPERATIONS,
                    decimation <= MAX_DECIMATION,
            ;
            let n = (fold_mult * j + off) * decimation + (decimation - 1 - k);
            if n < coefficients.len() {
                coefficients[n]
            } else {
                0
            }
        };
        ram.push(coeff);
        addr = addr + 1;
    }
    Ok(FirProgram {
        base_address: stage.addr_offset(),
        ram,
        decimation: decimation as u8,
        operations_minus_one: (operations - 1) as u8,
        odd_operations: plan.odd_operations,
    })
}

/// The RAM address at which coefficient `n` of a stage is stored.
pub open spec fn fir_address(n: int, decimation: int, operations: int, folded: bool, num_addr: int) -> int {
    let m = n / decimation;
    let k = decimation - 1 - n % decimation;
    if folded {
        (m % 2) * (num_addr / 2) + k * operations + m / 2
    } else {
        k * operations + m
    }
}

/// Every coefficient of a stage is stored in its coefficient RAM: coefficient
/// `n` sits at address `fir_address(n, ..)`, inside the RAM.
///
/// This holds when each half of the RAM of a folded stage (the whole RAM of an
/// unfolded one) has room for `operations * decimation` entries.
pub proof fn lemma_fir_ram_holds_every_coefficient(
    stage: FirStage,
    coefficients: Seq<i32>,
    decimation: int,
    plan: FirPlan,
    n: int,
)
    requires
        fir_check(stage, coefficients, decimation) == Ok::<FirPlan, FirError>(plan),
        plan.operations * decimation <= if stage.spec_folded() {
            stage.spec_num_addr() / 2
        } else {
            stage.spec_num_addr()
        },
        0 <= n < coefficients.len(),
    ensures
        0 <= fir_address(n, decimation, plan.operations as int, stage.spec_folded(), stage.spec_num_addr())
            < stage.spec_num_addr(),
        fir_ram_entry(
            coefficients,
            decimation,
            plan.operations as int,
            stage.spec_folded(),
            stage.spec_num_addr(),
            fir_address(n, decimation, plan.operations as int, stage.spec_folded(), stage.spec_num_addr()),
        ) == coefficients[n],
{
    let d = decimation;
    let ops = plan.operations as int;
    let len = coefficients.len() as int;
    let folded = stage.spec_folded();
    let num_addr = stage.spec_num_addr();
    let half = num_addr / 2;
    let ops0 = ceil_div(len, d);
    ceil_div_exact(len, d);
    vstd::arithmetic::div_mod::lemma_fundamental_div_mod(len, d);
    vstd::arithmetic::div_mod::lemma_fundamental_div_mod(n, d);
    let m = n / d;
    let r = n % d;
    let k = d - 1 - r;
    // the phase row of coefficient n is shorter than the rows of the RAM
    assert(len <= ops0 * d) by (nonlinear_arith)
        requires
            len == d * (len / d) + len % d,
            0 <= len % d < d,
            ops0 == len / d + if len % d != 0 { 1int } else { 0int },
    ;
    assert(m < ops0) by (nonlinear_arith)
        requires
            n == d * m + r,
            0 <= r < d,
            n < len,
            len <= ops0 * d,
            d > 0,
    ;
    let j = if folded { m / 2 } else { m };
    let off = if folded { m % 2 } else { 0 };
    if folded {
        ceil_div_exact(ops0, 2);
        vstd::arithmetic::div_mod::lemma_fundamental_div_mod(m, 2);
        vstd::arithmetic::div_mod::lemma_fundamental_div_mod(ops0, 2);
        assert(j < ops);
    } else {
        assert(j < ops);
    }
    assert(m >= 0) by {
        vstd::arithmetic::div_mod::lemma_div_pos_is_pos(n, d);
    }
    let row = k * ops + j;
    let room = if folded { half } else { num_addr };
    assert(k * ops <= (d - 1) * ops) by (nonlinear_arith)
        requires
            0 <= k <= d - 1,
            ops >= 0,
    ;
    assert((d - 1) * ops + ops == ops * d) by (nonlinear_arith);
    assert(0 <= k * ops) by (nonlinear_arith)
        requires
            0 <= k,
            0 <= ops,
    ;
    assert(0 <= row < room);
    vstd::arithmetic::div_mod::lemma_fundamental_div_mod_converse(row, ops, k, j);
    let addr = fir_address(n, d, ops, folded, num_addr);
    if folded {
        assert(addr == off * half + row);
        assert(half == 128);
        if off == 1 {
            assert(addr == half + row) by {
                assert(m % 2 == 1);
                assert((m % 2) * (num_addr / 2) == half);
            }
        } else {
            assert(addr == row) by {
                assert(m % 2 == 0);
                assert((m % 2) * (num_addr / 2) == 0);
            }
        }
    } else {
        assert(addr == row);
    }
    let fold_mult: int = if folded { 2 } else { 1 };
    assert(fold_mult * j + off == m);
    assert((fold_mult * j + off) * d + (d - 1 - k) == n) by (nonlinear_arith)
        requires
            fold_mult * j + off == m,
            n == d * m + r,
            k == d - 1 - r,
    ;
}

/// A rounded-up quotient of a positive number is positive.
pub proof fn ceil_div_positive(a: int, b: int)
    requires
        a >= 1,
        b >= 1,
    ensures
        ceil_div(a, b) >= 1,
{
    vstd::arithmetic::div_mod::lemma_div_is_ordered(b, a + b - 1, b);
    vstd::arithmetic::div_mod::lemma_div_by_self(b);
}

/// Rounding-up division written with the quotient and remainder.
pub proof fn ceil_div_exact(a: int, b: int)
    requires
        a >= 0,
        b > 0,
    ensures
        ceil_div(a, b) == a / b + if a % b != 0 { 1int } else { 0int },
{
    vstd::arithmetic::div_mod::lemma_fundamental_div_mod(a, b);
    let q = a / b;
    let r = a % b;
    if r == 0 {
        assert(a + b - 1 == q * b + (b - 1)) by (nonlinear_arith)
            requires
                a == b * q + r,
                r == 0,
        ;
        vstd::arithmetic::div_mod::lemma_fundamental_div_mod_converse(a + b - 1, b, q, b - 1);
    } else {
        assert(a + b - 1 == (q + 1) * b + (r - 1)) by (nonlinear_arith)
            requires
                a == b * q + r,
        ;
        vstd::arithmetic::div_mod::lemma_fundamental_div_mod_converse(a + b - 1, b, q + 1, r - 1);
    }
}

/// FIR filter configuration of the DDC: the first filter, and the second and
/// third filters, each of which is bypassed when `None`.
#[derive(Debug)]
pub struct DdcFirs {
    /// Configuration of the first FIR filter.
    pub fir1: DDCFIRConfig,
    /// Configuration of the second FIR filter.
    pub fir2: Option<DDCFIRConfig>,
    /// Configuration of the third FIR filter.
    pub fir3: Option<DDCFIRConfig>,
}

/// Decimation of a filter that may be bypassed (a bypassed filter decimates by one).
pub open spec fn optional_decimation(f: Option<DDCFIRConfig>) -> int {
    match f {
        Some(c) => c.decimation as int,
        None => 1,
    }
}

/// Total decimation of the DDC.
pub open spec fn total_decimation(firs: DdcFirs) -> int {
    firs.fir1.decimation * optional_decimation(firs.fir2) * optional_decimation(firs.fir3)
}

/// Whether every filter of the DDC decimates (decimation at least one) and the
/// total decimation fits in a `u32`.
pub open spec fn firs_decimations_ok(firs: DdcFirs) -> bool {
    &&& firs.fir1.decimation >= 1
    &&& optional_decimation(firs.fir2) >= 1
    &&& optional_decimation(firs.fir3) >= 1
    &&& total_decimation(firs) <= u32::MAX
}

/// Gives the total decimation of the DDC: the product of the decimations of
/// the filters that are not bypassed.
pub fn ddc_decimation(firs: &DdcFirs) -> (r: usize)
    requires
        firs_decimations_ok(*firs),
    ensures
        r == total_decimation(*firs),
{
    let d1 = firs.fir1.decimation;
    let d2: u32 = match &firs.fir2 {
        Some(c) => c.decimation,
        None => 1,
    };
    let d3: u32 = match &firs.fir3 {
        Some(c) => c.decimation,
        None => 1,
    };
    assert(d1 * d2 <= d1 * d2 * d3) by (nonlinear_arith)
        requires
            d1 >= 1,
            d2 >= 1,
            d3 >= 1,
    ;
    let mut decimation = d1 as usize;
    decimation = decimation * (d2 as usize);
    decimation = decimation * (d3 as usize);
    decimation
}

/// What limits the input sampling frequency of one DDC stage: the stage runs
/// `operations` clock cycles per output, at an input rate divided by
/// `decimation_before` with respect to the DDC input.
#[derive(Debug, Copy, Clone, PartialEq, Eq, Hash, Structural)]
pub struct StageLimit {
    /// Decimation of the stages before this one.
    pub decimation_before: usize,
    /// Operations per output sample of this stage.
    pub operations: usize,
}

/// The limit of each stage that is not bypassed, in order. The maximum input
/// sampling frequency of the DDC is the smallest, over these stages, of the
/// clock frequency times `decimation_before` divided by `operations`.
pub fn ddc_stage_limits(firs: &DdcFirs) -> (r: Vec<StageLimit>)
    requires
        firs_decimations_ok(*firs),
    ensures
        r.len() == 1 + (if firs.fir2 is Some { 1int } else { 0 }) + (if firs.fir3 is Some { 1int } else { 0 }),
        r@[0] == (StageLimit {
            decimation_before: 1,
            operations: stage_operations(firs.fir1.coefficients.len() as int, firs.fir1.decimation as int, true) as usize,
        }),
        firs.fir2 matches Some(c) ==> r@[1] == (StageLimit {
            decimation_before: firs.fir1.decimation as usize,
            operations: stage_operations(c.coefficients.len() as int, c.decimation as int, false) as usize,
        }),
        firs.fir3 matches Some(c) ==> r@[r.len() - 1] == (StageLimit {
            decimation_before: (firs.fir1.decimation * optional_decimation(firs.fir2)) as usize,
            operations: stage_operations(c.coefficients.len() as int, c.decimation as int, true) as usize,
        }),
{
    let mut out: Vec<StageLimit> = Vec::new();
    let d1 = firs.fir1.decimation as usize;
    out.push(StageLimit { decimation_before: 1, operations: operations_of(&firs.fir1, true) });
    let mut decimation = d1;
    let d2: u32 = match &firs.fir2 {
        Some(c) => c.decimation,
        None => 1,
    };
    let d3: u32 = match &firs.fir3 {
        Some(c) => c.decimation,
        None => 1,
    };
    assert(d1 * d2 <= d1 * d2 * d3) by (nonlinear_arith)
        requires
            d1 >= 1,
            d2 >= 1,
            d3 >= 1,
    ;
    if let Some(c) = &firs.fir2 {
        out.push(StageLimit { decimation_before: decimation, operations: operations_of(c, false) });
        decimation = decimation * (c.decimation as usize);
    }
    if let Some(c) = &firs.fir3 {
        out.push(StageLimit { decimation_before: decimation, operations: operations_of(c, true) });
    }
    out
}

/// Operations per output of a stage with the given configuration.
fn operations_of(c: &DDCFIRConfig, folded: bool) -> (r: usize)
    requires
        c.decimation >= 1,
    ensures
        r == stage_operations(c.coefficients.len() as int, c.decimation as int, folded),
{
    let n = c.coefficients.len();
    let d = c.decimation as usize;
    let ops = if n == 0 { 0 } else { (n - 1) / d + 1 };
    proof {
        ceil_div_exact(n as int, d as int);
        if n == 0 {
            assert(ceil_div(0, d as int) == 0) by {
                vstd::arithmetic::div_mod::lemma_small_div_converse((d - 1) as int, d as int);
                vstd::arithmetic::div_mod::lemma_basic_div((d - 1) as int, d as int);
            }
        } else {
            assert(ops == ceil_div(n as int, d as int)) by {
                vstd::arithmetic::div_mod::lemma_div_plus_one((n - 1) as int, d as int);
            }
        }
    }
    if folded {
        proof {
            ceil_div_exact(ops as int, 2);
        }
        ops / 2 + ops % 2
    } else {
        ops
    }
}

/// Decimation between the AD9361 sample rate and the spectrometer (and
/// recorder) input: one for the AD9361 output, the DDC decimation for the DDC
/// output.
pub fn spectrometer_input_decimation(input: SpectrometerInput, firs: &DdcFirs) -> (r: usize)
    requires
        firs_decimations_ok(*firs),
    ensures
        r == match input {
            SpectrometerInput::AD9361 => 1,
            SpectrometerInput::DDC => total_decimation(*firs),
        },
{
    match input {
        SpectrometerInput::AD9361 => 1,
        SpectrometerInput::DDC => ddc_decimation(firs),
    }
}

/// Decimation between the AD9361 sample rate and the recorder input, which
/// shares its input with the spectrometer.
pub fn recorder_input_decimation(input: SpectrometerInput, firs: &DdcFirs) -> (r: usize)
    requires
        firs_decimations_ok(*firs),
    ensures
        r == match input {
            SpectrometerInput::AD9361 => 1,
            SpectrometerInput::DDC => total_decimation(*firs),
        },
{
    spectrometer_input_decimation(input, firs)
}

/// Value of the `use_ddc_out` bit of the spectrometer register for an input.
pub open spec fn spec_use_ddc_out(input: SpectrometerInput) -> bool {
    input == SpectrometerInput::DDC
}

/// Value of the `use_ddc_out` bit of the spectrometer register (and of the DDC
/// enable bit) for a spectrometer input.
pub fn use_ddc_out(input: SpectrometerInput) -> (r: bool)
    ensures
        r == spec_use_ddc_out(input),
        r == (input == SpectrometerInput::DDC),
{
    match input {
        SpectrometerInput::DDC => true,
        SpectrometerInput::AD9361 => false,
    }
}

/// Spectrometer input selected by the `use_ddc_out` bit of the spectrometer
/// register.
pub fn spectrometer_input_from_register(use_ddc_out: bool) -> (r: SpectrometerInput)
    ensures
        spec_use_ddc_out(r) == use_ddc_out,
        r == (if use_ddc_out { SpectrometerInput::DDC } else { SpectrometerInput::AD9361 }),
{
    if use_ddc_out {
        SpectrometerInput::DDC
    } else {
        SpectrometerInput::AD9361
    }
}

/// Value of the `peak_detect` bit of the spectrometer register for a mode.
pub open spec fn spec_peak_detect(mode: SpectrometerMode) -> bool {
    mode == SpectrometerMode::PeakDetect
}

/// Value of the `peak_detect` bit of the spectrometer register for a
/// spectrometer mode.
pub fn peak_detect(mode: SpectrometerMode) -> (r: bool)
    ensures
        r == spec_peak_detect(mode),
        r == (mode == SpectrometerMode::PeakDetect),
{
    match mode {
        SpectrometerMode::Average => false,
        SpectrometerMode::PeakDetect => true,
    }
}

/// Spectrometer mode selected by the `peak_detect` bit of the spectrometer
/// register.
pub fn spectrometer_mode_from_register(peak_detect: bool) -> (r: SpectrometerMode)
    ensures
        spec_peak_detect(r) == peak_detect,
        r == (if peak_detect { SpectrometerMode::PeakDetect } else { SpectrometerMode::Average }),
{
    if peak_detect {
        SpectrometerMode::PeakDetect
    } else {
        SpectrometerMode::Average
    }
}

/// The spectrometer input and mode read back from the register bits are the
/// ones that were written.
pub proof fn lemma_spectrometer_bits_roundtrip(input: SpectrometerInput, mode: SpectrometerMode)
    ensures
        forall|i: SpectrometerInput| spec_use_ddc_out(i) == spec_use_ddc_out(input) ==> i == input,
        forall|m: SpectrometerMode| spec_peak_detect(m) == spec_peak_detect(mode) ==> m == mode,
{
}

/// The spectrometer register bits name what they say: `use_ddc_out` is set
/// exactly for the DDC input and `peak_detect` exactly for the peak-detect
/// mode, so the AD9361 input and average-power mode are the clear bits.
pub proof fn lemma_spectrometer_bits_meaning(input: SpectrometerInput, mode: SpectrometerMode)
    ensures
        spec_use_ddc_out(input) <==> input == SpectrometerInput::DDC,
        !spec_use_ddc_out(SpectrometerInput::AD9361),
        spec_peak_detect(mode) <==> mode == SpectrometerMode::PeakDetect,
        !spec_peak_detect(SpectrometerMode::Average),
{
}

/// The recorder mode field holds 0 for 16-bit, 1 for 12-bit and 2 for 8-bit
/// recordings, and every other value is refused.
pub proof fn lemma_recorder_mode_codes(bits: u8)
    ensures
        recorder_mode_code(RecorderMode::IQ16bit) == 0,
        recorder_mode_code(RecorderMode::IQ12bit) == 1,
        recorder_mode_code(RecorderMode::IQ8bit) == 2,
        bits > 2 ==> recorder_mode_decode(bits) == Err::<RecorderMode, RegisterError>(RegisterError::InvalidRecorderMode),
{
}

/// Errors found when reading or writing IP core registers.
#[derive(Debug, Copy, Clone, PartialEq, Eq, Hash, Structural)]
pub enum RegisterError {
    /// The recorder mode field holds a value that names no mode.
    InvalidRecorderMode,
    /// The number of spectrometer integrations does not fit in its field.
    InvalidNumberIntegrations,
    /// The number of buffers of a DMA ring is not a power of two.
    NumBuffersNotPowerOfTwo,
}

/// Value of the recorder mode field for each recorder mode.
pub open spec fn recorder_mode_code(mode: RecorderMode) -> u8 {
    match mode {
        RecorderMode::IQ16bit => 0,
        RecorderMode::IQ12bit => 1,
        RecorderMode::IQ8bit => 2,
    }
}

/// Recorder mode that a value of the recorder mode field stands for.
pub open spec fn recorder_mode_decode(bits: u8) -> Result<RecorderMode, RegisterError> {
    if bits == 0 {
        Ok(RecorderMode::IQ16bit)
    } else if bits == 1 {
        Ok(RecorderMode::IQ12bit)
    } else if bits == 2 {
        Ok(RecorderMode::IQ8bit)
    } else {
        Err(RegisterError::InvalidRecorderMode)
    }
}

/// Decodes the recorder mode field of the recorder control register.
pub fn recorder_mode_from_register(bits: u8) -> (r: Result<RecorderMode, RegisterError>)
    ensures
        r == recorder_mode_decode(bits),
{
    match bits {
        0 => Ok(RecorderMode::IQ16bit),
        1 => Ok(RecorderMode::IQ12bit),
        2 => Ok(RecorderMode::IQ8bit),
        _ => Err(RegisterError::InvalidRecorderMode),
    }
}

/// Encodes a recorder mode for the recorder control register.
pub fn recorder_mode_to_register(mode: RecorderMode) -> (r: u8)
    ensures
        r == recorder_mode_code(mode),
{
    match mode {
        RecorderMode::IQ16bit => 0,
        RecorderMode::IQ12bit => 1,
        RecorderMode::IQ8bit => 2,
    }
}

/// Reading back the recorder mode that was written gives the same mode, and a
/// field value that decodes is the code of the mode it decodes to.
pub proof fn lemma_recorder_mode_register_roundtrip(mode: RecorderMode, bits: u8)
    ensures
        recorder_mode_decode(recorder_mode_code(mode)) == Ok::<RecorderMode, RegisterError>(mode),
        recorder_mode_decode(bits) matches Ok(m) ==> recorder_mode_code(m) == bits,
{
}

/// Width of the number of integrations field of the spectrometer register, as
/// the peripheral access crate declares it.
///
/// Calls `maia_pac::maia_sdr::spectrometer::NumIntegrationsW::WIDTH`, which the
/// crate defines as the width parameter (10) of the field writer.
#[verifier::external_body]
fn num_integrations_width() -> (w: u8)
    ensures
        w == 10,
{
    maia_pac::maia_sdr::spectrometer::NumIntegrationsW::<maia_pac::maia_sdr::spectrometer::SpectrometerSpec>::WIDTH
}

/// Largest number of spectrometer integrations plus one.
pub open spec fn integrations_limit() -> int {
    1024
}

/// Checks a new number of spectrometer integrations against the width of its
/// register field and decides whether the current integration must be
/// aborted, which happens when the number of integrations decreases.
///
/// `current` is the value that the register field holds now.
pub fn check_num_integrations(value: u32, current: u16) -> (r: Result<bool, RegisterError>)
    ensures
        r is Ok <==> 1 <= value < integrations_limit(),
        r matches Ok(abort) ==> abort == (current > value),
        r is Err ==> r == Err::<bool, RegisterError>(RegisterError::InvalidNumberIntegrations),
{
    let width = num_integrations_width();
    let limit: u32 = 1u32 << width;
    assert(1u32 << 10u8 == 1024u32) by (bit_vector);
    if !(1 <= value && value < limit) {
        return Err(RegisterError::InvalidNumberIntegrations);
    }
    Ok((current as u32) > value)
}

/// Whether `n` is a power of two that a `usize` can hold.
pub open spec fn is_power_of_two(n: int) -> bool {
    exists|k: nat| k < usize::BITS && pow2(k) == n
}

/// Calls `usize::is_power_of_two`, which the standard library documents as
/// returning true if and only if the value is 2^k for some k.
#[verifier::external_body]
fn usize_is_power_of_two(n: usize) -> (r: bool)
    ensures
        r == is_power_of_two(n as int),
{
    n.is_power_of_two()
}

/// Walk over a ring of DMA buffers that the FPGA fills in turn.
///
/// The ring remembers the last buffer that it handed out, so that each call of
/// [`BufferRing::new_buffers`] gives the buffers written since the previous
/// call.
#[derive(Debug)]
pub struct BufferRing {
    last_written: Option<usize>,
    num_buffers_mask: usize,
}

impl BufferRing {
    /// Number of buffers in the ring.
    pub closed spec fn num_buffers(&self) -> int {
        self.num_buffers_mask + 1
    }

    /// Last buffer handed out, if any.
    pub closed spec fn last_written(&self) -> Option<usize> {
        self.last_written
    }

    /// Invariant of the ring: its size is a power of two, and the last buffer
    /// handed out leaves room to count a whole turn of the ring after it.
    pub closed spec fn wf(&self) -> bool {
        &&& is_power_of_two(self.num_buffers_mask + 1)
        &&& (self.last_written matches Some(p) ==> p + self.num_buffers_mask + 1 <= usize::MAX)
    }

    /// Creates a ring of `num_buffers` buffers, which must be a power of two.
    pub fn new(num_buffers: usize) -> (r: Result<BufferRing, RegisterError>)
        ensures
            r is Ok <==> is_power_of_two(num_buffers as int),
            r matches Ok(ring) ==> ring.wf() && ring.num_buffers() == num_buffers && ring.last_written()
                is None,
            r is Err ==> r == Err::<BufferRing, RegisterError>(RegisterError::NumBuffersNotPowerOfTwo),
    {
        if !usize_is_power_of_two(num_buffers) {
            return Err(RegisterError::NumBuffersNotPowerOfTwo);
        }
        proof {
            let k = choose|k: nat| k < usize::BITS && pow2(k) == num_buffers;
            vstd::arithmetic::power2::lemma_pow2_pos(k);
        }
        Ok(BufferRing { last_written: None, num_buffers_mask: num_buffers - 1 })
    }

    /// Returns the indices of the buffers written since the previous call, in
    /// the order in which they were written, given the index of the last
    /// buffer that the FPGA has written.
    ///
    /// The first call hands out no buffer: it only records where the FPGA is.
    pub fn new_buffers(&mut self, last_written: usize) -> (r: Vec<usize>)
        requires
            old(self).wf(),
            last_written + old(self).num_buffers() <= usize::MAX,
        ensures
            final(self).wf(),
            final(self).num_buffers() == old(self).num_buffers(),
            final(self).last_written() == Some(last_written),
            ({
                let n = old(self).num_buffers();
                let start: int = match old(self).last_written() {
                    Some(p) => p + 1,
                    None => last_written + 1,
                };
                let end = (last_written + 1) % n;
                &&& r.len() == (end - start) % n
                &&& forall|i: int| 0 <= i < r.len() ==> #[trigger] r@[i] == (start + i) % n
            }),
    {
        let ghost n: int = self.num_buffers();
        let ghost k: nat = choose|k: nat| k < usize::BITS && pow2(k) == n;
        proof {
            vstd::arithmetic::power2::lemma_pow2_pos(k);
            assert(self.num_buffers_mask == low_bits_mask(k));
        }
        let mask = self.num_buffers_mask;
        let start = match self.last_written {
            Some(p) => p + 1,
            None => last_written + 1,
        };
        self.last_written = Some(last_written);
        let end = (last_written + 1) & mask;
        proof {
            vstd::bits::lemma_usize_low_bits_mask_is_mod((last_written + 1) as usize, k);
        }
        assert(end == (last_written as int + 1) % n);
        let ghost count: int = (end - start) % n;
        let mut out: Vec<usize> = Vec::new();
        let mut idx: usize = start;
        loop
            invariant_except_break
                mask == low_bits_mask(k),
                pow2(k) == n,
                k < usize::BITS,
                0 < n,
                start <= idx <= start + count,
                0 <= count < n,
                start + n <= usize::MAX + 1,
                count == (end - start) % n,
                end == (last_written + 1) % n,
                out.len() == idx - start,
                forall|i: int| 0 <= i < out.len() ==> #[trigger] out@[i] == (start + i) % n,
            ensures
                out.len() == count,
                forall|i: int| 0 <= i < out.len() ==> #[trigger] out@[i] == (start + i) % n,
            decreases start + count - idx,
        {
            let b = idx & mask;
            proof {
                vstd::bits::lemma_usize_low_bits_mask_is_mod(idx, k);
                vstd::bits::lemma_usize_pow2_no_overflow(k);
            }
            assert(b == (idx as int) % n);
            if b == end {
                proof {
                    lemma_ring_distance(start as int, idx as int, end as int, n);
                }
                break;
            }
            proof {
                if idx == start + count {
                    lemma_ring_reaches_end(start as int, end as int, n);
                }
            }
            out.push(b);
            idx = idx + 1;
        }
        out
    }
}

/// Counting `(end - start) mod n` steps from `start` reaches `end` modulo `n`.
proof fn lemma_ring_reaches_end(start: int, end: int, n: int)
    requires
        0 < n,
        0 <= end < n,
    ensures
        (start + (end - start) % n) % n == end,
{
    vstd::arithmetic::div_mod::lemma_fundamental_div_mod(end - start, n);
    let q = (end - start) / n;
    assert(start + (end - start) % n == n * (-q) + end) by (nonlinear_arith)
        requires
            end - start == n * q + (end - start) % n,
    ;
    vstd::arithmetic::div_mod::lemma_mod_multiples_vanish(-q, end, n);
    vstd::arithmetic::div_mod::lemma_small_mod(end as nat, n as nat);
}

/// The first index at or after `start` that is `end` modulo `n` lies
/// `(end - start) mod n` steps after `start`.
proof fn lemma_ring_distance(start: int, idx: int, end: int, n: int)
    requires
        0 < n,
        0 <= end < n,
        start <= idx <= start + (end - start) % n,
        idx % n == end,
    ensures
        idx - start == (end - start) % n,
{
    vstd::arithmetic::div_mod::lemma_fundamental_div_mod(end - start, n);
    vstd::arithmetic::div_mod::lemma_fundamental_div_mod(idx, n);
    let d = idx - start;
    // idx - start and end - start are congruent modulo n
    assert((idx - start) % n == (end - start) % n) by {
        vstd::arithmetic::div_mod::lemma_sub_mod_noop(idx, start, n);
        vstd::arithmetic::div_mod::lemma_sub_mod_noop(end, start, n);
        vstd::arithmetic::div_mod::lemma_small_mod(end as nat, n as nat);
    }
    vstd::arithmetic::div_mod::lemma_small_mod(d as nat, n as nat);
}

/// What follows an attempt to program a new DDC configuration.
#[derive(Debug)]
pub struct DdcConfigOutcome<C, E> {
    /// The configuration that is stored as the current one.
    pub stored: C,
    /// Whether the stored configuration must be programmed again, to undo
    /// what the failed attempt left in the registers.
    pub reprogram_stored: bool,
    /// What the update answers.
    pub result: Result<(), E>,
}

/// Decides what follows an attempt to program the DDC with `new`, while
/// `stored` is the configuration programmed before: on success `new` becomes
/// the stored configuration; on failure the stored one stays, is programmed
/// again, and the failure is answered.
pub fn ddc_config_step<C, E>(stored: C, new: C, programmed: Result<(), E>) -> (r: DdcConfigOutcome<C, E>)
    ensures
        match programmed {
            Ok(()) => r.stored == new && !r.reprogram_stored && r.result is Ok,
            Err(e) => r.stored == stored && r.reprogram_stored && r.result == Err::<(), E>(e),
        },
{
    match programmed {
        Ok(()) => DdcConfigOutcome { stored: new, reprogram_stored: false, result: Ok(()) },
        Err(e) => DdcConfigOutcome { stored, reprogram_stored: true, result: Err(e) },
    }
}

} // verus!
