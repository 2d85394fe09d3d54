//! FPGA DDC implementation constants.

use vstd::prelude::*;

verus! {

/// Number of bits used for the FIR filter coefficients.
pub const COEFFICIENT_BITS: u8 = 18;

/// Maximum decimation for a FIR filter stage (the decimation register is 7 bits wide).
pub const MAX_DECIMATION: usize = 127;

/// Maximum number of operations for a FIR filter stage (the operations register holds operations minus one in 7 bits).
pub const MAX_OPERATIONS: usize = 128;

/// Maximum number of coefficients that can be stored in a FIR with 4 DSPs.
pub const MAX_COEFFICIENTS_4DSP: usize = 256;

/// Maximum number of coefficients that can be stored in a FIR with 2 DSPs.
pub const MAX_COEFFICIENTS_2DSP: usize = 128;

} // verus!
