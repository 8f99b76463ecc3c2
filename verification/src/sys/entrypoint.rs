//! `VAEntrypoint` values, as `va.h` numbers them.

use vstd::prelude::*;

verus! {

/// Decode.
pub const VAEntrypointVLD: i32 = 1;

/// Slice-level encode.
pub const VAEntrypointEncSlice: i32 = 6;

/// Low-power encode.
pub const VAEntrypointEncSliceLP: i32 = 8;

/// Pre- and post-processing.
pub const VAEntrypointVideoProc: i32 = 10;

} // verus!
