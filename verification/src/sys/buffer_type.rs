//! `VABufferType` values, as `va.h` numbers them.

use vstd::prelude::*;

verus! {

pub const VAPictureParameterBufferType: u32 = 0;

pub const VAIQMatrixBufferType: u32 = 1;

pub const VASliceParameterBufferType: u32 = 4;

pub const VASliceDataBufferType: u32 = 5;

pub const VAImageBufferType: u32 = 9;

} // verus!
