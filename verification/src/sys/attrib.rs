//! `VAConfigAttribType` values, as `va.h` numbers them.

use vstd::prelude::*;

verus! {

pub const VAConfigAttribRTFormat: i32 = 0;

pub const VAConfigAttribSpatialResidual: i32 = 1;

pub const VAConfigAttribSpatialClipping: i32 = 2;

pub const VAConfigAttribIntraResidual: i32 = 3;

pub const VAConfigAttribEncryption: i32 = 4;

pub const VAConfigAttribRateControl: i32 = 5;

pub const VAConfigAttribDecSliceMode: i32 = 6;

pub const VAConfigAttribDecJPEG: i32 = 7;

pub const VAConfigAttribDecProcessing: i32 = 8;

pub const VAConfigAttribMaxPictureWidth: i32 = 18;

pub const VAConfigAttribMaxPictureHeight: i32 = 19;

} // verus!
