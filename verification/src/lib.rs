//! Decision logic of a VA-API hardware decode bridge.
//!
//! Everything that the bridge decides or computes is here, as functions over
//! plain values with contracts: which profiles belong to which codec, what a
//! driver's answers mean, how parameter buffers are filled in, where the data
//! of an H.264 slice begins, how a decoded image becomes a frame, and which
//! libva call comes next, whatever the last one returned. The calls
//! themselves, and the libraries they go to, are left to the application: it
//! asks an object for its next action, performs it, and hands the reply back.
//!
//! * [`display`], [`capabilities`], [`matrix`]: opening a display, and what
//!   its driver advertises.
//! * [`profiles`], [`engine`], [`registration`]: codec families, the device
//!   report, and the registry entry.
//! * [`config`], [`context`], [`decoder`], [`submission`], [`readback`]: from
//!   a parameter set to a decoded frame.
//! * [`codec`]: the streaming decoder around them.
//! * [`h264`], [`bitstream`], [`slice_header`], [`params`], [`planes`]: H.264
//!   syntax, parameter buffers and sample planes.
//! * [`slice_syntax`]: how a slice header is written, and that what is written
//!   is what the walk over it counts.
//! * [`runtime`], [`sys`], [`error`], [`text`]: loading libva, what crosses
//!   its boundary, errors and their texts.

pub mod bitstream;
pub mod capabilities;
pub mod codec;
pub mod config;
pub mod context;
pub mod decoder;
pub mod display;
pub mod engine;
pub mod error;
pub mod h264;
pub mod matrix;
pub mod params;
pub mod planes;
pub mod profiles;
pub mod readback;
pub mod registration;
pub mod runtime;
pub mod slice_header;
pub mod slice_syntax;
pub mod submission;
pub mod sys;
pub mod text;

pub use codec::H264VaCodecDecoder;
pub use config::Config;
pub use context::Context;
pub use decoder::H264VaDecoder;
pub use display::Display;
pub use engine::device_path_for_index;
pub use engine::engine_info;
pub use error::VaError;
pub use matrix::EntrypointMatrix;
pub use matrix::VaProfile;
pub use planes::DecodedFrame;
pub use profiles::codec_decode_supported;
pub use profiles::codec_encode_supported;
pub use profiles::codec_id_for_profile;
pub use profiles::codec_id_for_va_profile;
pub use profiles::codec_profiles;
pub use profiles::headline_profile;
pub use profiles::host_supports_codec_decode;
pub use profiles::known_codecs;
