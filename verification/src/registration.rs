//! Registering the H.264 decoder with a codec registry.

use vstd::prelude::*;

use crate::text::joined;

verus! {

/// An entry for a codec registry.
#[derive(Clone, Copy, Debug)]
pub struct Registration {
    pub codec_id: &'static str,
    pub implementation: &'static str,
    pub decode: bool,
    pub encode: bool,
    pub hardware: bool,
    /// Entries with lower numbers are preferred.
    pub priority: i32,
    pub max_width: u32,
    pub max_height: u32,
    pub engine_id: &'static str,
}

/// `entry` offers hardware H.264 decoding, ahead of software decoders.
pub open spec fn is_h264_entry(entry: Registration) -> bool {
    &&& entry.codec_id@ == "h264"@
    &&& entry.implementation@ == "vaapi-h264"@
    &&& entry.decode
    &&& !entry.encode
    &&& entry.hardware
    &&& entry.priority == 10
    &&& entry.max_width == 4096
    &&& entry.max_height == 4096
    &&& entry.engine_id@ == "vaapi"@
}

/// Decide on the registration, given whether the libva libraries could be
/// loaded and whether the host decodes H.264: the entry, or why there is none.
pub fn register(framework: Result<(), String>, decodes_h264: bool) -> (entry: Result<
    Registration,
    String,
>)
    ensures
        match (entry, framework) {
            (Ok(entry), Ok(())) => decodes_h264 && is_h264_entry(entry),
            (Err(reason), Ok(())) => !decodes_h264 && reason@
                == "oxideav-vaapi: driver loaded but no H.264 decode profile advertises VLD; skipping registration"@,
            (Err(reason), Err(text)) => reason@
                == "oxideav-vaapi: library unavailable, skipping registration: "@ + text@,
            (Ok(_), Err(_)) => false,
        },
{
    match framework {
        Err(text) => Err(
            joined(
                "oxideav-vaapi: library unavailable, skipping registration: ",
                text.as_str(),
            ),
        ),
        Ok(()) => if decodes_h264 {
            Ok(
                Registration {
                    codec_id: "h264",
                    implementation: "vaapi-h264",
                    decode: true,
                    encode: false,
                    hardware: true,
                    priority: 10,
                    max_width: 4096,
                    max_height: 4096,
                    engine_id: "vaapi",
                },
            )
        } else {
            Err(
                "oxideav-vaapi: driver loaded but no H.264 decode profile advertises VLD; skipping registration".to_string(),
            )
        },
    }
}

/// The decoder is registered exactly where the libraries load and the host
/// decodes H.264: as hardware decoder of H.264 up to 4096 x 4096, with
/// priority 10. Otherwise the reason is given.
pub proof fn law_registration(
    framework: Result<(), String>,
    decodes_h264: bool,
    entry: Result<Registration, String>,
)
    requires
        call_ensures(register, (framework, decodes_h264), entry),
    ensures
        entry is Ok <==> framework is Ok && decodes_h264,
        entry matches Ok(entry) ==> entry.codec_id@ == "h264"@ && entry.implementation@
            == "vaapi-h264"@ && entry.engine_id@ == "vaapi"@ && entry.decode && !entry.encode
            && entry.hardware && entry.priority == 10 && entry.max_width == 4096
            && entry.max_height == 4096,
        framework matches Err(text) ==> (entry matches Err(reason) && reason@
            == "oxideav-vaapi: library unavailable, skipping registration: "@ + text@),
        framework is Ok && !decodes_h264 ==> (entry matches Err(reason) && reason@
            == "oxideav-vaapi: driver loaded but no H.264 decode profile advertises VLD; skipping registration"@),
{
}

} // verus!
