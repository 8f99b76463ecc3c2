//! The data that crosses the libva boundary: identifiers, status codes,
//! flags and the parameter structs, with the values of `va.h`.
//!
//! The structs hold the fields of their C counterparts in the same order.
//! Handles are plain integers; a display handle of 0 is the null handle.

use vstd::prelude::*;

use crate::error::VaError;
use crate::error::VaErrorView;
use crate::text::joined;
use crate::text::numeral;
use crate::text::numeral_text;

#[allow(non_upper_case_globals)]
pub mod attrib;
#[allow(non_upper_case_globals)]
pub mod buffer_type;
#[allow(non_upper_case_globals)]
pub mod entrypoint;
#[allow(non_upper_case_globals)]
pub mod profile;

verus! {

/// Display handle, as the address that `vaGetDisplayDRM` returned.
pub type VADisplay = usize;

pub type VAConfigID = u32;

pub type VAContextID = u32;

pub type VASurfaceID = u32;

pub type VABufferID = u32;

pub type VAImageID = u32;

/// Marks an unset identifier.
pub const VA_INVALID_ID: u32 = 0xFFFF_FFFF;

pub const VA_INVALID_SURFACE: VASurfaceID = VA_INVALID_ID;

/// Return code of a libva call.
pub type VAStatus = i32;

pub const VA_STATUS_SUCCESS: VAStatus = 0;

pub const VA_STATUS_ERROR_OPERATION_FAILED: VAStatus = 0x0000_0001;

pub const VA_STATUS_ERROR_ALLOCATION_FAILED: VAStatus = 0x0000_0002;

pub const VA_STATUS_ERROR_INVALID_DISPLAY: VAStatus = 0x0000_0003;

pub const VA_STATUS_ERROR_INVALID_CONFIG: VAStatus = 0x0000_0004;

pub const VA_STATUS_ERROR_INVALID_CONTEXT: VAStatus = 0x0000_0005;

pub const VA_STATUS_ERROR_UNSUPPORTED_PROFILE: VAStatus = 0x0000_000c;

pub const VA_STATUS_ERROR_UNSUPPORTED_ENTRYPOINT: VAStatus = 0x0000_000d;

pub const VA_STATUS_ERROR_INVALID_PARAMETER: VAStatus = 0x0000_0012;

pub const VA_STATUS_ERROR_UNIMPLEMENTED: VAStatus = 0x0000_0014;

/// `0xFFFF_FFFF` read as a signed value.
pub const VA_STATUS_ERROR_UNKNOWN: VAStatus = -1;

/// One attribute type with its value.
#[derive(Copy, Clone, Debug, PartialEq, Eq, Structural)]
pub struct VAConfigAttrib {
    pub ty: i32,
    pub value: u32,
}

/// Value of an attribute that the driver does not support.
pub const VA_ATTRIB_NOT_SUPPORTED: u32 = 0x8000_0000;

pub const VA_RT_FORMAT_YUV420: u32 = 0x0000_0001;

pub const VA_RT_FORMAT_YUV422: u32 = 0x0000_0002;

pub const VA_RT_FORMAT_YUV444: u32 = 0x0000_0004;

pub const VA_RT_FORMAT_YUV400: u32 = 0x0000_0010;

pub const VA_RT_FORMAT_YUV420_10: u32 = 0x0000_0100;

pub const VA_FOURCC_NV12: u32 = 0x3231_564E;

pub const VA_FOURCC_I420: u32 = 0x3032_3449;

pub const VA_FOURCC_YV12: u32 = 0x3231_5659;

pub const VA_FOURCC_IYUV: u32 = 0x5655_5949;

pub const VA_SLICE_DATA_FLAG_ALL: u32 = 0x00;

pub const VA_SLICE_DATA_FLAG_BEGIN: u32 = 0x01;

pub const VA_SLICE_DATA_FLAG_MIDDLE: u32 = 0x02;

pub const VA_SLICE_DATA_FLAG_END: u32 = 0x04;

pub const VA_PICTURE_H264_INVALID: u32 = 0x0000_0001;

pub const VA_PICTURE_H264_TOP_FIELD: u32 = 0x0000_0002;

pub const VA_PICTURE_H264_BOTTOM_FIELD: u32 = 0x0000_0004;

pub const VA_PICTURE_H264_SHORT_TERM_REFERENCE: u32 = 0x0000_0008;

pub const VA_PICTURE_H264_LONG_TERM_REFERENCE: u32 = 0x0000_0010;

/// Lengths of the reserved arrays that end the libva structs.
pub const VA_PADDING_LOW: usize = 4;

pub const VA_PADDING_MEDIUM: usize = 8;

pub const VA_PADDING_HIGH: usize = 16;

/// One picture of the decoded picture buffer.
#[derive(Copy, Clone, Debug)]
pub struct VAPictureH264 {
    pub picture_id: VASurfaceID,
    pub frame_idx: u32,
    pub flags: u32,
    pub top_field_order_cnt: i32,
    pub bottom_field_order_cnt: i32,
    pub va_reserved: [u32; 4],
}

/// Every element of an array is zero.
pub open spec fn all_zero<const N: usize>(words: [u32; N]) -> bool {
    forall|i: int| 0 <= i < N ==> #[trigger] words@[i] == 0
}

impl VAPictureH264 {
    /// The picture fills an unused reference slot.
    pub open spec fn is_invalid(self) -> bool {
        &&& self.picture_id == VA_INVALID_SURFACE
        &&& self.frame_idx == 0
        &&& self.flags == VA_PICTURE_H264_INVALID
        &&& self.top_field_order_cnt == 0
        &&& self.bottom_field_order_cnt == 0
        &&& all_zero(self.va_reserved)
    }

    /// The filler of unused reference slots: no surface, and flagged invalid.
    pub fn invalid() -> (picture: Self)
        ensures
            picture.is_invalid(),
    {
        VAPictureH264 {
            picture_id: VA_INVALID_SURFACE,
            frame_idx: 0,
            flags: VA_PICTURE_H264_INVALID,
            top_field_order_cnt: 0,
            bottom_field_order_cnt: 0,
            va_reserved: [0; 4],
        }
    }
}

/// H.264 picture parameters. `seq_fields` and `pic_fields` are the storage
/// words of the C bit-fields.
#[derive(Copy, Clone, Debug)]
pub struct VAPictureParameterBufferH264 {
    pub curr_pic: VAPictureH264,
    pub reference_frames: [VAPictureH264; 16],
    pub picture_width_in_mbs_minus1: u16,
    pub picture_height_in_mbs_minus1: u16,
    pub bit_depth_luma_minus8: u8,
    pub bit_depth_chroma_minus8: u8,
    pub num_ref_frames: u8,
    pub seq_fields: u32,
    pub num_slice_groups_minus1: u8,
    pub slice_group_map_type: u8,
    pub slice_group_change_rate_minus1: u16,
    pub pic_init_qp_minus26: i8,
    pub pic_init_qs_minus26: i8,
    pub chroma_qp_index_offset: i8,
    pub second_chroma_qp_index_offset: i8,
    pub pic_fields: u32,
    pub frame_num: u16,
    pub va_reserved: [u32; 8],
}

/// H.264 inverse quantisation matrices in raster order: six 4x4 lists and
/// two 8x8 lists.
#[derive(Copy, Clone, Debug)]
pub struct VAIQMatrixBufferH264 {
    pub scaling_list_4x4: [[u8; 16]; 6],
    pub scaling_list_8x8: [[u8; 64]; 2],
    pub va_reserved: [u32; 4],
}

impl VAIQMatrixBufferH264 {
    /// Every scaling factor is 16, the value of a stream that transmits no
    /// scaling lists (7.4.2.1.1).
    pub open spec fn is_flat(self) -> bool {
        &&& forall|list: int, i: int|
            0 <= list < 6 && 0 <= i < 16 ==> #[trigger] self.scaling_list_4x4@[list]@[i] == 16
        &&& forall|list: int, i: int|
            0 <= list < 2 && 0 <= i < 64 ==> #[trigger] self.scaling_list_8x8@[list]@[i] == 16
        &&& all_zero(self.va_reserved)
    }

    /// The matrices of a stream that transmits no scaling lists.
    pub fn flat() -> (matrices: Self)
        ensures
            matrices.is_flat(),
    {
        VAIQMatrixBufferH264 {
            scaling_list_4x4: [[16; 16]; 6],
            scaling_list_8x8: [[16; 64]; 2],
            va_reserved: [0; 4],
        }
    }
}

/// H.264 slice parameters.
#[derive(Copy, Clone, Debug)]
pub struct VASliceParameterBufferH264 {
    pub slice_data_size: u32,
    pub slice_data_offset: u32,
    pub slice_data_flag: u32,
    pub slice_data_bit_offset: u16,
    pub first_mb_in_slice: u16,
    pub slice_type: u8,
    pub direct_spatial_mv_pred_flag: u8,
    pub num_ref_idx_l0_active_minus1: u8,
    pub num_ref_idx_l1_active_minus1: u8,
    pub cabac_init_idc: u8,
    pub slice_qp_delta: i8,
    pub disable_deblocking_filter_idc: u8,
    pub slice_alpha_c0_offset_div2: i8,
    pub slice_beta_offset_div2: i8,
    pub ref_pic_list0: [VAPictureH264; 32],
    pub ref_pic_list1: [VAPictureH264; 32],
    pub luma_log2_weight_denom: u8,
    pub chroma_log2_weight_denom: u8,
    pub luma_weight_l0_flag: u8,
    pub luma_weight_l0: [i16; 32],
    pub luma_offset_l0: [i16; 32],
    pub chroma_weight_l0_flag: u8,
    pub chroma_weight_l0: [[i16; 2]; 32],
    pub chroma_offset_l0: [[i16; 2]; 32],
    pub luma_weight_l1_flag: u8,
    pub luma_weight_l1: [i16; 32],
    pub luma_offset_l1: [i16; 32],
    pub chroma_weight_l1_flag: u8,
    pub chroma_weight_l1: [[i16; 2]; 32],
    pub chroma_offset_l1: [[i16; 2]; 32],
    pub va_reserved: [u32; 4],
}

/// Pixel layout of an image.
#[derive(Copy, Clone, Debug)]
pub struct VAImageFormat {
    pub fourcc: u32,
    pub byte_order: u32,
    pub bits_per_pixel: u32,
    pub depth: u32,
    pub red_mask: u32,
    pub green_mask: u32,
    pub blue_mask: u32,
    pub alpha_mask: u32,
    pub va_reserved: [u32; 4],
}

impl VAImageFormat {
    /// All fields are zero but the first three.
    pub open spec fn is_plain(self, fourcc: u32, byte_order: u32, bits_per_pixel: u32) -> bool {
        &&& self.fourcc == fourcc
        &&& self.byte_order == byte_order
        &&& self.bits_per_pixel == bits_per_pixel
        &&& self.depth == 0
        &&& self.red_mask == 0
        &&& self.green_mask == 0
        &&& self.blue_mask == 0
        &&& self.alpha_mask == 0
        &&& all_zero(self.va_reserved)
    }
}

/// An image: where its planes lie in the buffer behind it.
#[derive(Copy, Clone, Debug)]
pub struct VAImage {
    pub image_id: VAImageID,
    pub format: VAImageFormat,
    pub buf: VABufferID,
    pub width: u16,
    pub height: u16,
    pub data_size: u32,
    pub num_planes: u32,
    pub pitches: [u32; 3],
    pub offsets: [u32; 3],
    pub num_palette_entries: i32,
    pub entry_bytes: i32,
    pub component_order: [i8; 4],
    pub va_reserved: [u32; 4],
}

impl VAImage {
    /// Every field is zero.
    pub open spec fn is_zeroed(self) -> bool {
        &&& self.image_id == 0
        &&& self.format.is_plain(0, 0, 0)
        &&& self.buf == 0
        &&& self.width == 0
        &&& self.height == 0
        &&& self.data_size == 0
        &&& self.num_planes == 0
        &&& all_zero(self.pitches)
        &&& all_zero(self.offsets)
        &&& self.num_palette_entries == 0
        &&& self.entry_bytes == 0
        &&& forall|i: int| 0 <= i < 4 ==> #[trigger] self.component_order@[i] == 0
        &&& all_zero(self.va_reserved)
    }

    /// An image with every field zero, for a driver to fill in.
    pub fn zeroed() -> (image: Self)
        ensures
            image.is_zeroed(),
    {
        VAImage {
            image_id: 0,
            format: VAImageFormat {
                fourcc: 0,
                byte_order: 0,
                bits_per_pixel: 0,
                depth: 0,
                red_mask: 0,
                green_mask: 0,
                blue_mask: 0,
                alpha_mask: 0,
                va_reserved: [0; 4],
            },
            buf: 0,
            width: 0,
            height: 0,
            data_size: 0,
            num_planes: 0,
            pitches: [0; 3],
            offsets: [0; 3],
            num_palette_entries: 0,
            entry_bytes: 0,
            component_order: [0; 4],
            va_reserved: [0; 4],
        }
    }
}

/// A 32-bit word read as an unsigned number.
pub open spec fn unsigned_word(word: i32) -> nat {
    if word < 0 {
        (word + 0x1_0000_0000) as nat
    } else {
        word as nat
    }
}

/// Read a 32-bit word as an unsigned number.
pub fn to_unsigned(word: i32) -> (number: u32)
    ensures
        number == unsigned_word(word),
{
    let wide: i64 = word as i64;
    if wide < 0 {
        (wide + 0x1_0000_0000) as u32
    } else {
        wide as u32
    }
}

/// The description of a status code: the driver's, or the code itself in
/// hexadecimal when the driver has none.
pub open spec fn status_message(driver_text: Option<Seq<char>>, status: VAStatus) -> Seq<char> {
    match driver_text {
        Some(text) => text,
        None => "VAStatus 0x"@ + numeral(unsigned_word(status), 16),
    }
}

/// The characters of an optional string.
pub open spec fn text_of(text: Option<String>) -> Option<Seq<char>> {
    match text {
        Some(text) => Some(text@),
        None => None,
    }
}

/// Describe a status code, given what `vaErrorStr` returned for it (`None`
/// for the null pointer).
pub fn error_str(driver_text: Option<String>, status: VAStatus) -> (message: String)
    ensures
        message@ == status_message(text_of(driver_text), status),
{
    match driver_text {
        Some(text) => text,
        None => {
            let digits: String = numeral_text(to_unsigned(status) as u64, 16);
            joined("VAStatus 0x", digits.as_str())
        },
    }
}

/// A call that gives back what an owner of VA-API handles holds.
#[derive(Clone, Debug, PartialEq, Eq)]
pub enum Release {
    /// `vaTerminate`.
    Terminate(VADisplay),
    /// Close the file descriptor of the render node.
    CloseNode(i32),
    /// `vaDestroyConfig`.
    DestroyConfig(VAConfigID),
    /// `vaDestroyContext`.
    DestroyContext(VAContextID),
    /// `vaDestroySurfaces`.
    DestroySurfaces(Vec<VASurfaceID>),
}

/// A [`Release`] with its surfaces as a sequence.
#[verifier::ext_equal]
pub enum ReleaseView {
    Terminate(VADisplay),
    CloseNode(i32),
    DestroyConfig(VAConfigID),
    DestroyContext(VAContextID),
    DestroySurfaces(Seq<VASurfaceID>),
}

impl View for Release {
    type V = ReleaseView;

    open spec fn view(&self) -> ReleaseView {
        match self {
            Release::Terminate(dpy) => ReleaseView::Terminate(*dpy),
            Release::CloseNode(fd) => ReleaseView::CloseNode(*fd),
            Release::DestroyConfig(id) => ReleaseView::DestroyConfig(*id),
            Release::DestroyContext(id) => ReleaseView::DestroyContext(*id),
            Release::DestroySurfaces(surfaces) => ReleaseView::DestroySurfaces(surfaces@),
        }
    }
}

/// A sequence of calls that give handles back.
pub open spec fn release_views(releases: Seq<Release>) -> Seq<ReleaseView> {
    releases.map_values(|release: Release| release@)
}

/// What a libva call left behind: its status, and the driver's description
/// of that status.
#[derive(Clone, Debug)]
pub struct CallReply {
    pub status: VAStatus,
    pub driver_text: Option<String>,
}

impl CallReply {
    /// The call succeeded.
    pub open spec fn ok(self) -> bool {
        self.status == VA_STATUS_SUCCESS
    }

    /// The description of the status.
    pub open spec fn message(self) -> Seq<char> {
        status_message(text_of(self.driver_text), self.status)
    }

    /// The error that a failed call amounts to.
    pub open spec fn failure(self) -> VaErrorView {
        VaErrorView::Va { status: self.status, message: self.message() }
    }

    /// The error that a failed call amounts to, its description headed by
    /// `prefix`.
    pub open spec fn failure_as(self, prefix: Seq<char>) -> VaErrorView {
        VaErrorView::Va { status: self.status, message: prefix + self.message() }
    }

    /// `Ok` for a successful call; otherwise the status with its description.
    pub fn check(self) -> (checked: Result<(), VaError>)
        ensures
            match checked {
                Ok(()) => self.ok(),
                Err(error) => !self.ok() && error@ == self.failure(),
            },
    {
        if self.status == VA_STATUS_SUCCESS {
            Ok(())
        } else {
            Err(
                VaError::Va {
                    status: self.status,
                    message: error_str(self.driver_text, self.status),
                },
            )
        }
    }

    /// `Ok` for a successful call; otherwise the status with its description
    /// behind `prefix`.
    pub fn check_as(self, prefix: &str) -> (checked: Result<(), VaError>)
        ensures
            match checked {
                Ok(()) => self.ok(),
                Err(error) => !self.ok() && error@ == self.failure_as(prefix@),
            },
    {
        if self.status == VA_STATUS_SUCCESS {
            Ok(())
        } else {
            let text: String = error_str(self.driver_text, self.status);
            Err(VaError::Va { status: self.status, message: joined(prefix, text.as_str()) })
        }
    }
}

/// The numbers of `va.h`.
pub proof fn law_header_numbers()
    ensures
        VA_INVALID_ID == 0xFFFF_FFFF && VA_INVALID_SURFACE == 0xFFFF_FFFF,
        VA_STATUS_SUCCESS == 0,
        VA_STATUS_ERROR_OPERATION_FAILED == 1,
        VA_STATUS_ERROR_ALLOCATION_FAILED == 2,
        VA_STATUS_ERROR_INVALID_DISPLAY == 3,
        VA_STATUS_ERROR_INVALID_CONFIG == 4,
        VA_STATUS_ERROR_INVALID_CONTEXT == 5,
        VA_STATUS_ERROR_UNSUPPORTED_PROFILE == 12,
        VA_STATUS_ERROR_UNSUPPORTED_ENTRYPOINT == 13,
        VA_STATUS_ERROR_INVALID_PARAMETER == 18,
        VA_STATUS_ERROR_UNIMPLEMENTED == 20,
        VA_STATUS_ERROR_UNKNOWN == -1,
        VA_ATTRIB_NOT_SUPPORTED == 0x8000_0000,
        VA_RT_FORMAT_YUV420 == 1 && VA_RT_FORMAT_YUV422 == 2 && VA_RT_FORMAT_YUV444 == 4,
        VA_RT_FORMAT_YUV400 == 16 && VA_RT_FORMAT_YUV420_10 == 256,
        VA_SLICE_DATA_FLAG_ALL == 0 && VA_SLICE_DATA_FLAG_BEGIN == 1,
        VA_SLICE_DATA_FLAG_MIDDLE == 2 && VA_SLICE_DATA_FLAG_END == 4,
        VA_PICTURE_H264_INVALID == 1 && VA_PICTURE_H264_TOP_FIELD == 2,
        VA_PICTURE_H264_BOTTOM_FIELD == 4 && VA_PICTURE_H264_SHORT_TERM_REFERENCE == 8,
        VA_PICTURE_H264_LONG_TERM_REFERENCE == 16,
        VA_PADDING_LOW == 4 && VA_PADDING_MEDIUM == 8 && VA_PADDING_HIGH == 16,
        entrypoint::VAEntrypointVLD == 1 && entrypoint::VAEntrypointEncSlice == 6,
        entrypoint::VAEntrypointEncSliceLP == 8 && entrypoint::VAEntrypointVideoProc == 10,
        attrib::VAConfigAttribRTFormat == 0 && attrib::VAConfigAttribRateControl == 5,
        attrib::VAConfigAttribDecSliceMode == 6,
        attrib::VAConfigAttribMaxPictureWidth == 18 && attrib::VAConfigAttribMaxPictureHeight == 19,
        buffer_type::VAPictureParameterBufferType == 0 && buffer_type::VAIQMatrixBufferType == 1,
        buffer_type::VASliceParameterBufferType == 4 && buffer_type::VASliceDataBufferType == 5,
{
}

/// A four-character code holds its characters from the low byte up.
pub proof fn law_fourcc_characters()
    ensures
        VA_FOURCC_NV12 == 'N' as int + 256 * ('V' as int) + 65536 * ('1' as int) + 16777216 * (
        '2' as int),
        VA_FOURCC_I420 == 'I' as int + 256 * ('4' as int) + 65536 * ('2' as int) + 16777216 * (
        '0' as int),
        VA_FOURCC_YV12 == 'Y' as int + 256 * ('V' as int) + 65536 * ('1' as int) + 16777216 * (
        '2' as int),
        VA_FOURCC_IYUV == 'I' as int + 256 * ('Y' as int) + 65536 * ('U' as int) + 16777216 * (
        'V' as int),
{
}

/// A word that is read as unsigned keeps its bits.
pub proof fn law_unsigned_words_keep_their_bits(word: i32, number: u32)
    requires
        call_ensures(to_unsigned, (word,), number),
    ensures
        (number - word) % 0x1_0000_0000 == 0,
        word >= 0 ==> number == word,
{
}

/// A call failed exactly when its status is not 0. The error then carries the
/// status, and the driver's text for it or the status in hexadecimal.
pub proof fn law_failed_calls_are_reported(reply: CallReply, checked: Result<(), VaError>)
    requires
        call_ensures(CallReply::check, (reply,), checked),
    ensures
        checked is Ok <==> reply.status == 0,
        checked matches Err(error) ==> error@ == (VaErrorView::Va {
            status: reply.status,
            message: match reply.driver_text {
                Some(text) => text@,
                None => "VAStatus 0x"@ + numeral(
                    (if reply.status < 0 {
                        reply.status + 0x1_0000_0000
                    } else {
                        reply.status as int
                    }) as nat,
                    16,
                ),
            },
        }),
{
}

/// The same, with a heading in front of the text.
pub proof fn law_failed_calls_are_reported_with_heading(
    reply: CallReply,
    heading: &str,
    checked: Result<(), VaError>,
)
    requires
        call_ensures(CallReply::check_as, (reply, heading), checked),
    ensures
        checked is Ok <==> reply.status == 0,
        checked matches Err(error) ==> error@ == (VaErrorView::Va {
            status: reply.status,
            message: heading@ + match reply.driver_text {
                Some(text) => text@,
                None => "VAStatus 0x"@ + numeral(
                    (if reply.status < 0 {
                        reply.status + 0x1_0000_0000
                    } else {
                        reply.status as int
                    }) as nat,
                    16,
                ),
            },
        }),
{
}

/// The fillers: a picture without a surface (0xFFFF_FFFF) that is flagged
/// invalid (1), matrices of 16 throughout, and an image of zeros.
pub proof fn law_fillers(
    picture: VAPictureH264,
    matrices: VAIQMatrixBufferH264,
    image: VAImage,
    list: int,
    i: int,
)
    requires
        call_ensures(VAPictureH264::invalid, (), picture),
        call_ensures(VAIQMatrixBufferH264::flat, (), matrices),
        call_ensures(VAImage::zeroed, (), image),
    ensures
        picture.picture_id == 0xFFFF_FFFF && picture.flags == 1 && picture.frame_idx == 0,
        picture.top_field_order_cnt == 0 && picture.bottom_field_order_cnt == 0,
        0 <= list < 6 && 0 <= i < 16 ==> matrices.scaling_list_4x4@[list]@[i] == 16,
        0 <= list < 2 && 0 <= i < 64 ==> matrices.scaling_list_8x8@[list]@[i] == 16,
        image.image_id == 0 && image.buf == 0 && image.data_size == 0 && image.num_planes == 0,
        image.width == 0 && image.height == 0,
        0 <= i < 3 ==> image.pitches@[i] == 0 && image.offsets@[i] == 0,
        image.format.fourcc == 0 && image.format.byte_order == 0 && image.format.bits_per_pixel
            == 0,
{
}

/// A status is described by the driver's text, or in hexadecimal.
pub proof fn law_statuses_are_described(
    driver_text: Option<String>,
    status: VAStatus,
    message: String,
)
    requires
        call_ensures(error_str, (driver_text, status), message),
    ensures
        driver_text matches Some(text) ==> message@ == text@,
        driver_text is None && status >= 0 ==> message@ == "VAStatus 0x"@ + numeral(
            status as nat,
            16,
        ),
        driver_text is None && status < 0 ==> message@ == "VAStatus 0x"@ + numeral(
            (status + 0x1_0000_0000) as nat,
            16,
        ),
{
}

} // verus!
