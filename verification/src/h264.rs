//! H.264 parameter sets and slice headers, reduced to the syntax elements
//! that the VA-API parameter buffers and the slice-header walk consult.

use vstd::prelude::*;

verus! {

/// NAL unit type of a coded slice of a non-IDR picture.
pub const NAL_TYPE_NON_IDR_SLICE: u8 = 1;

/// NAL unit type of a coded slice of an IDR picture.
pub const NAL_TYPE_IDR: u8 = 5;

/// NAL unit type of a sequence parameter set.
pub const NAL_TYPE_SPS: u8 = 7;

/// NAL unit type of a picture parameter set.
pub const NAL_TYPE_PPS: u8 = 8;

/// The four `frame_crop_*_offset` syntax elements, as coded.
#[derive(Clone, Copy, Debug)]
pub struct H264FrameCropping {
    pub left: u32,
    pub right: u32,
    pub top: u32,
    pub bottom: u32,
}

/// Sequence parameter set (7.3.2.1.1).
#[derive(Clone, Copy, Debug)]
pub struct H264Sps {
    pub level_idc: u8,
    pub chroma_format_idc: u8,
    pub separate_colour_plane_flag: bool,
    pub bit_depth_luma_minus8: u8,
    pub bit_depth_chroma_minus8: u8,
    pub log2_max_frame_num_minus4: u8,
    pub pic_order_cnt_type: u8,
    pub log2_max_pic_order_cnt_lsb_minus4: u8,
    pub delta_pic_order_always_zero_flag: bool,
    pub max_num_ref_frames: u32,
    pub gaps_in_frame_num_value_allowed_flag: bool,
    pub pic_width_in_mbs_minus1: u32,
    pub pic_height_in_map_units_minus1: u32,
    pub frame_mbs_only_flag: bool,
    pub mb_adaptive_frame_field_flag: bool,
    pub direct_8x8_inference_flag: bool,
    pub frame_cropping: Option<H264FrameCropping>,
}

/// Picture parameter set (7.3.2.2).
#[derive(Clone, Copy, Debug)]
pub struct H264Pps {
    pub entropy_coding_mode_flag: bool,
    pub bottom_field_pic_order_in_frame_present_flag: bool,
    pub num_ref_idx_l0_default_active_minus1: u8,
    pub num_ref_idx_l1_default_active_minus1: u8,
    pub weighted_pred_flag: bool,
    pub weighted_bipred_idc: u8,
    pub pic_init_qp_minus26: i32,
    pub pic_init_qs_minus26: i32,
    pub chroma_qp_index_offset: i32,
    pub deblocking_filter_control_present_flag: bool,
    pub constrained_intra_pred_flag: bool,
    pub redundant_pic_cnt_present_flag: bool,
    pub transform_8x8_mode_flag: bool,
    pub second_chroma_qp_index_offset: i32,
}

/// The leading slice-header syntax elements (7.3.3).
#[derive(Clone, Copy, Debug)]
pub struct H264SliceHeader {
    pub first_mb_in_slice: u32,
    /// `slice_type` as coded, 0 to 9.
    pub slice_type: u8,
    pub frame_num: u32,
    pub field_pic_flag: bool,
}

impl H264Sps {
    /// The widths of the `frame_num` and `pic_order_cnt_lsb` codes are at
    /// most 32 bits, so that each can be read as one fixed-length code.
    pub open spec fn code_widths_readable(self) -> bool {
        &&& self.log2_max_frame_num_minus4 <= 28
        &&& self.pic_order_cnt_type == 0 ==> self.log2_max_pic_order_cnt_lsb_minus4 <= 28
    }

    /// Whether `frame_num` and `pic_order_cnt_lsb` can each be read as one
    /// fixed-length code.
    pub fn has_readable_code_widths(&self) -> (readable: bool)
        ensures
            readable == self.code_widths_readable(),
    {
        self.log2_max_frame_num_minus4 <= 28 && (self.pic_order_cnt_type != 0
            || self.log2_max_pic_order_cnt_lsb_minus4 <= 28)
    }
}

impl H264Sps {
    /// The samples are not split into subsampled chroma planes.
    pub open spec fn is_monochrome_or_planar(self) -> bool {
        self.chroma_format_idc == 0 || self.separate_colour_plane_flag
    }

    /// Luma columns per unit of horizontal cropping (7.4.2.1.1).
    pub open spec fn crop_unit_x(self) -> nat {
        if !self.is_monochrome_or_planar() && (self.chroma_format_idc == 1
            || self.chroma_format_idc == 2) {
            2
        } else {
            1
        }
    }

    /// Fields per frame that the map units count: a frame of macroblock
    /// pairs or fields has two.
    pub open spec fn fields_per_map_unit(self) -> nat {
        if self.frame_mbs_only_flag {
            1
        } else {
            2
        }
    }

    /// Luma rows per unit of vertical cropping (7.4.2.1.1).
    pub open spec fn crop_unit_y(self) -> nat {
        if !self.is_monochrome_or_planar() && self.chroma_format_idc == 1 {
            2 * self.fields_per_map_unit()
        } else {
            self.fields_per_map_unit()
        }
    }

    /// Width in luma samples: whole macroblocks.
    pub open spec fn coded_columns(self) -> nat {
        (self.pic_width_in_mbs_minus1 as nat + 1) * 16
    }

    /// Height in luma samples: whole macroblocks.
    pub open spec fn coded_rows(self) -> nat {
        (self.pic_height_in_map_units_minus1 as nat + 1) * 16 * self.fields_per_map_unit()
    }

    /// Luma columns that cropping takes off.
    pub open spec fn cropped_columns(self) -> nat {
        match self.frame_cropping {
            Some(crop) => (crop.left as nat + crop.right as nat) * self.crop_unit_x(),
            None => 0,
        }
    }

    /// Luma rows that cropping takes off.
    pub open spec fn cropped_rows(self) -> nat {
        match self.frame_cropping {
            Some(crop) => (crop.top as nat + crop.bottom as nat) * self.crop_unit_y(),
            None => 0,
        }
    }

    /// Width after cropping; 0 where cropping takes off more than there is.
    pub open spec fn display_columns(self) -> nat {
        if self.cropped_columns() <= self.coded_columns() {
            (self.coded_columns() - self.cropped_columns()) as nat
        } else {
            0
        }
    }

    /// Height after cropping; 0 where cropping takes off more than there is.
    pub open spec fn display_rows(self) -> nat {
        if self.cropped_rows() <= self.coded_rows() {
            (self.coded_rows() - self.cropped_rows()) as nat
        } else {
            0
        }
    }

    /// The dimensions and the cropped amounts fit in 32 bits.
    pub open spec fn dimensions_fit(self) -> bool {
        &&& self.coded_columns() <= u32::MAX
        &&& self.coded_rows() <= u32::MAX
        &&& self.cropped_columns() <= u32::MAX
        &&& self.cropped_rows() <= u32::MAX
    }

    fn wide_coded_width(&self) -> (width: u64)
        ensures
            width == self.coded_columns(),
            width <= 0x10_0000_0000,
    {
        (self.pic_width_in_mbs_minus1 as u64 + 1) * 16
    }

    fn wide_coded_height(&self) -> (height: u64)
        ensures
            height == self.coded_rows(),
            height <= 0x20_0000_0000,
    {
        let field_rows: u64 = (self.pic_height_in_map_units_minus1 as u64 + 1) * 16;
        if self.frame_mbs_only_flag {
            field_rows
        } else {
            field_rows * 2
        }
    }

    fn wide_cropped_width(&self) -> (columns: u64)
        ensures
            columns == self.cropped_columns(),
    {
        match self.frame_cropping {
            Some(crop) => {
                let units: u64 = crop.left as u64 + crop.right as u64;
                if self.chroma_format_idc != 0 && !self.separate_colour_plane_flag && (
                self.chroma_format_idc == 1 || self.chroma_format_idc == 2) {
                    units * 2
                } else {
                    units
                }
            },
            None => 0,
        }
    }

    fn wide_cropped_height(&self) -> (rows: u64)
        ensures
            rows == self.cropped_rows(),
    {
        match self.frame_cropping {
            Some(crop) => {
                let units: u64 = crop.top as u64 + crop.bottom as u64;
                let fields: u64 = if self.frame_mbs_only_flag {
                    1
                } else {
                    2
                };
                assert(units * fields <= 0x4_0000_0000) by (nonlinear_arith)
                    requires
                        units <= 0x2_0000_0000,
                        fields <= 2,
                ;
                if !self.separate_colour_plane_flag && self.chroma_format_idc == 1 {
                    assert(units * (2 * fields) == 2 * (units * fields)) by (nonlinear_arith);
                    units * fields * 2
                } else {
                    units * fields
                }
            },
            None => 0,
        }
    }

    /// Whether every dimension fits in 32 bits.
    pub fn has_fitting_dimensions(&self) -> (fits: bool)
        ensures
            fits == self.dimensions_fit(),
    {
        self.wide_coded_width() <= 0xFFFF_FFFF && self.wide_coded_height() <= 0xFFFF_FFFF
            && self.wide_cropped_width() <= 0xFFFF_FFFF && self.wide_cropped_height()
            <= 0xFFFF_FFFF
    }

    /// Coded width in luma samples.
    pub fn coded_width(&self) -> (width: u32)
        requires
            self.dimensions_fit(),
        ensures
            width == self.coded_columns(),
    {
        self.wide_coded_width() as u32
    }

    /// Coded height in luma samples.
    pub fn coded_height(&self) -> (height: u32)
        requires
            self.dimensions_fit(),
        ensures
            height == self.coded_rows(),
    {
        self.wide_coded_height() as u32
    }

    /// Width in luma samples after cropping.
    pub fn display_width(&self) -> (width: u32)
        requires
            self.dimensions_fit(),
        ensures
            width == self.display_columns(),
    {
        let coded: u64 = self.wide_coded_width();
        let cropped: u64 = self.wide_cropped_width();
        if cropped <= coded {
            (coded - cropped) as u32
        } else {
            0
        }
    }

    /// Height in luma samples after cropping.
    pub fn display_height(&self) -> (height: u32)
        requires
            self.dimensions_fit(),
        ensures
            height == self.display_rows(),
    {
        let coded: u64 = self.wide_coded_height();
        let cropped: u64 = self.wide_cropped_height();
        if cropped <= coded {
            (coded - cropped) as u32
        } else {
            0
        }
    }
}

/// The display rectangle lies inside the coded picture, whose sides are whole
/// macroblocks.
pub proof fn law_display_within_coded(sps: H264Sps)
    ensures
        sps.display_columns() <= sps.coded_columns(),
        sps.display_rows() <= sps.coded_rows(),
        sps.coded_columns() >= 16,
        sps.coded_columns() % 16 == 0,
        sps.coded_rows() >= 16,
        sps.coded_rows() % 16 == 0,
{
    let units = sps.pic_height_in_map_units_minus1 as nat + 1;
    let fields = sps.fields_per_map_unit();
    assert(units * 16 * fields == units * fields * 16) by (nonlinear_arith);
    assert(units * fields >= 1) by (nonlinear_arith)
        requires
            units >= 1,
            fields >= 1,
    ;
}

/// The sizes of a picture in luma samples. The coded size is counted in
/// macroblocks of 16, and in pairs of rows where fields are possible. Cropping
/// takes off whole chroma samples: pairs of columns for 4:2:0 and 4:2:2, pairs
/// of rows for 4:2:0, and twice as many rows where fields are possible. Where
/// more is taken off than there is, nothing is left.
pub proof fn law_picture_sizes(
    sps: &H264Sps,
    coded_width: u32,
    coded_height: u32,
    display_width: u32,
    display_height: u32,
)
    requires
        call_ensures(H264Sps::coded_width, (sps,), coded_width),
        call_ensures(H264Sps::coded_height, (sps,), coded_height),
        call_ensures(H264Sps::display_width, (sps,), display_width),
        call_ensures(H264Sps::display_height, (sps,), display_height),
    ensures
        coded_width == 16 * sps.pic_width_in_mbs_minus1 + 16,
        sps.frame_mbs_only_flag ==> coded_height == 16 * sps.pic_height_in_map_units_minus1 + 16,
        !sps.frame_mbs_only_flag ==> coded_height == 32 * sps.pic_height_in_map_units_minus1 + 32,
        sps.frame_cropping is None ==> display_width == coded_width && display_height
            == coded_height,
        sps.frame_cropping matches Some(crop) ==> {
            let columns: int = if !sps.separate_colour_plane_flag && (sps.chroma_format_idc == 1
                || sps.chroma_format_idc == 2) {
                2 * crop.left + 2 * crop.right
            } else {
                crop.left + crop.right
            };
            let lines: int = if !sps.separate_colour_plane_flag && sps.chroma_format_idc == 1 {
                2 * crop.top + 2 * crop.bottom
            } else {
                crop.top + crop.bottom
            };
            let rows: int = if sps.frame_mbs_only_flag {
                lines
            } else {
                2 * lines
            };
            &&& columns <= coded_width ==> display_width + columns == coded_width
            &&& columns > coded_width ==> display_width == 0
            &&& rows <= coded_height ==> display_height + rows == coded_height
            &&& rows > coded_height ==> display_height == 0
        },
{
    let fields = sps.fields_per_map_unit() as int;
    let units = (sps.pic_height_in_map_units_minus1 + 1) as int;
    assert(units * 16 * 1 == 16 * units && units * 16 * 2 == 32 * units);
    if let Some(crop) = sps.frame_cropping {
        let across = (crop.left + crop.right) as int;
        let down = (crop.top + crop.bottom) as int;
        assert(across * 1 == across && across * 2 == 2 * across);
        assert(down * 1 == down && down * 2 == 2 * down && down * 4 == 4 * down);
        assert(fields == 1 || fields == 2);
        assert(down * (2 * 1) == 2 * down && down * (2 * 2) == 4 * down);
    }
}

/// A picture's sizes can be given exactly when none of the four is 2^32 or
/// more, and a slice header can be read exactly when its two fixed-length
/// codes have 32 bits at most.
pub proof fn law_limits_of_parameter_sets(sps: &H264Sps, fits: bool, readable: bool)
    requires
        call_ensures(H264Sps::has_fitting_dimensions, (sps,), fits),
        call_ensures(H264Sps::has_readable_code_widths, (sps,), readable),
    ensures
        readable <==> sps.log2_max_frame_num_minus4 + 4 <= 32 && (sps.pic_order_cnt_type == 0
            ==> sps.log2_max_pic_order_cnt_lsb_minus4 + 4 <= 32),
        fits <==> {
            let twice: int = if sps.frame_mbs_only_flag {
                1
            } else {
                2
            };
            &&& 16 * sps.pic_width_in_mbs_minus1 + 16 < 0x1_0000_0000
            &&& (16 * sps.pic_height_in_map_units_minus1 + 16) * twice < 0x1_0000_0000
            &&& sps.frame_cropping matches Some(crop) ==> {
                let planar = sps.separate_colour_plane_flag;
                &&& (crop.left + crop.right) * (if !planar && (sps.chroma_format_idc == 1
                    || sps.chroma_format_idc == 2) {
                    2int
                } else {
                    1
                }) < 0x1_0000_0000
                &&& (crop.top + crop.bottom) * (if !planar && sps.chroma_format_idc == 1 {
                    2int
                } else {
                    1
                }) * twice < 0x1_0000_0000
            }
        },
{
    let units = (sps.pic_height_in_map_units_minus1 + 1) as int;
    assert(units * 16 * 1 == 16 * units && units * 16 * 2 == 32 * units);
    if let Some(crop) = sps.frame_cropping {
        let down = (crop.top + crop.bottom) as int;
        assert(down * (2 * 1) == 2 * down && down * (2 * 2) == 4 * down) by (nonlinear_arith);
        assert(down * 2 * 1 == 2 * down && down * 2 * 2 == 4 * down && down * 1 * 2 == 2 * down);
    }
}

/// The numbers of the NAL unit types (7.4.1).
pub proof fn law_nal_unit_type_numbers()
    ensures
        NAL_TYPE_NON_IDR_SLICE == 1 && NAL_TYPE_IDR == 5 && NAL_TYPE_SPS == 7 && NAL_TYPE_PPS == 8,
{
}

} // verus!
