//! Sample planes: copying rectangles out of pitched memory, and splitting an
//! NV12 image into I420 planes.

use vstd::arithmetic::div_mod::lemma_fundamental_div_mod_converse;
use vstd::prelude::*;

use crate::sys::VAImage;

verus! {

/// A decoded frame in I420 layout.
#[derive(Debug, Clone)]
pub struct DecodedFrame {
    pub width: u32,
    pub height: u32,
    /// Luma, `width * height` bytes, row by row.
    pub y: Vec<u8>,
    /// First chroma plane, `(width / 2) * (height / 2)` bytes, row by row.
    pub u: Vec<u8>,
    /// Second chroma plane, laid out as the first.
    pub v: Vec<u8>,
}

/// A [`DecodedFrame`] with its planes as sequences.
#[verifier::ext_equal]
pub struct FrameView {
    pub width: u32,
    pub height: u32,
    pub y: Seq<u8>,
    pub u: Seq<u8>,
    pub v: Seq<u8>,
}

impl View for DecodedFrame {
    type V = FrameView;

    open spec fn view(&self) -> FrameView {
        FrameView {
            width: self.width,
            height: self.height,
            y: self.y@,
            u: self.u@,
            v: self.v@,
        }
    }
}

impl FrameView {
    /// The planes have the sizes that the dimensions call for.
    pub open spec fn wf(self) -> bool {
        let half: nat = (self.width as nat / 2) * (self.height as nat / 2);
        &&& self.y.len() == self.width as nat * self.height as nat
        &&& self.u.len() == half
        &&& self.v.len() == half
    }
}

/// The `width x height` samples whose first lies at `offset`, whose columns
/// lie `step` bytes and whose rows lie `pitch` bytes apart, row by row.
pub open spec fn plane(
    data: Seq<u8>,
    offset: nat,
    pitch: nat,
    step: nat,
    width: nat,
    height: nat,
) -> Seq<u8> {
    Seq::new(
        width * height,
        |i: int| data[offset + (i / width as int) * pitch + (i % width as int) * step],
    )
}

/// Every sample of such a plane lies within `len` bytes.
pub open spec fn plane_fits(
    len: nat,
    offset: nat,
    pitch: nat,
    step: nat,
    width: nat,
    height: nat,
) -> bool {
    width > 0 && height > 0 ==> offset + (height - 1) * pitch + (width - 1) * step < len
}

/// Sample (`row`, `col`) of a plane.
pub proof fn lemma_plane_sample(
    data: Seq<u8>,
    offset: nat,
    pitch: nat,
    step: nat,
    width: nat,
    height: nat,
    row: nat,
    col: nat,
)
    requires
        row < height,
        col < width,
    ensures
        row * width + col < width * height,
        plane(data, offset, pitch, step, width, height)[(row * width + col) as int] == data[(offset
            + row * pitch + col * step) as int],
{
    assert(row * width + col < width * height) by (nonlinear_arith)
        requires
            row < height,
            col < width,
    ;
    lemma_fundamental_div_mod_converse(
        (row * width + col) as int,
        width as int,
        row as int,
        col as int,
    );
}

/// Whether every sample of a plane lies within `len` bytes.
pub fn check_plane_fits(
    len: usize,
    offset: usize,
    pitch: usize,
    step: usize,
    width: usize,
    height: usize,
) -> (fits: bool)
    ensures
        fits == plane_fits(
            len as nat,
            offset as nat,
            pitch as nat,
            step as nat,
            width as nat,
            height as nat,
        ),
{
    if width == 0 || height == 0 {
        return true;
    }
    assert(0 <= (height - 1) * pitch <= u128::MAX) by (nonlinear_arith)
        requires
            1 <= height <= 0xFFFF_FFFF_FFFF_FFFF,
            pitch <= 0xFFFF_FFFF_FFFF_FFFF,
    ;
    assert(0 <= (width - 1) * step <= u128::MAX) by (nonlinear_arith)
        requires
            1 <= width <= 0xFFFF_FFFF_FFFF_FFFF,
            step <= 0xFFFF_FFFF_FFFF_FFFF,
    ;
    let rows: u128 = (height - 1) as u128 * pitch as u128;
    let columns: u128 = (width - 1) as u128 * step as u128;
    rows < len as u128 && columns < len as u128 && offset as u128 + rows + columns < len as u128
}

/// Copy one plane out of pitched memory.
pub fn copy_plane(
    data: &[u8],
    offset: usize,
    pitch: usize,
    step: usize,
    width: usize,
    height: usize,
) -> (samples: Vec<u8>)
    requires
        width * height <= isize::MAX,
        plane_fits(
            data@.len(),
            offset as nat,
            pitch as nat,
            step as nat,
            width as nat,
            height as nat,
        ),
    ensures
        samples@ == plane(
            data@,
            offset as nat,
            pitch as nat,
            step as nat,
            width as nat,
            height as nat,
        ),
{
    let mut samples: Vec<u8> = Vec::new();
    let ghost whole = plane(
        data@,
        offset as nat,
        pitch as nat,
        step as nat,
        width as nat,
        height as nat,
    );
    if width == 0 {
        assert(width * height == 0) by (nonlinear_arith)
            requires
                width == 0,
        ;
        assert(samples@ =~= whole);
        return samples;
    }
    let len: usize = data.len();
    let mut row: usize = 0;
    while row < height
        invariant
            width > 0,
            len == data@.len(),
            row <= height,
            plane_fits(
                data@.len(),
                offset as nat,
                pitch as nat,
                step as nat,
                width as nat,
                height as nat,
            ),
            whole == plane(
                data@,
                offset as nat,
                pitch as nat,
                step as nat,
                width as nat,
                height as nat,
            ),
            row * width <= width * height,
            samples@ == whole.take(row * width),
        decreases height - row,
    {
        assert(0 <= row * pitch <= (height - 1) * pitch) by (nonlinear_arith)
            requires
                0 <= row <= height - 1,
                pitch >= 0,
        ;
        assert((width - 1) * step >= 0) by (nonlinear_arith)
            requires
                width >= 1,
                step >= 0,
        ;
        let start: usize = offset + row * pitch;
        let mut col: usize = 0;
        while col < width
            invariant
                row < height,
                col <= width,
                len == data@.len(),
                start == offset + row * pitch,
                start + (width - 1) * step < data@.len(),
                whole == plane(
                    data@,
                    offset as nat,
                    pitch as nat,
                    step as nat,
                    width as nat,
                    height as nat,
                ),
                row * width + col <= width * height,
                samples@ == whole.take(row * width + col),
            decreases width - col,
        {
            assert(0 <= col * step <= (width - 1) * step) by (nonlinear_arith)
                requires
                    0 <= col <= width - 1,
                    step >= 0,
            ;
            proof {
                lemma_plane_sample(
                    data@,
                    offset as nat,
                    pitch as nat,
                    step as nat,
                    width as nat,
                    height as nat,
                    row as nat,
                    col as nat,
                );
            }
            samples.push(data[start + col * step]);
            assert(whole.take(row * width + col + 1) =~= whole.take(row * width + col).push(
                whole[row * width + col],
            ));
            col += 1;
        }
        assert((row + 1) * width == row * width + width) by (nonlinear_arith);
        row += 1;
    }
    assert(height * width == width * height) by (nonlinear_arith);
    assert(whole.take(height * width) =~= whole);
    samples
}

/// A plane of `len` samples in rows of `src_w` holds its upper left
/// `dst_w x dst_h`, and their copy can be allocated.
pub open spec fn crop_fits(len: nat, src_w: nat, dst_w: nat, dst_h: nat) -> bool {
    &&& dst_w * dst_h <= isize::MAX
    &&& dst_h > 0 ==> (dst_h - 1) * src_w + dst_w <= len
}

/// Cut the upper left `dst_w x dst_h` samples out of a plane of `src_w`
/// columns. The number of rows of the source makes no difference.
pub fn crop_plane(src: &[u8], src_w: usize, src_h: usize, dst_w: usize, dst_h: usize) -> (samples:
    Vec<u8>)
    requires
        crop_fits(src@.len(), src_w as nat, dst_w as nat, dst_h as nat),
    ensures
        samples@ == plane(src@, 0, src_w as nat, 1, dst_w as nat, dst_h as nat),
{
    let _ = src_h;
    copy_plane(src, 0, src_w, 1, dst_w, dst_h)
}

/// Whether [`crop_plane`] can cut `dst_w x dst_h` samples out of `len` bytes.
pub fn check_crop_fits(len: usize, src_w: usize, dst_w: usize, dst_h: usize) -> (fits: bool)
    ensures
        fits == crop_fits(len as nat, src_w as nat, dst_w as nat, dst_h as nat),
{
    assert(dst_w * dst_h <= u128::MAX) by (nonlinear_arith)
        requires
            dst_w <= 0xFFFF_FFFF_FFFF_FFFF,
            dst_h <= 0xFFFF_FFFF_FFFF_FFFF,
    ;
    let area: u128 = dst_w as u128 * dst_h as u128;
    if area > isize::MAX as u128 {
        return false;
    }
    if dst_h == 0 {
        return true;
    }
    assert(0 <= (dst_h - 1) * src_w <= 0xFFFF_FFFF_FFFF_FFFF * 0xFFFF_FFFF_FFFF_FFFF)
        by (nonlinear_arith)
        requires
            1 <= dst_h <= 0xFFFF_FFFF_FFFF_FFFF,
            src_w <= 0xFFFF_FFFF_FFFF_FFFF,
    ;
    (dst_h - 1) as u128 * src_w as u128 + dst_w as u128 <= len as u128
}

/// The luma plane and the interleaved chroma plane of an NV12 image lie
/// within `len` bytes, and a luma plane can be allocated.
pub open spec fn nv12_fits(image: VAImage, len: nat) -> bool {
    let half_w: nat = image.width as nat / 2;
    let half_h: nat = image.height as nat / 2;
    &&& image.width as nat * image.height as nat <= isize::MAX
    &&& plane_fits(
        len,
        image.offsets@[0] as nat,
        image.pitches@[0] as nat,
        1,
        image.width as nat,
        image.height as nat,
    )
    &&& plane_fits(len, image.offsets@[1] as nat + 1, image.pitches@[1] as nat, 2, half_w, half_h)
}

/// Whether the planes of an NV12 image lie within `len` bytes, and a luma
/// plane can be allocated.
pub fn check_nv12_fits(image: &VAImage, len: usize) -> (fits: bool)
    ensures
        fits == nv12_fits(*image, len as nat),
{
    assert(image.width * image.height <= 0xFFFF * 0xFFFF) by (nonlinear_arith)
        requires
            image.width <= 0xFFFF,
            image.height <= 0xFFFF,
    ;
    if image.width as u64 * image.height as u64 > isize::MAX as u64 {
        return false;
    }
    let half_w: usize = (image.width / 2) as usize;
    let half_h: usize = (image.height / 2) as usize;
    let luma: bool = check_plane_fits(
        len,
        image.offsets[0] as usize,
        image.pitches[0] as usize,
        1,
        image.width as usize,
        image.height as usize,
    );
    if len == 0 {
        return luma && (half_w == 0 || half_h == 0);
    }
    luma && check_plane_fits(
        len - 1,
        image.offsets[1] as usize,
        image.pitches[1] as usize,
        2,
        half_w,
        half_h,
    )
}

/// The samples of an NV12 image: the luma plane without the padding of its
/// rows, and the two halves of the chroma pairs.
pub open spec fn i420_of(data: Seq<u8>, image: VAImage) -> FrameView {
    let half_w: nat = image.width as nat / 2;
    let half_h: nat = image.height as nat / 2;
    let chroma = image.offsets@[1] as nat;
    let chroma_pitch = image.pitches@[1] as nat;
    FrameView {
        width: image.width as u32,
        height: image.height as u32,
        y: plane(
            data,
            image.offsets@[0] as nat,
            image.pitches@[0] as nat,
            1,
            image.width as nat,
            image.height as nat,
        ),
        u: plane(data, chroma, chroma_pitch, 2, half_w, half_h),
        v: plane(data, chroma + 1, chroma_pitch, 2, half_w, half_h),
    }
}

/// Split the NV12 image in `data` into I420 planes.
pub fn copy_nv12_image_to_i420(data: &[u8], image: &VAImage) -> (frame: DecodedFrame)
    requires
        nv12_fits(*image, data@.len()),
    ensures
        frame@ == i420_of(data@, *image),
        frame@.wf(),
{
    let w: usize = image.width as usize;
    let h: usize = image.height as usize;
    let half_w: usize = w / 2;
    let half_h: usize = h / 2;
    assert(half_w * half_h <= w * h) by (nonlinear_arith)
        requires
            half_w <= w,
            half_h <= h,
    ;
    let y: Vec<u8> = copy_plane(data, image.offsets[0] as usize, image.pitches[0] as usize, 1, w, h);
    let u: Vec<u8> = copy_plane(
        data,
        image.offsets[1] as usize,
        image.pitches[1] as usize,
        2,
        half_w,
        half_h,
    );
    let v: Vec<u8> = if half_w == 0 || half_h == 0 {
        let none: Vec<u8> = Vec::new();
        assert(half_w * half_h == 0) by (nonlinear_arith)
            requires
                half_w == 0 || half_h == 0,
        ;
        assert(none@ =~= plane(
            data@,
            image.offsets@[1] as nat + 1,
            image.pitches@[1] as nat,
            2,
            half_w as nat,
            half_h as nat,
        ));
        none
    } else {
        let pitch: usize = image.pitches[1] as usize;
        let len: usize = data.len();
        assert((half_h - 1) * pitch >= 0) by (nonlinear_arith)
            requires
                half_h >= 1,
        ;
        assert(image.offsets@[1] + 1 < len);
        copy_plane(data, image.offsets[1] as usize + 1, pitch, 2, half_w, half_h)
    };
    DecodedFrame { width: image.width as u32, height: image.height as u32, y, u, v }
}

/// Cropping a copied plane copies a smaller rectangle.
pub proof fn law_crop_of_copy(
    data: Seq<u8>,
    offset: nat,
    pitch: nat,
    width: nat,
    height: nat,
    dst_w: nat,
    dst_h: nat,
)
    requires
        dst_w <= width,
        dst_h <= height,
    ensures
        plane(plane(data, offset, pitch, 1, width, height), 0, width, 1, dst_w, dst_h) == plane(
            data,
            offset,
            pitch,
            1,
            dst_w,
            dst_h,
        ),
{
    let copied = plane(data, offset, pitch, 1, width, height);
    let cropped = plane(copied, 0, width, 1, dst_w, dst_h);
    let direct = plane(data, offset, pitch, 1, dst_w, dst_h);
    assert forall|i: int| 0 <= i < dst_w * dst_h implies cropped[i] == direct[i] by {
        let row = i / dst_w as int;
        let col = i % dst_w as int;
        assert(0 <= row < dst_h && 0 <= col < dst_w) by (nonlinear_arith)
            requires
                0 <= i < dst_w * dst_h,
                row == i / dst_w as int,
                col == i % dst_w as int,
        ;
        lemma_plane_sample(data, offset, pitch, 1, width, height, row as nat, col as nat);
    }
    assert(cropped =~= direct);
}

/// Cropping a plane to its own size changes nothing.
pub proof fn law_crop_to_full_size(samples: Seq<u8>, width: nat, height: nat)
    requires
        samples.len() == width * height,
    ensures
        plane(samples, 0, width, 1, width, height) == samples,
{
    assert forall|i: int| 0 <= i < width * height implies plane(
        samples,
        0,
        width,
        1,
        width,
        height,
    )[i] == samples[i] by {
        assert(i == (i / width as int) * width + i % width as int) by (nonlinear_arith)
            requires
                0 <= i < width * height,
        ;
    }
    assert(plane(samples, 0, width, 1, width, height) =~= samples);
}

/// Splitting an NV12 image loses no sample: luma and chroma come back from
/// the I420 planes, byte for byte.
pub proof fn law_nv12_split_is_lossless(
    frame: DecodedFrame,
    data: Seq<u8>,
    image: VAImage,
    row: nat,
    col: nat,
)
    requires
        frame@ == i420_of(data, image),
    ensures
        row < image.height && col < image.width ==> data[(image.offsets@[0] + row * image.pitches@[0]
            + col) as int] == frame.y@[(row * image.width as nat + col) as int],
        row < image.height / 2 && col < image.width / 2 ==> {
            let pair = image.offsets@[1] + row * image.pitches@[1] + 2 * col;
            let sample = (row * (image.width as nat / 2) + col) as int;
            &&& data[pair as int] == frame.u@[sample]
            &&& data[pair as int + 1] == frame.v@[sample]
        },
{
    let half_w: nat = image.width as nat / 2;
    let half_h: nat = image.height as nat / 2;
    let chroma = image.offsets@[1] as nat;
    let chroma_pitch = image.pitches@[1] as nat;
    if row < image.height && col < image.width {
        lemma_plane_sample(
            data,
            image.offsets@[0] as nat,
            image.pitches@[0] as nat,
            1,
            image.width as nat,
            image.height as nat,
            row,
            col,
        );
    }
    if row < half_h && col < half_w {
        lemma_plane_sample(data, chroma, chroma_pitch, 2, half_w, half_h, row, col);
        lemma_plane_sample(data, chroma + 1, chroma_pitch, 2, half_w, half_h, row, col);
    }
}

/// A plane that was copied has one byte for each sample: row for row, the one
/// that lies `pitch` bytes per row and `step` bytes per column behind the
/// offset.
pub proof fn law_copied_planes_hold_the_samples(
    data: &[u8],
    offset: usize,
    pitch: usize,
    step: usize,
    width: usize,
    height: usize,
    samples: Vec<u8>,
    row: nat,
    col: nat,
)
    requires
        call_ensures(copy_plane, (data, offset, pitch, step, width, height), samples),
    ensures
        samples@.len() == width * height,
        row < height && col < width ==> samples@[(row * width as nat + col) as int] == data@[(offset
            + row * pitch + col * step) as int],
{
    if row < height && col < width {
        lemma_plane_sample(
            data@,
            offset as nat,
            pitch as nat,
            step as nat,
            width as nat,
            height as nat,
            row,
            col,
        );
    }
}

/// A plane that was cropped holds the samples of the upper left corner, at
/// the same rows and columns.
pub proof fn law_cropped_planes_hold_the_corner(
    src: &[u8],
    src_w: usize,
    src_h: usize,
    dst_w: usize,
    dst_h: usize,
    samples: Vec<u8>,
    row: nat,
    col: nat,
)
    requires
        call_ensures(crop_plane, (src, src_w, src_h, dst_w, dst_h), samples),
    ensures
        samples@.len() == dst_w * dst_h,
        row < dst_h && col < dst_w ==> samples@[(row * dst_w as nat + col) as int] == src@[(row
            * src_w as nat + col) as int],
{
    if row < dst_h && col < dst_w {
        lemma_plane_sample(src@, 0, src_w as nat, 1, dst_w as nat, dst_h as nat, row, col);
    }
}

/// A frame that was split off an NV12 image has the image's dimensions. Its
/// luma samples lie byte by byte in the first plane, and its chroma samples
/// side by side in the second, the first plane's first.
pub proof fn law_split_frames_hold_the_image(
    data: &[u8],
    image: &VAImage,
    frame: DecodedFrame,
    row: nat,
    col: nat,
)
    requires
        call_ensures(copy_nv12_image_to_i420, (data, image), frame),
    ensures
        frame.width == image.width,
        frame.height == image.height,
        frame.y@.len() == image.width * image.height,
        frame.u@.len() == (image.width as nat / 2) * (image.height as nat / 2),
        frame.v@.len() == (image.width as nat / 2) * (image.height as nat / 2),
        row < image.height && col < image.width ==> frame.y@[(row * image.width as nat + col) as int]
            == data@[(image.offsets@[0] + row * image.pitches@[0] + col) as int],
        row < image.height / 2 && col < image.width / 2 ==> {
            let pair = image.offsets@[1] + row * image.pitches@[1] + 2 * col;
            let sample = (row * (image.width as nat / 2) + col) as int;
            &&& frame.u@[sample] == data@[pair as int]
            &&& frame.v@[sample] == data@[pair as int + 1]
        },
{
    law_nv12_split_is_lossless(frame, data@, *image, row, col);
}

/// A plane fits exactly when each of its samples lies within the bytes.
pub proof fn law_planes_fit_with_every_sample(
    len: usize,
    offset: usize,
    pitch: usize,
    step: usize,
    width: usize,
    height: usize,
    fits: bool,
    row: nat,
    col: nat,
)
    requires
        call_ensures(check_plane_fits, (len, offset, pitch, step, width, height), fits),
    ensures
        fits && row < height && col < width ==> offset + row * pitch + col * step < len,
        !fits ==> width > 0 && height > 0 && offset + (height - 1) * pitch + (width - 1) * step
            >= len,
{
    if fits && row < height && col < width {
        assert(row * pitch <= (height - 1) * pitch) by (nonlinear_arith)
            requires
                row <= height - 1,
                pitch >= 0,
        ;
        assert(col * step <= (width - 1) * step) by (nonlinear_arith)
            requires
                col <= width - 1,
                step >= 0,
        ;
    }
}

/// An NV12 image fits exactly when its luma plane can be allocated and each of
/// its luma bytes, and both bytes of each of its chroma pairs, lie within the
/// mapped bytes.
pub proof fn law_images_fit_with_every_sample(
    image: &VAImage,
    len: usize,
    fits: bool,
    row: nat,
    col: nat,
)
    requires
        call_ensures(check_nv12_fits, (image, len), fits),
    ensures
        fits ==> image.width * image.height <= isize::MAX,
        fits && row < image.height && col < image.width ==> image.offsets@[0] + row
            * image.pitches@[0] + col < len,
        fits && row < image.height / 2 && col < image.width / 2 ==> image.offsets@[1] + row
            * image.pitches@[1] + 2 * col + 1 < len,
        !fits ==> image.width * image.height > isize::MAX || (image.width > 0 && image.height > 0
            && image.offsets@[0] + (image.height - 1) * image.pitches@[0] + (image.width - 1)
            >= len) || (image.width >= 2 && image.height >= 2 && image.offsets@[1] + (image.height
            / 2 - 1) * image.pitches@[1] + 2 * (image.width / 2 - 1) + 1 >= len),
{
    let (p0, p1) = (image.pitches@[0] as int, image.pitches@[1] as int);
    let half_h = image.height as int / 2;
    if fits && row < image.height && col < image.width {
        assert(row * p0 <= (image.height - 1) * p0) by (nonlinear_arith)
            requires
                row <= image.height - 1,
                p0 >= 0,
        ;
    }
    if fits && row < half_h && col < image.width / 2 {
        assert(row * p1 <= (half_h - 1) * p1) by (nonlinear_arith)
            requires
                row <= half_h - 1,
                p1 >= 0,
        ;
    }
}

/// A plane can be cropped exactly where the copy can be allocated and the last
/// sample of its last row lies within the source.
pub proof fn law_crops_fit_with_their_last_sample(
    len: usize,
    src_w: usize,
    dst_w: usize,
    dst_h: usize,
    fits: bool,
)
    requires
        call_ensures(check_crop_fits, (len, src_w, dst_w, dst_h), fits),
    ensures
        fits <==> dst_w * dst_h <= isize::MAX && (dst_h > 0 ==> (dst_h - 1) * src_w + dst_w <= len),
{
}

} // verus!
