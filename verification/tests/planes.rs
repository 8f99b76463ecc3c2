use oxideav_vaapi::planes::check_crop_fits;
use oxideav_vaapi::planes::check_nv12_fits;
use oxideav_vaapi::planes::check_plane_fits;
use oxideav_vaapi::planes::copy_nv12_image_to_i420;
use oxideav_vaapi::planes::copy_plane;
use oxideav_vaapi::planes::crop_plane;
use oxideav_vaapi::sys::VAImage;

fn image(width: u16, height: u16, pitches: [u32; 3], offsets: [u32; 3]) -> VAImage {
    VAImage {
        width,
        height,
        pitches,
        offsets,
        ..VAImage::zeroed()
    }
}

#[test]
fn nv12_is_split_without_row_padding() {
    // Two luma rows of 4 + 2 padding bytes, then one chroma row.
    let data: Vec<u8> = vec![
        99, 1, 2, 3, 4, 90, 91, 5, 6, 7, 8, 92, 93, 10, 20, 11, 21, 94, 95,
    ];
    let image = image(4, 2, [6, 6, 0], [1, 13, 0]);
    assert!(check_nv12_fits(&image, data.len()));
    let frame = copy_nv12_image_to_i420(&data, &image);
    assert_eq!((frame.width, frame.height), (4, 2));
    assert_eq!(frame.y, vec![1, 2, 3, 4, 5, 6, 7, 8]);
    assert_eq!(frame.u, vec![10, 11]);
    assert_eq!(frame.v, vec![20, 21]);
}

#[test]
fn odd_sizes_drop_the_last_chroma_column() {
    let data: Vec<u8> = (0..32).collect();
    let image = image(3, 3, [4, 4, 0], [0, 12, 0]);
    assert!(check_nv12_fits(&image, data.len()));
    let frame = copy_nv12_image_to_i420(&data, &image);
    assert_eq!(frame.y, vec![0, 1, 2, 4, 5, 6, 8, 9, 10]);
    assert_eq!(frame.u, vec![12]);
    assert_eq!(frame.v, vec![13]);
}

#[test]
fn an_empty_image_is_an_empty_frame() {
    let image = image(0, 0, [0; 3], [7, u32::MAX, 0]);
    assert!(check_nv12_fits(&image, 0));
    let frame = copy_nv12_image_to_i420(&[], &image);
    assert!(frame.y.is_empty() && frame.u.is_empty() && frame.v.is_empty());
}

#[test]
fn images_behind_the_data_do_not_fit() {
    let image = image(4, 2, [6, 6, 0], [1, 13, 0]);
    assert!(check_nv12_fits(&image, 17));
    assert!(!check_nv12_fits(&image, 16));
    assert!(!check_nv12_fits(&image, 0));
}

#[test]
fn splitting_loses_no_sample() {
    let data: Vec<u8> = (0..96).collect();
    let image = image(8, 4, [16, 8, 0], [0, 64, 0]);
    assert!(check_nv12_fits(&image, data.len()));
    let frame = copy_nv12_image_to_i420(&data, &image);
    for row in 0..4usize {
        for col in 0..8usize {
            assert_eq!(frame.y[row * 8 + col], data[row * 16 + col]);
        }
    }
    for row in 0..2usize {
        for col in 0..4usize {
            assert_eq!(frame.u[row * 4 + col], data[64 + row * 8 + 2 * col]);
            assert_eq!(frame.v[row * 4 + col], data[64 + row * 8 + 2 * col + 1]);
        }
    }
}

#[test]
fn cropping_takes_the_upper_left() {
    let src: Vec<u8> = (0..12).collect();
    assert!(check_crop_fits(12, 4, 2, 3));
    assert_eq!(crop_plane(&src, 4, 3, 2, 3), vec![0, 1, 4, 5, 8, 9]);
    assert_eq!(crop_plane(&src, 4, 3, 4, 3), src);
    assert_eq!(crop_plane(&src, 4, 3, 0, 0), Vec::<u8>::new());
    assert!(!check_crop_fits(12, 4, 5, 3));
    assert!(!check_crop_fits(12, 4, 4, 4));
    assert!(check_crop_fits(0, 4, 4, 0));
    assert!(!check_crop_fits(usize::MAX, 1, usize::MAX, 2));
}

#[test]
fn cropping_a_copy_copies_less() {
    let data: Vec<u8> = (0..64).collect();
    assert!(check_plane_fits(64, 3, 10, 1, 8, 5));
    let whole = copy_plane(&data, 3, 10, 1, 8, 5);
    let part = copy_plane(&data, 3, 10, 1, 6, 4);
    assert_eq!(crop_plane(&whole, 8, 5, 6, 4), part);
}

#[test]
fn strided_copies_step_over_columns() {
    let data: Vec<u8> = (0..20).collect();
    assert_eq!(copy_plane(&data, 1, 8, 2, 3, 2), vec![1, 3, 5, 9, 11, 13]);
    assert!(!check_plane_fits(13, 1, 8, 2, 3, 2));
    assert!(check_plane_fits(14, 1, 8, 2, 3, 2));
    assert!(check_plane_fits(0, 5, usize::MAX, usize::MAX, 0, 9));
    assert!(!check_plane_fits(usize::MAX, 0, usize::MAX, 1, 1, usize::MAX));
}
