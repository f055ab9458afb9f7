use cycler_core::image::{Image, YCbCr422, YCbCr444};

#[test]
fn image_has_zero_constructor() {
    let image = Image::zero(10, 12);
    assert!(image.buffer().iter().all(|&x| x == YCbCr422::default()));
}

#[test]
fn image_has_width_and_height() {
    let image = Image::zero(10, 12);
    assert_eq!(image.width(), 10);
    assert_eq!(image.height(), 12);
}

#[test]
fn image_can_be_indexed() {
    let image = Image::from_ycbcr_buffer(
        vec![
            Default::default(),
            Default::default(),
            Default::default(),
            YCbCr422 {
                y1: 1,
                cb: 2,
                y2: 3,
                cr: 4,
            },
        ],
        2,
        2,
    );
    assert_eq!(
        image.at_422(1, 1),
        YCbCr422 {
            y1: 1,
            cb: 2,
            y2: 3,
            cr: 4
        }
    );
}

#[test]
fn pixels_expand_to_full_chroma() {
    let image = Image::from_ycbcr_buffer(
        vec![YCbCr422 {
            y1: 10,
            cb: 20,
            y2: 30,
            cr: 40,
        }],
        1,
        1,
    );
    assert_eq!(image.at(0, 0), YCbCr444 { y: 10, cb: 20, cr: 40 });
    assert_eq!(image.at(1, 0), YCbCr444 { y: 30, cb: 20, cr: 40 });
}

#[test]
fn try_at_rejects_out_of_bounds_coordinates() {
    let image = Image::zero(4, 2);
    assert_eq!(image.try_at(0, 0), Some(YCbCr444 { y: 0, cb: 0, cr: 0 }));
    assert_eq!(image.try_at(4, 0), None);
    assert_eq!(image.try_at(0, 2), None);
    assert_eq!(image.try_at(17, 33), None);
}

#[test]
fn raw_buffer_groups_bytes_into_pixel_pairs() {
    let image = Image::from_raw_buffer(vec![1, 2, 3, 4, 5, 6, 7, 8], 2, 1);
    assert_eq!(image.buffer().len(), 2);
    assert_eq!(image.buffer()[0], YCbCr422 { y1: 1, cb: 2, y2: 3, cr: 4 });
    assert_eq!(image.buffer()[1], YCbCr422 { y1: 5, cb: 6, y2: 7, cr: 8 });
}
