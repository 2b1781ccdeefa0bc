use thumbor::engine::photon::{image_to_buf, scale_mark, watermark, OpenError};
use thumbor::engine::render::{render, render_image, renders, RenderError};
use thumbor::engine::steps::{
    colour_filter_of, final_size, next_size, resize_type_of, sample_filter_of, takes,
};
use thumbor::engine::{Engine, Photon, SpecTransform};
use thumbor::format::{holds, ImageFormat};
use thumbor::pb::filter::Filter as ColourFilter;
use thumbor::pb::resize::{ResizeType, SampleFilter};
use thumbor::pb::spec::Data;
use thumbor::pb::{Contrast, Crop, Filter, Fliph, Flipv, Resize, Spec, Watermark};
use thumbor::raster::Raster;
use thumbor::safety::decodes_safely;

const RED: [u8; 3] = [255, 0, 0];
const GREEN: [u8; 3] = [0, 255, 0];
const BLUE: [u8; 3] = [0, 0, 255];
const WHITE: [u8; 3] = [255, 255, 255];

const FILTERS: [SampleFilter; 5] = [
    SampleFilter::Nearest,
    SampleFilter::Triangle,
    SampleFilter::CatmullRom,
    SampleFilter::Gaussian,
    SampleFilter::Lanczos3,
];

/// A portable pixmap of one row of the given colours after the other.
fn pixmap(width: u32, colours: &[[u8; 3]]) -> Vec<u8> {
    let height = colours.len() / width as usize;
    let mut file = format!("P6\n{width} {height}\n255\n").into_bytes();
    file.extend(colours.concat());
    file
}

fn open(width: u32, colours: &[[u8; 3]]) -> Photon {
    Photon::try_from(&pixmap(width, colours), None).ok().unwrap()
}

fn colours(image: &Raster) -> Vec<[u8; 3]> {
    image.pixels.chunks(4).map(|p| [p[0], p[1], p[2]]).collect()
}

fn seam(width: u32, height: u32) -> Resize {
    Resize { width, height, rtype: ResizeType::SeamCarve.code(), filter: 0 }
}

fn step(data: Data) -> Spec {
    Spec { data: Some(data) }
}

#[test]
fn image_is_read() {
    let engine = open(2, &[RED, GREEN, BLUE, WHITE]);
    assert_eq!((engine.image.width, engine.image.height), (2, 2));
    assert_eq!(
        engine.image.pixels,
        [255, 0, 0, 255, 0, 255, 0, 255, 0, 0, 255, 255, 255, 255, 255, 255]
    );
    assert!(engine.watermark.is_none());
}

#[test]
fn unreadable_image_is_refused() {
    assert_eq!(Photon::try_from(b"no image", None).err(), Some(OpenError::UnreadableImage));
    assert_eq!(Photon::try_from(b"", None).err(), Some(OpenError::UnreadableImage));
    assert_eq!(Photon::try_from(b"P6\n2 2\n255\n123", None).err(), Some(OpenError::UnreadableImage));
}

#[test]
fn nearest_resize_repeats_pixels() {
    let mut engine = open(2, &[RED, GREEN]);
    engine.apply(&[Spec::new_resize(4, 1, SampleFilter::Nearest)]);
    assert_eq!((engine.image.width, engine.image.height), (4, 1));
    assert_eq!(colours(&engine.image), [RED, RED, GREEN, GREEN]);
}

#[test]
fn triangle_resize_mixes_pixels() {
    let mut engine = open(2, &[[0, 0, 0], [100, 100, 100]]);
    engine.apply(&[Spec::new_resize(1, 1, SampleFilter::Triangle)]);
    assert_eq!(colours(&engine.image), [[50, 50, 50]]);
}

#[test]
fn one_colour_stays_one_colour() {
    for filter in FILTERS {
        let mut engine = open(3, &[[10, 200, 30]; 9]);
        engine.apply(&[Spec::new_resize(5, 2, filter)]);
        assert_eq!((engine.image.width, engine.image.height), (5, 2));
        assert_eq!(colours(&engine.image), [[10, 200, 30]; 10]);
    }
}

#[test]
fn resize_to_own_size_copies() {
    for filter in FILTERS {
        let mut engine = open(2, &[RED, GREEN, BLUE, WHITE]);
        engine.apply(&[Spec::new_resize(2, 2, filter)]);
        assert_eq!(colours(&engine.image), [RED, GREEN, BLUE, WHITE]);
    }
}

#[test]
fn unknown_codes_mean_a_nearest_resize() {
    let op = Resize { width: 4, height: 1, rtype: 9, filter: 77 };
    assert_eq!(resize_type_of(&op), ResizeType::Normal);
    assert_eq!(sample_filter_of(&op), SampleFilter::Nearest);
    let mut engine = open(2, &[RED, GREEN]);
    engine.transform(&op);
    assert_eq!(colours(&engine.image), [RED, RED, GREEN, GREEN]);
    assert_eq!(resize_type_of(&seam(1, 1)), ResizeType::SeamCarve);
    let triangle = Resize { width: 1, height: 1, rtype: 0, filter: 2 };
    assert_eq!(sample_filter_of(&triangle), SampleFilter::Triangle);
}

#[test]
fn seams_are_taken_out() {
    let mut engine = open(4, &[BLUE; 12]);
    engine.transform(&seam(3, 2));
    assert_eq!((engine.image.width, engine.image.height), (3, 2));
    assert_eq!(colours(&engine.image), [BLUE; 6]);
}

#[test]
fn small_image_keeps_its_seams() {
    let mut engine = open(2, &[RED, GREEN, BLUE, WHITE]);
    engine.transform(&seam(5, 2));
    assert_eq!((engine.image.width, engine.image.height), (2, 2));
    assert_eq!(colours(&engine.image), [RED, GREEN, BLUE, WHITE]);
    engine.transform(&seam(1, 9));
    assert_eq!((engine.image.width, engine.image.height), (1, 2));
}

#[test]
fn crop_keeps_the_rectangle() {
    let mut engine = open(3, &[RED, GREEN, BLUE, WHITE, RED, GREEN, BLUE, WHITE, RED]);
    engine.transform(&Crop { x1: 1, y1: 1, x2: 3, y2: 2 });
    assert_eq!((engine.image.width, engine.image.height), (2, 1));
    assert_eq!(colours(&engine.image), [RED, GREEN]);
}

#[test]
fn crop_to_own_bounds_changes_nothing() {
    let mut engine = open(2, &[RED, GREEN, BLUE, WHITE]);
    engine.transform(&Crop { x1: 0, y1: 0, x2: 2, y2: 2 });
    assert_eq!(colours(&engine.image), [RED, GREEN, BLUE, WHITE]);
}

#[test]
fn crop_of_crop_is_one_crop() {
    let pixels: Vec<[u8; 3]> = (0..16u8).map(|i| [i, i, i]).collect();
    let mut twice = open(4, &pixels);
    twice.transform(&Crop { x1: 1, y1: 1, x2: 4, y2: 4 });
    twice.transform(&Crop { x1: 1, y1: 0, x2: 3, y2: 2 });
    let mut once = open(4, &pixels);
    once.transform(&Crop { x1: 2, y1: 1, x2: 4, y2: 3 });
    assert_eq!(twice.image, once.image);
    assert_eq!(colours(&once.image), [[6; 3], [7; 3], [10; 3], [11; 3]]);
}

#[test]
fn flips_mirror_the_image() {
    let mut engine = open(2, &[RED, GREEN, BLUE, WHITE]);
    engine.transform(&Fliph {});
    assert_eq!(colours(&engine.image), [GREEN, RED, WHITE, BLUE]);
    engine.transform(&Flipv {});
    assert_eq!(colours(&engine.image), [WHITE, BLUE, GREEN, RED]);
}

#[test]
fn flipping_twice_changes_nothing() {
    let mut engine = open(3, &[RED, GREEN, BLUE]);
    engine.apply(&[step(Data::Fliph(Fliph {})), step(Data::Fliph(Fliph {}))]);
    engine.apply(&[step(Data::Flipv(Flipv {})), step(Data::Flipv(Flipv {}))]);
    assert_eq!(colours(&engine.image), [RED, GREEN, BLUE]);
}

#[test]
fn flips_commute() {
    let pixels = [RED, GREEN, BLUE, WHITE, RED, BLUE];
    let mut one = open(3, &pixels);
    one.apply(&[step(Data::Fliph(Fliph {})), step(Data::Flipv(Flipv {}))]);
    let mut other = open(3, &pixels);
    other.apply(&[step(Data::Flipv(Flipv {})), step(Data::Fliph(Fliph {}))]);
    assert_eq!(one.image, other.image);
}

#[test]
fn contrast_spreads_the_colours() {
    let mut engine = open(1, &[[100, 140, 200]]);
    engine.transform(&Contrast { contrast: 128.0f32.to_bits() });
    assert_eq!(engine.image.pixels, [44, 163, 255, 255]);
    let mut grey = open(1, &[[0, 90, 255]]);
    grey.transform(&Contrast { contrast: (-255.0f32).to_bits() });
    assert_eq!(grey.image.pixels, [128, 128, 128, 255]);
}

#[test]
fn filters_tint_the_image() {
    let cases = [
        (ColourFilter::Marine, [101, 102, 103], [80, 84, 106]),
        (ColourFilter::Islands, [101, 102, 103], [80, 86, 101]),
        (ColourFilter::Oceanic, [101, 102, 104], [80, 99, 117]),
        (ColourFilter::Unspecified, [101, 102, 103], [101, 102, 103]),
    ];
    for (filter, before, after) in cases {
        let mut engine = open(1, &[before]);
        engine.apply(&[Spec::new_filter(filter)]);
        assert_eq!(colours(&engine.image), [after]);
    }
}

#[test]
fn unknown_filter_changes_nothing() {
    assert_eq!(colour_filter_of(&Filter { filter: 9 }), None);
    assert_eq!(colour_filter_of(&Filter { filter: 0 }), None);
    assert_eq!(colour_filter_of(&Filter { filter: 3 }), Some(ColourFilter::Marine));
    let mut engine = open(1, &[[1, 2, 3]]);
    engine.transform(&Filter { filter: 9 });
    assert_eq!(colours(&engine.image), [[1, 2, 3]]);
}

#[test]
fn watermark_covers_from_its_place() {
    let mark = watermark(&pixmap(1, &[RED]));
    let square = mark.clone().unwrap();
    assert_eq!((square.width, square.height), (64, 64));
    assert_eq!(colours(&square), vec![RED; 4096]);
    let file = pixmap(3, &[BLUE; 6]);
    let mut engine = Photon::try_from(&file, mark.clone()).ok().unwrap();
    engine.transform(&Watermark { x: 1, y: 1 });
    assert_eq!(colours(&engine.image), [BLUE, BLUE, BLUE, BLUE, RED, RED]);
    assert_eq!(engine.watermark, mark);
    engine.transform(&Watermark { x: 9, y: 9 });
    assert_eq!(colours(&engine.image), [BLUE, BLUE, BLUE, BLUE, RED, RED]);
}

#[test]
fn mark_is_scaled_by_nearest_pixels() {
    let logo = open(2, &[RED, GREEN]).image;
    let square = scale_mark(&logo);
    assert_eq!((square.width, square.height), (64, 64));
    assert_eq!(square.pixels[..4], [255, 0, 0, 255]);
    assert_eq!(square.pixels[4 * 31..4 * 33], [255, 0, 0, 255, 0, 255, 0, 255]);
}

#[test]
fn without_mark_watermark_changes_nothing() {
    assert_eq!(watermark(b"no image"), None);
    let mut engine = open(2, &[RED, GREEN]);
    engine.apply(&[Spec::new_watermark(0, 0)]);
    assert_eq!(colours(&engine.image), [RED, GREEN]);
}

#[test]
fn step_without_data_changes_nothing() {
    let mut engine = open(2, &[RED, GREEN]);
    engine.apply(&[Spec { data: None }]);
    engine.apply(&[]);
    assert_eq!(colours(&engine.image), [RED, GREEN]);
}

#[test]
fn steps_are_taken_in_turn() {
    let pixels = [RED, GREEN, BLUE, WHITE];
    let first = step(Data::Crop(Crop { x1: 0, y1: 0, x2: 2, y2: 1 }));
    let second = step(Data::Fliph(Fliph {}));
    let mut whole = open(4, &pixels);
    whole.apply(&[first, second]);
    let mut parts = open(4, &pixels);
    parts.apply(&[first]);
    parts.apply(&[second]);
    assert_eq!(whole.image, parts.image);
    assert_eq!(colours(&whole.image), [GREEN, RED]);
    let mut turned = open(4, &pixels);
    turned.apply(&[second, first]);
    assert_eq!(colours(&turned.image), [WHITE, BLUE]);
}

#[test]
fn image_is_written_as_jpeg() {
    let file = open(8, &[GREEN; 64]).generate(ImageFormat::Jpeg);
    assert_eq!(file[..3], [0xff, 0xd8, 0xff]);
    let back = Photon::try_from(&file, None).ok().unwrap().image;
    assert_eq!((back.width, back.height), (8, 8));
    for [r, g, b] in colours(&back) {
        assert!(r < 8 && g > 247 && b < 8);
    }
    let same = image_to_buf(open(8, &[GREEN; 64]).image, ImageFormat::Jpeg);
    assert_eq!(file, same);
}

/// An image whose pixels are all different, some of them seen through.
fn motley(width: u32, height: u32) -> Raster {
    let mut pixels = Vec::new();
    for y in 0..height {
        for x in 0..width {
            pixels.extend([x as u8 * 7, y as u8 * 11, (x * y) as u8, 255 - (x + y) as u8]);
        }
    }
    Raster { pixels, width, height }
}

#[test]
fn png_gives_the_image_back() {
    for (width, height) in [(1, 1), (5, 3), (64, 40)] {
        let image = motley(width, height);
        let file = image_to_buf(image.clone(), ImageFormat::Png);
        assert_eq!(file[..8], [0x89, 0x50, 0x4e, 0x47, 0x0d, 0x0a, 0x1a, 0x0a]);
        assert!(decodes_safely(&file));
        assert_eq!(Photon::try_from(&file, None).ok().unwrap().image, image);
    }
}

#[test]
fn image_is_written_in_each_format() {
    let starts: [(ImageFormat, &[u8]); 6] = [
        (ImageFormat::Gif, b"GIF89a"),
        (ImageFormat::WebP, b"RIFF"),
        (ImageFormat::Pnm, b"P7"),
        (ImageFormat::Bmp, b"BM"),
        (ImageFormat::Ico, &[0, 0, 1, 0]),
        (ImageFormat::Qoi, b"qoif"),
    ];
    for (format, start) in starts {
        let file = open(8, &[GREEN; 64]).generate(format);
        assert!(file.starts_with(start));
        assert!(decodes_safely(&file));
    }
    let tga = open(8, &[GREEN; 64]).generate(ImageFormat::Tga);
    assert_eq!(tga[12..16], [8, 0, 8, 0]);
    let tiff = open(8, &[GREEN; 64]).generate(ImageFormat::Tiff);
    assert!(tiff.starts_with(b"II*\0") || tiff.starts_with(b"MM\0*"));
}

#[test]
fn lossless_formats_give_the_image_back() {
    for format in [ImageFormat::WebP, ImageFormat::Bmp, ImageFormat::Ico, ImageFormat::Tiff] {
        let image = motley(30, 20);
        let file = image_to_buf(image.clone(), format);
        let back = Photon::try_from(&file, None).map(|engine| engine.image);
        assert!(back == Ok(image), "{format:?}");
    }
}

#[test]
fn formats_hold_images_up_to_a_size() {
    assert!(holds(ImageFormat::Png, 1, u32::MAX));
    assert!(!holds(ImageFormat::Png, 0, 1));
    assert!(holds(ImageFormat::Jpeg, 65535, 1));
    assert!(!holds(ImageFormat::Jpeg, 65536, 1));
    assert!(holds(ImageFormat::Gif, 0, 65535));
    assert!(!holds(ImageFormat::Gif, 1, 65536));
    assert!(holds(ImageFormat::WebP, 16384, 16384));
    assert!(!holds(ImageFormat::WebP, 16385, 1));
    assert!(holds(ImageFormat::Pnm, 0, 0));
    assert!(holds(ImageFormat::Tiff, 30000, 30000));
    assert!(!holds(ImageFormat::Tiff, 32768, 32768));
    assert!(!holds(ImageFormat::Tga, 1, 0));
    assert!(holds(ImageFormat::Bmp, 32767, 32768));
    assert!(!holds(ImageFormat::Bmp, 32768, 32768));
    assert!(holds(ImageFormat::Ico, 256, 256));
    assert!(!holds(ImageFormat::Ico, 257, 1));
    assert!(holds(ImageFormat::Qoi, 20000, 20000));
    assert!(!holds(ImageFormat::Qoi, 20000, 20001));
    for format in [ImageFormat::Hdr, ImageFormat::OpenExr, ImageFormat::Farbfeld, ImageFormat::Dds] {
        assert!(!holds(format, 1, 1));
    }
}

#[test]
fn file_is_rendered() {
    let steps = [Spec::new_resize(6, 2, SampleFilter::Nearest), Spec::new_watermark(0, 0)];
    let data = pixmap(3, &[BLUE; 3]);
    let file = render(&data, &steps, watermark(&pixmap(1, &[RED]))).unwrap();
    let back = Photon::try_from(&file, None).ok().unwrap().image;
    assert_eq!((back.width, back.height), (6, 2));
    for [r, g, b] in colours(&back) {
        assert!(r > 240 && g < 16 && b < 16);
    }
    assert_ne!(render(&data, &steps, None).unwrap(), file);
    assert_eq!(render_image(open(3, &[BLUE; 3]), &steps), render(&data, &steps, None).unwrap());
}

#[test]
fn unreadable_file_is_not_rendered() {
    assert_eq!(render(b"no image", &[], None), Err(RenderError::Unreadable));
}

#[test]
fn impossible_steps_are_not_rendered() {
    let data = pixmap(2, &[RED, GREEN]);
    let impossible = [
        Data::Crop(Crop { x1: 1, y1: 0, x2: 0, y2: 1 }),
        Data::Crop(Crop { x1: 0, y1: 0, x2: 3, y2: 1 }),
        Data::Crop(Crop { x1: 0, y1: 0, x2: 0, y2: 1 }),
        Data::Resize(Resize { width: 65536, height: 1, rtype: 0, filter: 1 }),
        Data::Resize(Resize { width: 0, height: 1, rtype: 0, filter: 1 }),
        Data::Resize(Resize { width: u32::MAX, height: u32::MAX, rtype: 0, filter: 1 }),
        Data::Resize(seam(0, 1)),
    ];
    for data_of_step in impossible {
        assert_eq!(render(&data, &[step(data_of_step)], None), Err(RenderError::Impossible));
    }
    let engine = open(2, &[RED, GREEN]);
    assert!(renders(&engine.image, &[]));
    assert!(!renders(&engine.image, &[step(impossible[0])]));
}

#[test]
fn sizes_after_steps() {
    let resize = Spec::new_resize(10, 20, SampleFilter::Gaussian);
    let crop = step(Data::Crop(Crop { x1: 2, y1: 3, x2: 9, y2: 20 }));
    assert_eq!(next_size(&resize, 1, 1), (10, 20));
    assert_eq!(next_size(&crop, 10, 20), (7, 17));
    assert_eq!(next_size(&step(Data::Resize(seam(5, 50))), 10, 20), (5, 20));
    assert_eq!(next_size(&Spec::new_watermark(0, 0), 3, 4), (3, 4));
    assert_eq!(final_size(&[resize, crop], 1, 1), Some((7, 17)));
    assert_eq!(final_size(&[crop, resize], 1, 1), None);
    assert_eq!(final_size(&[], 6, 7), Some((6, 7)));
}

#[test]
fn steps_that_an_image_takes() {
    assert!(takes(&step(Data::Crop(Crop { x1: 5, y1: 0, x2: 5, y2: 9 })), 2, 1));
    assert!(!takes(&step(Data::Fliph(Fliph {})), 65535, 65537));
    assert!(takes(&step(Data::Fliph(Fliph {})), 65535, 65536));
    assert!(takes(&Spec::new_resize(3, 3, SampleFilter::Lanczos3), 1048576, 1));
    assert!(takes(&Spec::new_resize(3, 3, SampleFilter::Lanczos3), 1048577, 1));
    assert!(takes(&Spec::new_resize(1048577, 3, SampleFilter::Lanczos3), 3, 1));
    assert!(!takes(&Spec::new_resize(1048577, 3, SampleFilter::Lanczos3), 1048578, 1));
    assert!(!takes(&Spec::new_resize(3, 1048577, SampleFilter::Triangle), 1, 1048578));
    assert!(takes(&Spec::new_resize(1048577, 3, SampleFilter::Nearest), 1048578, 1));
}

#[test]
fn long_side_can_stay_as_it_is() {
    assert!(takes(&Spec::new_resize(1048577, 3, SampleFilter::Lanczos3), 1048577, 1));
    assert!(takes(&Spec::new_resize(3, 0x80_0000, SampleFilter::Triangle), 1, 0x80_0000));
    assert!(!takes(&Spec::new_resize(3, 0x80_0002, SampleFilter::Triangle), 1, 0x80_0002));
    assert!(takes(&Spec::new_resize(3, 0x80_0001, SampleFilter::Triangle), 1, 0x80_0001));
    assert!(!takes(&Spec::new_resize(3, 0x100_0001, SampleFilter::Triangle), 1, 0x100_0001));
    let side = 1048577;
    let row = Raster { pixels: [10, 200, 30, 255].repeat(side as usize), width: side, height: 1 };
    let mut engine = Photon { image: row, watermark: None };
    engine.apply(&[Spec::new_resize(side, 2, SampleFilter::Triangle)]);
    assert_eq!((engine.image.width, engine.image.height), (side, 2));
    assert!(engine.image.pixels.chunks(4).all(|pixel| pixel == [10, 200, 30, 255]));
}

#[test]
fn long_row_is_shrunk() {
    let row = Raster { pixels: [10, 200, 30, 255].repeat(1048577), width: 1048577, height: 1 };
    for filter in FILTERS {
        let mut engine = Photon { image: row.clone(), watermark: None };
        engine.apply(&[Spec::new_resize(3, 3, filter)]);
        assert_eq!((engine.image.width, engine.image.height), (3, 3));
        for [r, g, b] in colours(&engine.image) {
            assert!(r.abs_diff(10) <= 1 && g.abs_diff(200) <= 1 && b.abs_diff(30) <= 1);
        }
    }
}

#[test]
fn seams_that_an_image_has() {
    assert!(takes(&step(Data::Resize(seam(2978479, 2))), 2978480, 2));
    assert!(takes(&step(Data::Resize(seam(1, 1))), 2978480, 2));
    assert!(takes(&step(Data::Resize(seam(2978479, 1))), 2978480, 2));
    assert!(!takes(&step(Data::Resize(seam(2978480, 1))), 2978480, 2));
    assert!(takes(&step(Data::Resize(seam(2, 2978479))), 2, 2978480));
    assert!(!takes(&step(Data::Resize(seam(1, 2978480))), 2, 2978480));
    assert!(takes(&step(Data::Resize(seam(2978480, 2978480))), 2978480, 2978480));
}

#[test]
fn one_step_does_what_its_transformation_does() {
    let pixels = [RED, GREEN, BLUE, WHITE];
    let crop = Crop { x1: 1, y1: 0, x2: 3, y2: 1 };
    let mut applied = open(4, &pixels);
    applied.apply(&[step(Data::Crop(crop))]);
    let mut transformed = open(4, &pixels);
    transformed.transform(&crop);
    assert_eq!(applied.image, transformed.image);
    assert_eq!(colours(&applied.image), [GREEN, BLUE]);
}

#[test]
fn settled_steps_give_one_file() {
    let steps = [
        Spec::new_resize(5, 3, SampleFilter::Triangle),
        Spec::new_filter(ColourFilter::Oceanic),
        step(Data::Contrast(Contrast { contrast: 20.0f32.to_bits() })),
    ];
    let data = pixmap(2, &[RED, GREEN, BLUE, WHITE]);
    assert_eq!(render(&data, &steps, None).unwrap(), render(&data, &steps, None).unwrap());
}
