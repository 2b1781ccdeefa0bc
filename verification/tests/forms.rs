use thumbor::form::{build_specs, field_kind, FieldKind, ProcessForm, ProcessOptions};
use thumbor::pb::filter::Filter as ColourFilter;
use thumbor::pb::resize::{ResizeType, SampleFilter};
use thumbor::pb::spec::Data;
use thumbor::pb::{Contrast, Crop, Fliph, Flipv, Resize, Spec};
use thumbor::text::BadRequest;

fn text(value: &str) -> Option<String> {
    Some(value.to_string())
}

fn step(data: Data) -> Spec {
    Spec { data: Some(data) }
}

#[test]
fn no_wishes_no_steps() {
    assert_eq!(build_specs(&ProcessOptions::default()), vec![]);
}

#[test]
fn all_wishes_in_order() {
    let options = ProcessOptions {
        resize_width: Some(10),
        resize_height: Some(20),
        resize_type: text("seam_carve"),
        resize_filter: text("gaussian"),
        crop_x1: Some(1),
        crop_y1: Some(2),
        crop_x2: Some(3),
        crop_y2: Some(4),
        contrast: Some(1.5f32.to_bits()),
        image_filter: text("marine"),
        fliph: true,
        flipv: true,
        watermark: true,
        watermark_x: Some(7),
        watermark_y: None,
    };
    assert_eq!(
        build_specs(&options),
        vec![
            step(Data::Resize(Resize {
                width: 10,
                height: 20,
                rtype: ResizeType::SeamCarve.code(),
                filter: SampleFilter::Gaussian.code(),
            })),
            step(Data::Crop(Crop { x1: 1, y1: 2, x2: 3, y2: 4 })),
            step(Data::Contrast(Contrast { contrast: 1.5f32.to_bits() })),
            Spec::new_filter(ColourFilter::Marine),
            step(Data::Fliph(Fliph {})),
            step(Data::Flipv(Flipv {})),
            Spec::new_watermark(7, 20),
        ]
    );
}

#[test]
fn resize_needs_both_sides() {
    let width = ProcessOptions { resize_width: Some(1), ..ProcessOptions::default() };
    let height = ProcessOptions { resize_height: Some(1), ..ProcessOptions::default() };
    assert_eq!(build_specs(&width), vec![]);
    assert_eq!(build_specs(&height), vec![]);
}

#[test]
fn resize_filters_by_name() {
    let cases = [
        (text("nearest"), SampleFilter::Nearest),
        (text("triangle"), SampleFilter::Triangle),
        (text("gaussian"), SampleFilter::Gaussian),
        (text("lanczos3"), SampleFilter::Lanczos3),
        (text("catmull_rom"), SampleFilter::CatmullRom),
        (text("Nearest"), SampleFilter::CatmullRom),
        (None, SampleFilter::CatmullRom),
    ];
    for (resize_filter, filter) in cases {
        let options = ProcessOptions {
            resize_width: Some(1),
            resize_height: Some(2),
            resize_type: text("normal"),
            resize_filter,
            ..ProcessOptions::default()
        };
        assert_eq!(build_specs(&options), vec![Spec::new_resize(1, 2, filter)]);
    }
}

#[test]
fn crop_needs_four_numbers() {
    let whole = [Some(1), Some(2), Some(3), Some(4)];
    for missing in 0..4 {
        let mut numbers = whole;
        numbers[missing] = None;
        let options = ProcessOptions {
            crop_x1: numbers[0],
            crop_y1: numbers[1],
            crop_x2: numbers[2],
            crop_y2: numbers[3],
            ..ProcessOptions::default()
        };
        assert_eq!(build_specs(&options), vec![]);
    }
}

#[test]
fn faint_contrast_is_left_out() {
    let above = f32::from_bits(f32::EPSILON.to_bits() + 1);
    let amounts = [
        0.0,
        -0.0,
        f32::EPSILON,
        -f32::EPSILON,
        above,
        -above,
        f32::MIN_POSITIVE,
        1.0,
        -30.0,
        f32::MAX,
        f32::INFINITY,
        f32::NEG_INFINITY,
        f32::NAN,
        -f32::NAN,
        f32::from_bits(0x7f80_0001),
        f32::from_bits(1),
    ];
    for amount in amounts {
        let contrast = amount.to_bits();
        let options = ProcessOptions { contrast: Some(contrast), ..ProcessOptions::default() };
        let expected = if amount.abs() > f32::EPSILON {
            vec![step(Data::Contrast(Contrast { contrast }))]
        } else {
            vec![]
        };
        assert_eq!(build_specs(&options), expected, "{amount}");
    }
}

#[test]
fn colour_filters_by_name() {
    let cases = [
        ("oceanic", Some(ColourFilter::Oceanic)),
        ("islands", Some(ColourFilter::Islands)),
        ("marine", Some(ColourFilter::Marine)),
        ("unspecified", None),
        ("Marine", None),
    ];
    for (name, filter) in cases {
        let options = ProcessOptions { image_filter: text(name), ..ProcessOptions::default() };
        let expected: Vec<Spec> = filter.into_iter().map(Spec::new_filter).collect();
        assert_eq!(build_specs(&options), expected);
    }
}

#[test]
fn watermark_place() {
    let cases = [
        (None, None, 20, 20),
        (Some(1), None, 1, 20),
        (None, Some(0), 20, 0),
        (Some(5), Some(6), 5, 6),
    ];
    for (watermark_x, watermark_y, x, y) in cases {
        let options =
            ProcessOptions { watermark: true, watermark_x, watermark_y, ..ProcessOptions::default() };
        assert_eq!(build_specs(&options), vec![Spec::new_watermark(x, y)]);
    }
    let unticked = ProcessOptions { watermark_x: Some(1), ..ProcessOptions::default() };
    assert_eq!(build_specs(&unticked), vec![]);
}

#[test]
fn kinds_of_fields() {
    assert_eq!(field_kind("image"), FieldKind::Image);
    assert_eq!(field_kind("contrast"), FieldKind::Fraction);
    for name in [
        "resize_width", "resize_height", "resize_type", "resize_filter", "crop_x1", "crop_y1",
        "crop_x2", "crop_y2", "image_filter", "fliph", "flipv", "watermark", "watermark_x",
        "watermark_y",
    ] {
        assert_eq!(field_kind(name), FieldKind::Text);
    }
    for name in ["", "Image", "resize", "contrast "] {
        assert_eq!(field_kind(name), FieldKind::Unknown);
    }
}

#[test]
fn fields_fill_the_form() {
    let mut form = ProcessForm::new();
    for (name, value) in [
        ("resize_width", "1"), ("resize_height", " 2 "), ("resize_type", "seam_carve"),
        ("resize_filter", "triangle"), ("crop_x1", "3"), ("crop_y1", "4"), ("crop_x2", "5"),
        ("crop_y2", "6"), ("image_filter", "oceanic"), ("fliph", "on"), ("flipv", "off"),
        ("watermark", "1"), ("watermark_x", "7"), ("watermark_y", ""),
    ] {
        assert_eq!(form.accept_text(name, value), Ok(()));
    }
    form.accept_contrast(Some(7));
    let options = form.options;
    assert_eq!((options.resize_width, options.resize_height), (Some(1), Some(2)));
    assert_eq!(options.resize_type, text("seam_carve"));
    assert_eq!(options.resize_filter, text("triangle"));
    assert_eq!((options.crop_x1, options.crop_y1), (Some(3), Some(4)));
    assert_eq!((options.crop_x2, options.crop_y2), (Some(5), Some(6)));
    assert_eq!(options.image_filter, text("oceanic"));
    assert_eq!((options.fliph, options.flipv, options.watermark), (true, false, true));
    assert_eq!((options.watermark_x, options.watermark_y), (Some(7), None));
    assert_eq!(options.contrast, Some(7));
}

#[test]
fn numeric_field_without_number_is_refused() {
    let mut form = ProcessForm::new();
    for name in [
        "resize_width", "resize_height", "crop_x1", "crop_y1", "crop_x2", "crop_y2", "watermark_x",
        "watermark_y",
    ] {
        assert_eq!(form.accept_text(name, "many"), Err(BadRequest));
        assert_eq!(form.accept_text(name, "-1"), Err(BadRequest));
    }
    assert_eq!(build_specs(&form.options), vec![]);
}

#[test]
fn last_field_counts() {
    let mut form = ProcessForm::new();
    form.accept_text("image_filter", "marine").unwrap();
    form.accept_text("image_filter", "islands").unwrap();
    assert_eq!(form.options.image_filter, text("islands"));
    form.accept_text("image_filter", "  ").unwrap();
    assert_eq!(form.options.image_filter, None);
    form.accept_text("fliph", "yes").unwrap();
    form.accept_text("fliph", "no").unwrap();
    assert!(!form.options.fliph);
}

#[test]
fn other_fields_change_nothing() {
    let mut form = ProcessForm::new();
    assert_eq!(form.accept_text("colour", "red"), Ok(()));
    assert_eq!(form.accept_text("contrast", "x"), Ok(()));
    assert_eq!(form.accept_text("image", "x"), Ok(()));
    assert_eq!(build_specs(&form.options), vec![]);
    assert_eq!(form.image, None);
}

#[test]
fn empty_image_field_keeps_earlier_bytes() {
    let mut form = ProcessForm::new();
    form.accept_image(text("a.png"), vec![]);
    assert_eq!(form.image, None);
    assert_eq!(form.original_filename, text("a.png"));
    form.accept_image(text("b.png"), vec![1, 2]);
    form.accept_image(None, vec![]);
    assert_eq!(form.image, Some(vec![1, 2]));
    assert_eq!(form.original_filename, None);
    form.accept_image(text("c.png"), vec![3]);
    assert_eq!(form.image, Some(vec![3]));
}

#[test]
fn fields_may_come_in_any_order() {
    let fields = [("resize_width", "3"), ("resize_height", "4"), ("fliph", "on"), ("crop_x1", "")];
    let mut forwards = ProcessForm::new();
    let mut backwards = ProcessForm::new();
    for (name, value) in fields {
        forwards.accept_text(name, value).unwrap();
    }
    for (name, value) in fields.into_iter().rev() {
        backwards.accept_text(name, value).unwrap();
    }
    let steps = build_specs(&forwards.options);
    assert_eq!(steps, build_specs(&backwards.options));
    assert_eq!(
        steps,
        vec![Spec::new_resize(3, 4, SampleFilter::CatmullRom), step(Data::Fliph(Fliph {}))]
    );
}
