use thumbor::pb::filter::Filter as ColourFilter;
use thumbor::pb::resize::{ResizeType, SampleFilter};
use thumbor::pb::spec::Data;
use thumbor::pb::{Filter, ImageSpec, Resize, Spec, Watermark};

#[test]
fn resize_step() {
    assert_eq!(
        Spec::new_resize(3, 4, SampleFilter::Lanczos3).data,
        Some(Data::Resize(Resize { width: 3, height: 4, rtype: 0, filter: 5 }))
    );
}

#[test]
fn watermark_step() {
    assert_eq!(Spec::new_watermark(1, 2).data, Some(Data::Watermark(Watermark { x: 1, y: 2 })));
}

#[test]
fn filter_step() {
    assert_eq!(Spec::new_filter(ColourFilter::Islands).data, Some(Data::Filter(Filter { filter: 2 })));
}

#[test]
fn request_keeps_its_steps() {
    let steps = vec![Spec::new_watermark(1, 2), Spec { data: None }];
    assert_eq!(ImageSpec::new(steps.clone()).specs, steps);
}

#[test]
fn filter_codes() {
    let filters = [
        ColourFilter::Unspecified,
        ColourFilter::Oceanic,
        ColourFilter::Islands,
        ColourFilter::Marine,
    ];
    for (code, filter) in filters.into_iter().enumerate() {
        assert_eq!(filter.code(), code as i32);
        assert_eq!(ColourFilter::from_code(code as i32), Some(filter));
    }
    for code in [-1, 4, i32::MAX, i32::MIN] {
        assert_eq!(ColourFilter::from_code(code), None);
    }
}

#[test]
fn filter_names() {
    assert_eq!(ColourFilter::Unspecified.to_str(), None);
    assert_eq!(ColourFilter::Oceanic.to_str(), Some("oceanic"));
    assert_eq!(ColourFilter::Islands.to_str(), Some("islands"));
    assert_eq!(ColourFilter::Marine.to_str(), Some("marine"));
}

#[test]
fn resize_type_codes() {
    for rtype in [ResizeType::Normal, ResizeType::SeamCarve] {
        assert_eq!(ResizeType::from_code(rtype.code()), Some(rtype));
    }
    assert_eq!(ResizeType::from_code(0), Some(ResizeType::Normal));
    assert_eq!(ResizeType::from_code(1), Some(ResizeType::SeamCarve));
    assert_eq!(ResizeType::from_code(2), None);
    assert_eq!(ResizeType::from_code(-1), None);
}

#[test]
fn sample_filter_codes() {
    let filters = [
        SampleFilter::Nearest,
        SampleFilter::Triangle,
        SampleFilter::CatmullRom,
        SampleFilter::Gaussian,
        SampleFilter::Lanczos3,
    ];
    for filter in filters {
        assert_eq!(SampleFilter::from_code(filter.code()), Some(filter));
    }
    assert_eq!(SampleFilter::from_code(6), None);
    assert_eq!(SampleFilter::from_code(-1), None);
}
