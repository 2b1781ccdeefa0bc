//! The form by which an image is uploaded and edited: its fields, and the steps that they ask for.
use crate::pb::filter::Filter as ColourFilter;
use crate::pb::resize::{ResizeType, SampleFilter};
use crate::pb::spec::Data;
use crate::pb::{Contrast, Crop, Filter, Fliph, Flipv, Resize, Spec, Watermark};
use crate::text::{
    is_blank, is_tick, law_blank_text_is_none, optional_number, optional_text, parse_checkbox, parse_optional_string,
    parse_optional_u32, same_text, trimmed, BadRequest,
};
use vstd::prelude::*;

verus! {

/// Where a watermark goes if the form does not say.
pub const DEFAULT_WATERMARK_PLACE: u32 = 20;

/// What a form asks for. The contrast is the bit pattern of an IEEE 754 single.
pub struct ProcessOptions {
    pub resize_width: Option<u32>,
    pub resize_height: Option<u32>,
    pub resize_type: Option<String>,
    pub resize_filter: Option<String>,
    pub crop_x1: Option<u32>,
    pub crop_y1: Option<u32>,
    pub crop_x2: Option<u32>,
    pub crop_y2: Option<u32>,
    pub contrast: Option<u32>,
    pub image_filter: Option<String>,
    pub fliph: bool,
    pub flipv: bool,
    pub watermark: bool,
    pub watermark_x: Option<u32>,
    pub watermark_y: Option<u32>,
}

/// What a form asks for, with its texts as characters.
pub struct Wishes {
    pub resize_width: Option<u32>,
    pub resize_height: Option<u32>,
    pub resize_type: Option<Seq<char>>,
    pub resize_filter: Option<Seq<char>>,
    pub crop_x1: Option<u32>,
    pub crop_y1: Option<u32>,
    pub crop_x2: Option<u32>,
    pub crop_y2: Option<u32>,
    pub contrast: Option<u32>,
    pub image_filter: Option<Seq<char>>,
    pub fliph: bool,
    pub flipv: bool,
    pub watermark: bool,
    pub watermark_x: Option<u32>,
    pub watermark_y: Option<u32>,
}

/// The characters of a text that may be absent.
pub open spec fn chars(text: Option<String>) -> Option<Seq<char>> {
    match text {
        Some(inner) => Some(inner@),
        None => None,
    }
}

impl View for ProcessOptions {
    type V = Wishes;

    open spec fn view(&self) -> Wishes {
        Wishes {
            resize_width: self.resize_width,
            resize_height: self.resize_height,
            resize_type: chars(self.resize_type),
            resize_filter: chars(self.resize_filter),
            crop_x1: self.crop_x1,
            crop_y1: self.crop_y1,
            crop_x2: self.crop_x2,
            crop_y2: self.crop_y2,
            contrast: self.contrast,
            image_filter: chars(self.image_filter),
            fliph: self.fliph,
            flipv: self.flipv,
            watermark: self.watermark,
            watermark_x: self.watermark_x,
            watermark_y: self.watermark_y,
        }
    }
}

impl Wishes {
    /// A form that asks for nothing.
    pub open spec fn none() -> Wishes {
        Wishes {
            resize_width: None,
            resize_height: None,
            resize_type: None,
            resize_filter: None,
            crop_x1: None,
            crop_y1: None,
            crop_x2: None,
            crop_y2: None,
            contrast: None,
            image_filter: None,
            fliph: false,
            flipv: false,
            watermark: false,
            watermark_x: None,
            watermark_y: None,
        }
    }
}

impl Default for ProcessOptions {
    fn default() -> (options: ProcessOptions)
        ensures
            options@ == Wishes::none(),
    {
        ProcessOptions {
            resize_width: None,
            resize_height: None,
            resize_type: None,
            resize_filter: None,
            crop_x1: None,
            crop_y1: None,
            crop_x2: None,
            crop_y2: None,
            contrast: None,
            image_filter: None,
            fliph: false,
            flipv: false,
            watermark: false,
            watermark_x: None,
            watermark_y: None,
        }
    }
}

/// The resize type that a form names: seam carving, or else a plain resize.
pub open spec fn named_resize_type(name: Option<Seq<char>>) -> ResizeType {
    if name == Some("seam_carve"@) {
        ResizeType::SeamCarve
    } else {
        ResizeType::Normal
    }
}

/// The sampling filter that a form names; the Catmull-Rom filter if it names none that is known.
pub open spec fn named_sample_filter(name: Option<Seq<char>>) -> SampleFilter {
    if name == Some("nearest"@) {
        SampleFilter::Nearest
    } else if name == Some("triangle"@) {
        SampleFilter::Triangle
    } else if name == Some("gaussian"@) {
        SampleFilter::Gaussian
    } else if name == Some("lanczos3"@) {
        SampleFilter::Lanczos3
    } else {
        SampleFilter::CatmullRom
    }
}

/// The colour filter that a form names, if it is known.
pub open spec fn named_colour_filter(name: Option<Seq<char>>) -> Option<ColourFilter> {
    if name == Some("oceanic"@) {
        Some(ColourFilter::Oceanic)
    } else if name == Some("islands"@) {
        Some(ColourFilter::Islands)
    } else if name == Some("marine"@) {
        Some(ColourFilter::Marine)
    } else {
        None
    }
}

/// The amount of contrast is a number, or infinite, and its size is above the smallest difference
/// from one that a single can hold. Read as a whole number, the bit pattern without the sign grows
/// with the size of the single; 2 to the power of -23 has the pattern 0x34000000, and infinity
/// 0x7f800000.
pub open spec fn is_noticeable(contrast: u32) -> bool {
    0x3400_0000 < contrast % 0x8000_0000 <= 0x7f80_0000
}

/// How a field of the form is to be read.
#[derive(Clone, Copy, Debug, PartialEq, Eq, Structural)]
pub enum FieldKind {
    /// The file name and the bytes of the image.
    Image,
    /// A text.
    Text,
    /// A text that stands for a number with a fraction.
    Fraction,
    /// Not at all.
    Unknown,
}

/// The fields that hold a text.
pub open spec fn is_text_field(name: Seq<char>) -> bool {
    ||| name == "resize_width"@
    ||| name == "resize_height"@
    ||| name == "resize_type"@
    ||| name == "resize_filter"@
    ||| name == "crop_x1"@
    ||| name == "crop_y1"@
    ||| name == "crop_x2"@
    ||| name == "crop_y2"@
    ||| name == "image_filter"@
    ||| name == "fliph"@
    ||| name == "flipv"@
    ||| name == "watermark"@
    ||| name == "watermark_x"@
    ||| name == "watermark_y"@
}

/// How the field of the given name is to be read.
pub open spec fn kind_of(name: Seq<char>) -> FieldKind {
    if name == "image"@ {
        FieldKind::Image
    } else if name == "contrast"@ {
        FieldKind::Fraction
    } else if is_text_field(name) {
        FieldKind::Text
    } else {
        FieldKind::Unknown
    }
}

/// The wishes once a numeric field has been read into them by `put`.
pub open spec fn with_number(
    text: Seq<char>,
    put: spec_fn(Option<u32>) -> Wishes,
) -> Result<Wishes, BadRequest> {
    match optional_number(text) {
        Ok(value) => Ok(put(value)),
        Err(refusal) => Err(refusal),
    }
}

/// The wishes once the field of the given name has been read as a text: a blank field takes a wish
/// back, a field of another name changes nothing, and a numeric field that holds no number is
/// refused.
pub open spec fn with_text(wishes: Wishes, name: Seq<char>, text: Seq<char>) -> Result<
    Wishes,
    BadRequest,
> {
    if name == "resize_width"@ {
        with_number(text, |n: Option<u32>| Wishes { resize_width: n, ..wishes })
    } else if name == "resize_height"@ {
        with_number(text, |n: Option<u32>| Wishes { resize_height: n, ..wishes })
    } else if name == "resize_type"@ {
        Ok(Wishes { resize_type: optional_text(text), ..wishes })
    } else if name == "resize_filter"@ {
        Ok(Wishes { resize_filter: optional_text(text), ..wishes })
    } else if name == "crop_x1"@ {
        with_number(text, |n: Option<u32>| Wishes { crop_x1: n, ..wishes })
    } else if name == "crop_y1"@ {
        with_number(text, |n: Option<u32>| Wishes { crop_y1: n, ..wishes })
    } else if name == "crop_x2"@ {
        with_number(text, |n: Option<u32>| Wishes { crop_x2: n, ..wishes })
    } else if name == "crop_y2"@ {
        with_number(text, |n: Option<u32>| Wishes { crop_y2: n, ..wishes })
    } else if name == "image_filter"@ {
        Ok(Wishes { image_filter: optional_text(text), ..wishes })
    } else if name == "fliph"@ {
        Ok(Wishes { fliph: is_tick(trimmed(text)), ..wishes })
    } else if name == "flipv"@ {
        Ok(Wishes { flipv: is_tick(trimmed(text)), ..wishes })
    } else if name == "watermark"@ {
        Ok(Wishes { watermark: is_tick(trimmed(text)), ..wishes })
    } else if name == "watermark_x"@ {
        with_number(text, |n: Option<u32>| Wishes { watermark_x: n, ..wishes })
    } else if name == "watermark_y"@ {
        with_number(text, |n: Option<u32>| Wishes { watermark_y: n, ..wishes })
    } else {
        Ok(wishes)
    }
}

/// A single step, as a list.
pub open spec fn one(data: Data) -> Seq<Spec> {
    seq![Spec { data: Some(data) }]
}

/// The resize step of a form: there is one if both sides are given.
pub open spec fn resize_steps(wishes: Wishes) -> Seq<Spec> {
    match (wishes.resize_width, wishes.resize_height) {
        (Some(width), Some(height)) => one(
            Data::Resize(
                Resize {
                    width,
                    height,
                    rtype: named_resize_type(wishes.resize_type).spec_code(),
                    filter: named_sample_filter(wishes.resize_filter).spec_code(),
                },
            ),
        ),
        _ => Seq::empty(),
    }
}

/// The crop step of a form: there is one if all four bounds are given.
pub open spec fn crop_steps(wishes: Wishes) -> Seq<Spec> {
    match (wishes.crop_x1, wishes.crop_y1, wishes.crop_x2, wishes.crop_y2) {
        (Some(x1), Some(y1), Some(x2), Some(y2)) => one(Data::Crop(Crop { x1, y1, x2, y2 })),
        _ => Seq::empty(),
    }
}

/// The contrast step of a form: there is one if the amount is noticeable.
pub open spec fn contrast_steps(wishes: Wishes) -> Seq<Spec> {
    match wishes.contrast {
        Some(contrast) => if is_noticeable(contrast) {
            one(Data::Contrast(Contrast { contrast }))
        } else {
            Seq::empty()
        },
        None => Seq::empty(),
    }
}

/// The filter step of a form: there is one if the form names a filter that is known.
pub open spec fn filter_steps(wishes: Wishes) -> Seq<Spec> {
    match named_colour_filter(wishes.image_filter) {
        Some(filter) => one(Data::Filter(Filter { filter: filter.spec_code() })),
        None => Seq::empty(),
    }
}

/// The left-to-right mirroring of a form.
pub open spec fn fliph_steps(wishes: Wishes) -> Seq<Spec> {
    if wishes.fliph {
        one(Data::Fliph(Fliph {  }))
    } else {
        Seq::empty()
    }
}

/// The top-to-bottom mirroring of a form.
pub open spec fn flipv_steps(wishes: Wishes) -> Seq<Spec> {
    if wishes.flipv {
        one(Data::Flipv(Flipv {  }))
    } else {
        Seq::empty()
    }
}

/// A coordinate of the watermark.
pub open spec fn watermark_place(given: Option<u32>) -> u32 {
    match given {
        Some(place) => place,
        None => DEFAULT_WATERMARK_PLACE,
    }
}

/// The watermark step of a form.
pub open spec fn watermark_steps(wishes: Wishes) -> Seq<Spec> {
    if wishes.watermark {
        one(
            Data::Watermark(
                Watermark {
                    x: watermark_place(wishes.watermark_x),
                    y: watermark_place(wishes.watermark_y),
                },
            ),
        )
    } else {
        Seq::empty()
    }
}

/// The steps that a form asks for, in the order in which they are taken.
pub open spec fn wished_steps(wishes: Wishes) -> Seq<Spec> {
    resize_steps(wishes) + crop_steps(wishes) + contrast_steps(wishes) + filter_steps(wishes)
        + fliph_steps(wishes) + flipv_steps(wishes) + watermark_steps(wishes)
}

/// Whether the text is there and consists of the given characters.
fn is_text(text: &Option<String>, word: &str) -> (same: bool)
    ensures
        same == (chars(*text) == Some(word@)),
{
    match text {
        Some(inner) => same_text(inner.as_str(), word),
        None => false,
    }
}

/// The resize type that a form names.
fn resize_type_named(name: &Option<String>) -> (rtype: ResizeType)
    ensures
        rtype == named_resize_type(chars(*name)),
{
    if is_text(name, "seam_carve") {
        ResizeType::SeamCarve
    } else {
        ResizeType::Normal
    }
}

/// The sampling filter that a form names.
fn sample_filter_named(name: &Option<String>) -> (filter: SampleFilter)
    ensures
        filter == named_sample_filter(chars(*name)),
{
    if is_text(name, "nearest") {
        SampleFilter::Nearest
    } else if is_text(name, "triangle") {
        SampleFilter::Triangle
    } else if is_text(name, "gaussian") {
        SampleFilter::Gaussian
    } else if is_text(name, "lanczos3") {
        SampleFilter::Lanczos3
    } else {
        SampleFilter::CatmullRom
    }
}

/// The colour filter that a form names.
fn colour_filter_named(name: &Option<String>) -> (filter: ColourFilter)
    ensures
        match named_colour_filter(chars(*name)) {
            Some(known) => filter == known,
            None => filter == ColourFilter::Unspecified,
        },
{
    if is_text(name, "oceanic") {
        ColourFilter::Oceanic
    } else if is_text(name, "islands") {
        ColourFilter::Islands
    } else if is_text(name, "marine") {
        ColourFilter::Marine
    } else {
        ColourFilter::Unspecified
    }
}

/// Adds the resize step.
fn push_resize(options: &ProcessOptions, specs: &mut Vec<Spec>)
    ensures
        final(specs)@ == old(specs)@ + resize_steps(options@),
{
    if let (Some(width), Some(height)) = (options.resize_width, options.resize_height) {
        let rtype = resize_type_named(&options.resize_type);
        let filter = sample_filter_named(&options.resize_filter);
        specs.push(
            Spec {
                data: Some(
                    Data::Resize(
                        Resize { width, height, rtype: rtype.code(), filter: filter.code() },
                    ),
                ),
            },
        );
    }
}

/// Adds the crop step.
fn push_crop(options: &ProcessOptions, specs: &mut Vec<Spec>)
    ensures
        final(specs)@ == old(specs)@ + crop_steps(options@),
{
    if let (Some(x1), Some(y1), Some(x2), Some(y2)) = (
        options.crop_x1,
        options.crop_y1,
        options.crop_x2,
        options.crop_y2,
    ) {
        specs.push(Spec { data: Some(Data::Crop(Crop { x1, y1, x2, y2 })) });
    }
}

/// Adds the contrast step.
fn push_contrast(options: &ProcessOptions, specs: &mut Vec<Spec>)
    ensures
        final(specs)@ == old(specs)@ + contrast_steps(options@),
{
    if let Some(contrast) = options.contrast {
        let size: u32 = contrast % 0x8000_0000;
        if 0x3400_0000 < size && size <= 0x7f80_0000 {
            specs.push(Spec { data: Some(Data::Contrast(Contrast { contrast })) });
        }
    }
}

/// Adds the filter step.
fn push_filter(options: &ProcessOptions, specs: &mut Vec<Spec>)
    ensures
        final(specs)@ == old(specs)@ + filter_steps(options@),
{
    let filter = colour_filter_named(&options.image_filter);
    if filter != ColourFilter::Unspecified {
        specs.push(Spec::new_filter(filter));
    }
}

/// Adds the mirrorings.
fn push_flips(options: &ProcessOptions, specs: &mut Vec<Spec>)
    ensures
        final(specs)@ == old(specs)@ + fliph_steps(options@) + flipv_steps(options@),
{
    if options.fliph {
        specs.push(Spec { data: Some(Data::Fliph(Fliph {  })) });
    }
    if options.flipv {
        specs.push(Spec { data: Some(Data::Flipv(Flipv {  })) });
    }
}

/// Adds the watermark step.
fn push_watermark(options: &ProcessOptions, specs: &mut Vec<Spec>)
    ensures
        final(specs)@ == old(specs)@ + watermark_steps(options@),
{
    if options.watermark {
        specs.push(
            Spec::new_watermark(
                options.watermark_x.unwrap_or(DEFAULT_WATERMARK_PLACE),
                options.watermark_y.unwrap_or(DEFAULT_WATERMARK_PLACE),
            ),
        );
    }
}

/// The steps that a form asks for.
pub fn build_specs(options: &ProcessOptions) -> (specs: Vec<Spec>)
    ensures
        specs@ == wished_steps(options@),
        forall|op: Crop|
            #![trigger specs@.contains(Spec { data: Some(Data::Crop(op)) })]
            specs@.contains(Spec { data: Some(Data::Crop(op)) }) <==> options.crop_x1 == Some(op.x1)
                && options.crop_y1 == Some(op.y1) && options.crop_x2 == Some(op.x2)
                && options.crop_y2 == Some(op.y2),
{
    let mut specs: Vec<Spec> = Vec::new();
    push_resize(options, &mut specs);
    push_crop(options, &mut specs);
    push_contrast(options, &mut specs);
    push_filter(options, &mut specs);
    push_flips(options, &mut specs);
    push_watermark(options, &mut specs);
    proof {
        assert forall|op: Crop|
            #![trigger specs@.contains(Spec { data: Some(Data::Crop(op)) })]
            specs@.contains(Spec { data: Some(Data::Crop(op)) }) <==> options.crop_x1 == Some(op.x1)
                && options.crop_y1 == Some(op.y1) && options.crop_x2 == Some(op.x2)
                && options.crop_y2 == Some(op.y2) by {
            law_crop_exactly_if_wished(options@, op);
        }
    }
    specs
}

/// How the field of the given name is to be read.
pub fn field_kind(name: &str) -> (kind: FieldKind)
    ensures
        kind == kind_of(name@),
{
    if same_text(name, "image") {
        FieldKind::Image
    } else if same_text(name, "contrast") {
        FieldKind::Fraction
    } else if same_text(name, "resize_width") || same_text(name, "resize_height") || same_text(
        name,
        "resize_type",
    ) || same_text(name, "resize_filter") || same_text(name, "crop_x1") || same_text(
        name,
        "crop_y1",
    ) || same_text(name, "crop_x2") || same_text(name, "crop_y2") || same_text(name, "image_filter")
        || same_text(name, "fliph") || same_text(name, "flipv") || same_text(name, "watermark")
        || same_text(name, "watermark_x") || same_text(name, "watermark_y") {
        FieldKind::Text
    } else {
        FieldKind::Unknown
    }
}

/// What a part of a form brings: a name and a file name, where it has them, and what its bytes are,
/// read as they stand, as a text and as an amount of contrast. By its name only one of the readings
/// counts.
pub struct Given {
    pub name: Option<Seq<char>>,
    pub file_name: Option<Seq<char>>,
    pub data: Seq<u8>,
    pub text: Seq<char>,
    pub amount: Result<Option<u32>, BadRequest>,
}

/// What the parts of a form have brought together.
pub struct Filled {
    pub image: Option<Seq<u8>>,
    pub original_filename: Option<Seq<char>>,
    pub wishes: Wishes,
}

impl Filled {
    /// A form of which nothing has been read.
    pub open spec fn none() -> Filled {
        Filled { image: None, original_filename: None, wishes: Wishes::none() }
    }
}

/// The wishes once a part has been read that is no image: one without a name, or of a name that the
/// form does not know, changes nothing.
pub open spec fn with_part(wishes: Wishes, part: Given) -> Result<Wishes, BadRequest> {
    match part.name {
        Some(name) => match kind_of(name) {
            FieldKind::Text => with_text(wishes, name, part.text),
            FieldKind::Fraction => match part.amount {
                Ok(contrast) => Ok(Wishes { contrast, ..wishes }),
                Err(refusal) => Err(refusal),
            },
            _ => Ok(wishes),
        },
        None => Ok(wishes),
    }
}

/// What is filled in once one more part has been read. The file name of an image always counts, its
/// bytes only if there are any.
pub open spec fn taken(form: Filled, part: Given) -> Result<Filled, BadRequest> {
    if part.name == Some("image"@) {
        Ok(
            Filled {
                image: if part.data.len() > 0 {
                    Some(part.data)
                } else {
                    form.image
                },
                original_filename: part.file_name,
                ..form
            },
        )
    } else {
        match with_part(form.wishes, part) {
            Ok(wishes) => Ok(Filled { wishes, ..form }),
            Err(refusal) => Err(refusal),
        }
    }
}

/// What is filled in once the parts have been read, one after the other; the first part that is
/// refused has the form refused.
pub open spec fn taken_all(form: Filled, parts: Seq<Given>) -> Result<Filled, BadRequest>
    decreases parts.len(),
{
    if parts.len() == 0 {
        Ok(form)
    } else {
        match taken(form, parts.first()) {
            Ok(next) => taken_all(next, parts.drop_first()),
            Err(refusal) => Err(refusal),
        }
    }
}

/// The part changes nothing by its name: it has none, or one that the form does not know.
pub open spec fn is_passed_over(part: Given) -> bool {
    part.name matches Some(name) ==> kind_of(name) == FieldKind::Unknown
}

/// The part asks for something by its name, and what it says can be read.
pub open spec fn is_readable_option(part: Given) -> bool {
    &&& part.name matches Some(name) && (kind_of(name) == FieldKind::Text || kind_of(name)
        == FieldKind::Fraction)
    &&& with_part(Wishes::none(), part) is Ok
}

/// A form as far as its fields have been read.
pub struct ProcessForm {
    /// The bytes of the image, once a field brought some.
    pub image: Option<Vec<u8>>,
    /// The file name that the last image field came with.
    pub original_filename: Option<String>,
    /// What the other fields ask for.
    pub options: ProcessOptions,
}

impl View for ProcessForm {
    type V = Filled;

    open spec fn view(&self) -> Filled {
        Filled {
            image: match self.image {
                Some(data) => Some(data@),
                None => None,
            },
            original_filename: chars(self.original_filename),
            wishes: self.options@,
        }
    }
}

impl ProcessForm {
    /// A form of which nothing has been read.
    pub fn new() -> (form: ProcessForm)
        ensures
            form@ == Filled::none(),
            form.image is None,
            form.original_filename is None,
            form.options@ == Wishes::none(),
    {
        ProcessForm { image: None, original_filename: None, options: ProcessOptions::default() }
    }

    /// Takes the image field in. Its file name always counts; its bytes only if there are any.
    pub fn accept_image(&mut self, file_name: Option<String>, data: Vec<u8>)
        ensures
            final(self).original_filename == file_name,
            final(self).image == if data@.len() > 0 {
                Some(data)
            } else {
                old(self).image
            },
            final(self).options == old(self).options,
            forall|part: Given|
                part.name == Some("image"@) && part.file_name == chars(file_name) && part.data
                    == data@ ==> #[trigger] taken(old(self)@, part) == Ok::<Filled, BadRequest>(
                    final(self)@,
                ),
    {
        self.original_filename = file_name;
        if data.len() > 0 {
            self.image = Some(data);
        }
    }

    /// Takes the contrast field in, once its text has been read: the bit pattern of the amount, or
    /// nothing for a blank field.
    pub fn accept_contrast(&mut self, contrast: Option<u32>)
        ensures
            final(self).original_filename == old(self).original_filename,
            final(self).image == old(self).image,
            final(self).options@ == (Wishes { contrast, ..old(self).options@ }),
            forall|part: Given|
                part.name == Some("contrast"@) && part.amount == Ok::<Option<u32>, BadRequest>(
                    contrast,
                ) ==> #[trigger] taken(old(self)@, part) == Ok::<Filled, BadRequest>(final(self)@),
    {
        proof {
            lemma_contrast_is_no_image();
        }
        self.options.contrast = contrast;
    }

    /// Takes in a field that is read as a text.
    pub fn accept_text(&mut self, name: &str, text: &str) -> (taken: Result<(), BadRequest>)
        ensures
            final(self).original_filename == old(self).original_filename,
            final(self).image == old(self).image,
            match with_text(old(self).options@, name@, text@) {
                Ok(wishes) => taken is Ok && final(self).options@ == wishes,
                Err(refusal) => taken == Err::<(), BadRequest>(refusal) && final(self).options
                    == old(self).options,
            },
            forall|part: Given|
                is_text_field(name@) && part.name == Some(name@) && part.text == text@ ==> match (
                #[trigger] crate::form::taken(old(self)@, part)) {
                    Ok(filled) => taken is Ok && final(self)@ == filled,
                    Err(refusal) => taken == Err::<(), BadRequest>(refusal) && final(self)@ == old(
                        self,
                    )@,
                },
    {
        proof {
            if is_text_field(name@) {
                lemma_text_field_kind(name@);
            }
        }
        if same_text(name, "resize_width") {
            self.options.resize_width = parse_optional_u32(text)?;
        } else if same_text(name, "resize_height") {
            self.options.resize_height = parse_optional_u32(text)?;
        } else if same_text(name, "resize_type") {
            self.options.resize_type = parse_optional_string(text);
        } else if same_text(name, "resize_filter") {
            self.options.resize_filter = parse_optional_string(text);
        } else if same_text(name, "crop_x1") {
            self.options.crop_x1 = parse_optional_u32(text)?;
        } else if same_text(name, "crop_y1") {
            self.options.crop_y1 = parse_optional_u32(text)?;
        } else if same_text(name, "crop_x2") {
            self.options.crop_x2 = parse_optional_u32(text)?;
        } else if same_text(name, "crop_y2") {
            self.options.crop_y2 = parse_optional_u32(text)?;
        } else if same_text(name, "image_filter") {
            self.options.image_filter = parse_optional_string(text);
        } else if same_text(name, "fliph") {
            self.options.fliph = parse_checkbox(text);
        } else if same_text(name, "flipv") {
            self.options.flipv = parse_checkbox(text);
        } else if same_text(name, "watermark") {
            self.options.watermark = parse_checkbox(text);
        } else if same_text(name, "watermark_x") {
            self.options.watermark_x = parse_optional_u32(text)?;
        } else if same_text(name, "watermark_y") {
            self.options.watermark_y = parse_optional_u32(text)?;
        }
        Ok(())
    }
}

/// The name of the contrast field is not that of the image field.
proof fn lemma_contrast_is_no_image()
    ensures
        kind_of("contrast"@) == FieldKind::Fraction,
        "contrast"@ != "image"@,
{
    reveal_strlit("image");
    reveal_strlit("contrast");
    assert("image"@.len() == 5);
    assert("contrast"@.len() == 8);
}

/// The fields that hold a text are read as such.
proof fn lemma_text_field_kind(name: Seq<char>)
    requires
        is_text_field(name),
    ensures
        kind_of(name) == FieldKind::Text,
        name != "image"@,
{
    reveal_strlit("image");
    reveal_strlit("contrast");
    reveal_strlit("resize_width");
    reveal_strlit("resize_height");
    reveal_strlit("resize_type");
    reveal_strlit("resize_filter");
    reveal_strlit("crop_x1");
    reveal_strlit("crop_y1");
    reveal_strlit("crop_x2");
    reveal_strlit("crop_y2");
    reveal_strlit("image_filter");
    reveal_strlit("fliph");
    reveal_strlit("flipv");
    reveal_strlit("watermark");
    reveal_strlit("watermark_x");
    reveal_strlit("watermark_y");
    assert("image"@.len() == 5 && "image"@[0] == 'i');
    assert("contrast"@.len() == 8);
    assert("resize_width"@.len() == 12);
    assert("resize_height"@.len() == 13);
    assert("resize_type"@.len() == 11);
    assert("resize_filter"@.len() == 13);
    assert("crop_x1"@.len() == 7);
    assert("crop_y1"@.len() == 7);
    assert("crop_x2"@.len() == 7);
    assert("crop_y2"@.len() == 7);
    assert("image_filter"@.len() == 12);
    assert("fliph"@.len() == 5 && "fliph"@[0] == 'f');
    assert("flipv"@.len() == 5 && "flipv"@[0] == 'f');
    assert("watermark"@.len() == 9);
    assert("watermark_x"@.len() == 11);
    assert("watermark_y"@.len() == 11);
}

/// Where a kind of step comes among the steps of a form.
pub open spec fn rank(step: Spec) -> int {
    match step.data {
        Some(Data::Resize(_)) => 0,
        Some(Data::Crop(_)) => 1,
        Some(Data::Contrast(_)) => 2,
        Some(Data::Filter(_)) => 3,
        Some(Data::Fliph(_)) => 4,
        Some(Data::Flipv(_)) => 5,
        Some(Data::Watermark(_)) => 6,
        None => 7,
    }
}

/// The steps are of rising rank, all within the given bounds.
pub open spec fn in_order(steps: Seq<Spec>, low: int, high: int) -> bool {
    &&& forall|i: int| 0 <= i < steps.len() ==> low <= rank(#[trigger] steps[i]) < high
    &&& forall|i: int, j: int|
        0 <= i < j < steps.len() ==> rank(#[trigger] steps[i]) < rank(#[trigger] steps[j])
}

/// Steps in order, followed by steps of higher rank in order, are in order.
proof fn lemma_in_order(first: Seq<Spec>, second: Seq<Spec>, low: int, middle: int, high: int)
    requires
        in_order(first, low, middle),
        in_order(second, middle, high),
        low <= middle <= high,
    ensures
        in_order(first + second, low, high),
{
    let all = first + second;
    let n = first.len();
    assert forall|i: int| 0 <= i < all.len() implies low <= rank(#[trigger] all[i]) < high by {
        if i < n {
            assert(all[i] == first[i]);
        } else {
            assert(all[i] == second[i - n]);
        }
    }
    assert forall|i: int, j: int| 0 <= i < j < all.len() implies rank(#[trigger] all[i]) < rank(
        #[trigger] all[j],
    ) by {
        if j < n {
            assert(all[i] == first[i] && all[j] == first[j]);
        } else if i >= n {
            assert(all[i] == second[i - n] && all[j] == second[j - n]);
        } else {
            assert(all[i] == first[i] && all[j] == second[j - n]);
        }
    }
}

/// Whatever a form asks for, the steps come in one fixed order, and no kind of step comes twice.
pub proof fn law_steps_in_order(wishes: Wishes)
    ensures
        in_order(wished_steps(wishes), 0, 7),
{
    let a = resize_steps(wishes);
    let b = a + crop_steps(wishes);
    let c = b + contrast_steps(wishes);
    let d = c + filter_steps(wishes);
    let e = d + fliph_steps(wishes);
    let f = e + flipv_steps(wishes);
    lemma_in_order(a, crop_steps(wishes), 0, 1, 2);
    lemma_in_order(b, contrast_steps(wishes), 0, 2, 3);
    lemma_in_order(c, filter_steps(wishes), 0, 3, 4);
    lemma_in_order(d, fliph_steps(wishes), 0, 4, 5);
    lemma_in_order(e, flipv_steps(wishes), 0, 5, 6);
    lemma_in_order(f, watermark_steps(wishes), 0, 6, 7);
}

/// What is in one of two lists is in both put together, and the other way round.
proof fn lemma_in_either(first: Seq<Spec>, second: Seq<Spec>, step: Spec)
    ensures
        (first + second).contains(step) <==> first.contains(step) || second.contains(step),
{
    let all = first + second;
    if first.contains(step) {
        let i = choose|i: int| 0 <= i < first.len() && first[i] == step;
        assert(all[i] == step);
    }
    if second.contains(step) {
        let i = choose|i: int| 0 <= i < second.len() && second[i] == step;
        assert(all[first.len() + i] == step);
    }
    if all.contains(step) {
        let i = choose|i: int| 0 <= i < all.len() && all[i] == step;
        if i < first.len() {
            assert(first[i] == step);
        } else {
            assert(second[i - first.len()] == step);
        }
    }
}

/// A list of one step holds that step and no other.
proof fn lemma_in_one(data: Data, step: Spec)
    ensures
        one(data).contains(step) <==> step.data == Some(data),
{
    assert(one(data)[0] == Spec { data: Some(data) });
}

/// A step is among those of a form if it is the step of its kind.
proof fn lemma_wished(wishes: Wishes, step: Spec)
    ensures
        wished_steps(wishes).contains(step) <==> match step.data {
            Some(Data::Resize(_)) => resize_steps(wishes).contains(step),
            Some(Data::Crop(_)) => crop_steps(wishes).contains(step),
            Some(Data::Contrast(_)) => contrast_steps(wishes).contains(step),
            Some(Data::Filter(_)) => filter_steps(wishes).contains(step),
            Some(Data::Fliph(_)) => fliph_steps(wishes).contains(step),
            Some(Data::Flipv(_)) => flipv_steps(wishes).contains(step),
            Some(Data::Watermark(_)) => watermark_steps(wishes).contains(step),
            None => false,
        },
{
    let a = resize_steps(wishes);
    let b = a + crop_steps(wishes);
    let c = b + contrast_steps(wishes);
    let d = c + filter_steps(wishes);
    let e = d + fliph_steps(wishes);
    let f = e + flipv_steps(wishes);
    lemma_in_either(a, crop_steps(wishes), step);
    lemma_in_either(b, contrast_steps(wishes), step);
    lemma_in_either(c, filter_steps(wishes), step);
    lemma_in_either(d, fliph_steps(wishes), step);
    lemma_in_either(e, flipv_steps(wishes), step);
    lemma_in_either(f, watermark_steps(wishes), step);
}

/// A form has a resize step exactly if it gives both sides, whatever the numbers, and the step names
/// these sides. Its resize type is the one with code 1 exactly if the form asks for `seam_carve`, and
/// else the one with code 0; its filter has the code of the filter that the form asks for, and code 3
/// if it asks for none that is known.
pub proof fn law_resize_exactly_if_wished(wishes: Wishes, op: Resize)
    ensures
        wished_steps(wishes).contains(Spec { data: Some(Data::Resize(op)) }) <==> {
            &&& wishes.resize_width == Some(op.width)
            &&& wishes.resize_height == Some(op.height)
            &&& op.rtype == 0 || op.rtype == 1
            &&& op.rtype == 1 <==> wishes.resize_type == Some("seam_carve"@)
            &&& 1 <= op.filter <= 5
            &&& op.filter == 1 <==> wishes.resize_filter == Some("nearest"@)
            &&& op.filter == 2 <==> wishes.resize_filter == Some("triangle"@)
            &&& op.filter == 4 <==> wishes.resize_filter == Some("gaussian"@)
            &&& op.filter == 5 <==> wishes.resize_filter == Some("lanczos3"@)
        },
        (exists|i: int|
            0 <= i < wished_steps(wishes).len() && (#[trigger] wished_steps(wishes)[i]).data matches Some(
                Data::Resize(_),
            )) <==> wishes.resize_width is Some && wishes.resize_height is Some,
{
    let steps = wished_steps(wishes);
    let step = Spec { data: Some(Data::Resize(op)) };
    lemma_wished(wishes, step);
    reveal_strlit("nearest");
    reveal_strlit("triangle");
    reveal_strlit("gaussian");
    reveal_strlit("lanczos3");
    assert("nearest"@.len() == 7);
    assert("triangle"@.len() == 8 && "triangle"@[0] == 't');
    assert("gaussian"@.len() == 8 && "gaussian"@[0] == 'g');
    assert("lanczos3"@.len() == 8 && "lanczos3"@[0] == 'l');
    if let (Some(width), Some(height)) = (wishes.resize_width, wishes.resize_height) {
        let wished = Resize {
            width,
            height,
            rtype: named_resize_type(wishes.resize_type).spec_code(),
            filter: named_sample_filter(wishes.resize_filter).spec_code(),
        };
        lemma_in_one(Data::Resize(wished), step);
        lemma_in_one(Data::Resize(wished), Spec { data: Some(Data::Resize(wished)) });
        lemma_wished(wishes, Spec { data: Some(Data::Resize(wished)) });
        let i = choose|i: int|
            0 <= i < steps.len() && steps[i] == (Spec { data: Some(Data::Resize(wished)) });
        assert(steps[i].data matches Some(Data::Resize(_)));
    }
    assert forall|i: int|
        0 <= i < steps.len() && (#[trigger] steps[i]).data matches Some(
            Data::Resize(_),
        ) implies wishes.resize_width is Some && wishes.resize_height is Some by {
        assert(steps.contains(steps[i]));
        lemma_wished(wishes, steps[i]);
    }
}

/// A form has a crop step exactly if it gives all four bounds, whatever the numbers, and the step
/// names these bounds.
pub proof fn law_crop_exactly_if_wished(wishes: Wishes, op: Crop)
    ensures
        wished_steps(wishes).contains(Spec { data: Some(Data::Crop(op)) }) <==> {
            &&& wishes.crop_x1 == Some(op.x1)
            &&& wishes.crop_y1 == Some(op.y1)
            &&& wishes.crop_x2 == Some(op.x2)
            &&& wishes.crop_y2 == Some(op.y2)
        },
        (exists|i: int|
            0 <= i < wished_steps(wishes).len() && (#[trigger] wished_steps(wishes)[i]).data matches Some(
                Data::Crop(_),
            )) <==> wishes.crop_x1 is Some && wishes.crop_y1 is Some && wishes.crop_x2 is Some
            && wishes.crop_y2 is Some,
{
    let steps = wished_steps(wishes);
    let step = Spec { data: Some(Data::Crop(op)) };
    lemma_wished(wishes, step);
    if let (Some(x1), Some(y1), Some(x2), Some(y2)) = (
        wishes.crop_x1,
        wishes.crop_y1,
        wishes.crop_x2,
        wishes.crop_y2,
    ) {
        let wished = Crop { x1, y1, x2, y2 };
        lemma_in_one(Data::Crop(wished), step);
        lemma_in_one(Data::Crop(wished), Spec { data: Some(Data::Crop(wished)) });
        lemma_wished(wishes, Spec { data: Some(Data::Crop(wished)) });
        let i = choose|i: int|
            0 <= i < steps.len() && steps[i] == (Spec { data: Some(Data::Crop(wished)) });
        assert(steps[i].data matches Some(Data::Crop(_)));
    }
    assert forall|i: int|
        0 <= i < steps.len() && (#[trigger] steps[i]).data matches Some(
            Data::Crop(_),
        ) implies wishes.crop_x1 is Some && wishes.crop_y1 is Some && wishes.crop_x2 is Some
        && wishes.crop_y2 is Some by {
        assert(steps.contains(steps[i]));
        lemma_wished(wishes, steps[i]);
    }
}

/// A form has a contrast step exactly if it gives an amount whose size is above two to the power of
/// -23, infinity among them, and the step names this amount. Of a single, the exponent field for that
/// power is 104, and 255 marks infinity where the fraction is zero, and else what is no number; the
/// sign makes no difference.
pub proof fn law_contrast_exactly_if_wished(wishes: Wishes, op: Contrast)
    ensures
        wished_steps(wishes).contains(Spec { data: Some(Data::Contrast(op)) }) <==> {
            let exponent = (op.contrast / 0x80_0000) % 256;
            let fraction = op.contrast % 0x80_0000;
            &&& wishes.contrast == Some(op.contrast)
            &&& exponent > 104 || (exponent == 104 && fraction > 0)
            &&& exponent == 255 ==> fraction == 0
        },
{
    let step = Spec { data: Some(Data::Contrast(op)) };
    lemma_wished(wishes, step);
    lemma_in_one(Data::Contrast(op), step);
    if let Some(contrast) = wishes.contrast {
        lemma_in_one(Data::Contrast(Contrast { contrast }), step);
    }
    let pattern: u32 = op.contrast;
    assert(is_noticeable(pattern) <==> {
        let exponent = (pattern / 0x80_0000) % 256;
        let fraction = pattern % 0x80_0000;
        &&& exponent > 104 || (exponent == 104 && fraction > 0)
        &&& exponent == 255 ==> fraction == 0
    });
}

/// A form has a filter step exactly if it names one of three filters, and the step has the code of
/// that filter.
pub proof fn law_filter_exactly_if_wished(wishes: Wishes, op: Filter)
    ensures
        wished_steps(wishes).contains(Spec { data: Some(Data::Filter(op)) }) <==> {
            ||| op.filter == 1 && wishes.image_filter == Some("oceanic"@)
            ||| op.filter == 2 && wishes.image_filter == Some("islands"@)
            ||| op.filter == 3 && wishes.image_filter == Some("marine"@)
        },
{
    let step = Spec { data: Some(Data::Filter(op)) };
    reveal_strlit("oceanic");
    reveal_strlit("islands");
    reveal_strlit("marine");
    assert("oceanic"@.len() == 7 && "oceanic"@[0] == 'o');
    assert("islands"@.len() == 7 && "islands"@[0] == 'i');
    assert("marine"@.len() == 6);
    lemma_wished(wishes, step);
    if let Some(filter) = named_colour_filter(wishes.image_filter) {
        lemma_in_one(Data::Filter(Filter { filter: filter.spec_code() }), step);
    }
}

/// A form has a mirroring of either kind exactly if it asks for it.
pub proof fn law_flips_exactly_if_wished(wishes: Wishes)
    ensures
        wished_steps(wishes).contains(Spec { data: Some(Data::Fliph(Fliph {  })) })
            <==> wishes.fliph,
        wished_steps(wishes).contains(Spec { data: Some(Data::Flipv(Flipv {  })) })
            <==> wishes.flipv,
{
    let h = Spec { data: Some(Data::Fliph(Fliph {  })) };
    let v = Spec { data: Some(Data::Flipv(Flipv {  })) };
    lemma_wished(wishes, h);
    lemma_wished(wishes, v);
    lemma_in_one(Data::Fliph(Fliph {  }), h);
    lemma_in_one(Data::Flipv(Flipv {  }), v);
}

/// A form has a watermark step exactly if it asks for a watermark; the step names the column and the
/// row that the form gives, whatever the numbers, and 20 for either that it does not give.
pub proof fn law_watermark_exactly_if_wished(wishes: Wishes, op: Watermark)
    ensures
        wished_steps(wishes).contains(Spec { data: Some(Data::Watermark(op)) }) <==> {
            &&& wishes.watermark
            &&& wishes.watermark_x == Some(op.x) || (wishes.watermark_x is None && op.x == 20)
            &&& wishes.watermark_y == Some(op.y) || (wishes.watermark_y is None && op.y == 20)
        },
{
    let step = Spec { data: Some(Data::Watermark(op)) };
    lemma_wished(wishes, step);
    let wished = Watermark {
        x: watermark_place(wishes.watermark_x),
        y: watermark_place(wishes.watermark_y),
    };
    lemma_in_one(Data::Watermark(wished), step);
}

/// Of any two steps of a form, the earlier is of the kind that comes earlier: resize, crop, contrast,
/// filter, the mirroring left to right, the one top to bottom, watermark. Every step is of one of
/// these kinds.
pub proof fn law_order_of_steps(wishes: Wishes, i: int, j: int)
    requires
        0 <= i < j < wished_steps(wishes).len(),
    ensures
        ({
            let earlier = wished_steps(wishes)[i].data;
            let later = wished_steps(wishes)[j].data;
            &&& earlier is Some && later is Some
            &&& match later->Some_0 {
                Data::Resize(_) => false,
                Data::Crop(_) => earlier->Some_0 is Resize,
                Data::Contrast(_) => earlier->Some_0 is Resize || earlier->Some_0 is Crop,
                Data::Filter(_) => earlier->Some_0 is Resize || earlier->Some_0 is Crop
                    || earlier->Some_0 is Contrast,
                Data::Fliph(_) => !(earlier->Some_0 is Fliph) && !(earlier->Some_0 is Flipv) && !(
                earlier->Some_0 is Watermark),
                Data::Flipv(_) => !(earlier->Some_0 is Flipv) && !(earlier->Some_0 is Watermark),
                Data::Watermark(_) => !(earlier->Some_0 is Watermark),
            }
        }),
{
    law_steps_in_order(wishes);
    let steps = wished_steps(wishes);
    assert(rank(steps[i]) < rank(steps[j]) < 7);
}

/// No form has a step without data.
pub proof fn law_no_empty_step(wishes: Wishes)
    ensures
        !wished_steps(wishes).contains(Spec { data: None }),
{
    lemma_wished(wishes, Spec { data: None });
}

/// The names of the fields differ from one another.
proof fn lemma_field_names_differ()
    ensures
        "resize_width"@.len() == 12,
        "resize_height"@.len() == 13,
        "resize_type"@.len() == 11,
        "resize_filter"@.len() == 13,
        "crop_x1"@.len() == 7,
        "crop_y1"@.len() == 7,
        "crop_x2"@.len() == 7,
        "crop_y2"@.len() == 7,
        "image_filter"@.len() == 12,
        "fliph"@.len() == 5,
        "flipv"@.len() == 5,
        "watermark"@.len() == 9,
        "watermark_x"@.len() == 11,
        "watermark_y"@.len() == 11,
        "contrast"@.len() == 8,
        "image"@.len() == 5,
        "resize_width"@ != "image_filter"@,
        "resize_height"@ != "resize_filter"@,
        "resize_type"@ != "watermark_x"@,
        "resize_type"@ != "watermark_y"@,
        "crop_x1"@ != "crop_y1"@,
        "crop_x1"@ != "crop_x2"@,
        "crop_x1"@ != "crop_y2"@,
        "crop_y1"@ != "crop_x2"@,
        "crop_y1"@ != "crop_y2"@,
        "crop_x2"@ != "crop_y2"@,
        "fliph"@ != "flipv"@,
        "fliph"@ != "image"@,
        "flipv"@ != "image"@,
        "watermark_x"@ != "watermark_y"@,
{
    reveal_strlit("resize_width");
    reveal_strlit("resize_height");
    reveal_strlit("resize_type");
    reveal_strlit("resize_filter");
    reveal_strlit("crop_x1");
    reveal_strlit("crop_y1");
    reveal_strlit("crop_x2");
    reveal_strlit("crop_y2");
    reveal_strlit("image_filter");
    reveal_strlit("fliph");
    reveal_strlit("flipv");
    reveal_strlit("watermark");
    reveal_strlit("watermark_x");
    reveal_strlit("watermark_y");
    reveal_strlit("contrast");
    reveal_strlit("image");
    assert("resize_width"@[0] == 'r' && "image_filter"@[0] == 'i');
    assert("resize_height"@[7] == 'h' && "resize_filter"@[7] == 'f');
    assert("resize_type"@[0] == 'r' && "watermark_x"@[0] == 'w');
    assert("resize_type"@[0] == 'r' && "watermark_y"@[0] == 'w');
    assert("crop_x1"@[5] == 'x' && "crop_y1"@[5] == 'y');
    assert("crop_x1"@[6] == '1' && "crop_x2"@[6] == '2');
    assert("crop_x1"@[5] == 'x' && "crop_y2"@[5] == 'y');
    assert("crop_y1"@[5] == 'y' && "crop_x2"@[5] == 'x');
    assert("crop_y1"@[6] == '1' && "crop_y2"@[6] == '2');
    assert("crop_x2"@[5] == 'x' && "crop_y2"@[5] == 'y');
    assert("fliph"@[4] == 'h' && "flipv"@[4] == 'v');
    assert("fliph"@[0] == 'f' && "image"@[0] == 'i');
    assert("flipv"@[0] == 'f' && "image"@[0] == 'i');
    assert("watermark_x"@[10] == 'x' && "watermark_y"@[10] == 'y');
}

/// A numeric field is read into the wish of its own name and into no other: as the number that it
/// holds, as none if it is blank, and a field that holds anything else is refused.
#[verifier::spinoff_prover]
pub proof fn law_number_fields(form: Filled, part: Given)
    ensures
        ({
            let read = |put: spec_fn(Option<u32>) -> Wishes|
                match optional_number(part.text) {
                    Ok(number) => taken(form, part) == Ok::<Filled, BadRequest>(
                        Filled { wishes: put(number), ..form },
                    ),
                    Err(_) => taken(form, part) is Err,
                };
            &&& part.name == Some("resize_width"@) ==> read(
                |number: Option<u32>| Wishes { resize_width: number, ..form.wishes },
            )
            &&& part.name == Some("resize_height"@) ==> read(
                |number: Option<u32>| Wishes { resize_height: number, ..form.wishes },
            )
            &&& part.name == Some("crop_x1"@) ==> read(
                |number: Option<u32>| Wishes { crop_x1: number, ..form.wishes },
            )
            &&& part.name == Some("crop_y1"@) ==> read(
                |number: Option<u32>| Wishes { crop_y1: number, ..form.wishes },
            )
            &&& part.name == Some("crop_x2"@) ==> read(
                |number: Option<u32>| Wishes { crop_x2: number, ..form.wishes },
            )
            &&& part.name == Some("crop_y2"@) ==> read(
                |number: Option<u32>| Wishes { crop_y2: number, ..form.wishes },
            )
            &&& part.name == Some("watermark_x"@) ==> read(
                |number: Option<u32>| Wishes { watermark_x: number, ..form.wishes },
            )
            &&& part.name == Some("watermark_y"@) ==> read(
                |number: Option<u32>| Wishes { watermark_y: number, ..form.wishes },
            )
        }),
{
    lemma_field_names_differ();
}

/// A field that names a way to resize, a sampling filter or a colour filter is read into the wish of
/// its own name and into no other: as the text that it holds, or none if it is blank.
#[verifier::spinoff_prover]
pub proof fn law_text_fields(form: Filled, part: Given)
    ensures
        ({
            let text = if is_blank(part.text) {
                None
            } else {
                Some(trimmed(part.text))
            };
            let becomes = |wishes: Wishes|
                taken(form, part) == Ok::<Filled, BadRequest>(Filled { wishes, ..form });
            &&& part.name == Some("resize_type"@) ==> becomes(
                Wishes { resize_type: text, ..form.wishes },
            )
            &&& part.name == Some("resize_filter"@) ==> becomes(
                Wishes { resize_filter: text, ..form.wishes },
            )
            &&& part.name == Some("image_filter"@) ==> becomes(
                Wishes { image_filter: text, ..form.wishes },
            )
        }),
{
    lemma_field_names_differ();
    law_blank_text_is_none(part.text);
}

/// A tick box is read into the wish of its own name and into no other: as ticked by one of the four
/// words that mean it, and else as not ticked.
#[verifier::spinoff_prover]
pub proof fn law_tick_fields(form: Filled, part: Given)
    ensures
        ({
            let word = trimmed(part.text);
            let ticked = word == "true"@ || word == "1"@ || word == "on"@ || word == "yes"@;
            let becomes = |wishes: Wishes|
                taken(form, part) == Ok::<Filled, BadRequest>(Filled { wishes, ..form });
            &&& part.name == Some("fliph"@) ==> becomes(
                Wishes { fliph: ticked, ..form.wishes },
            )
            &&& part.name == Some("flipv"@) ==> becomes(
                Wishes { flipv: ticked, ..form.wishes },
            )
            &&& part.name == Some("watermark"@) ==> becomes(
                Wishes { watermark: ticked, ..form.wishes },
            )
        }),
{
    lemma_field_names_differ();
}

/// The contrast field is read into the wish of its name and into no other, as the amount that its text
/// was read as, and refused where that was refused. The image field changes no wish; its file name
/// always counts, even if it has none, and its bytes only if there are any.
#[verifier::spinoff_prover]
pub proof fn law_contrast_and_image_fields(form: Filled, part: Given)
    ensures
        part.name == Some("contrast"@) ==> match part.amount {
            Ok(amount) => taken(form, part) == Ok::<Filled, BadRequest>(
                Filled { wishes: Wishes { contrast: amount, ..form.wishes }, ..form },
            ),
            Err(_) => taken(form, part) is Err,
        },
        part.name == Some("image"@) ==> {
            &&& taken(form, part) is Ok
            &&& taken(form, part)->Ok_0.wishes == form.wishes
            &&& taken(form, part)->Ok_0.original_filename == part.file_name
            &&& part.data.len() > 0 ==> taken(form, part)->Ok_0.image == Some(part.data)
            &&& part.data.len() == 0 ==> taken(form, part)->Ok_0.image == form.image
        },
{
    lemma_field_names_differ();
}

/// There are sixteen fields that the form knows, and how each is to be read. A part of any other name,
/// or of none, changes nothing.
#[verifier::spinoff_prover]
pub proof fn law_known_fields(form: Filled, part: Given, name: Seq<char>)
    ensures
        kind_of(name) == FieldKind::Image <==> name == "image"@,
        kind_of(name) == FieldKind::Fraction <==> name == "contrast"@,
        kind_of(name) == FieldKind::Text <==> {
            ||| name == "resize_width"@
            ||| name == "resize_height"@
            ||| name == "resize_type"@
            ||| name == "resize_filter"@
            ||| name == "crop_x1"@
            ||| name == "crop_y1"@
            ||| name == "crop_x2"@
            ||| name == "crop_y2"@
            ||| name == "image_filter"@
            ||| name == "fliph"@
            ||| name == "flipv"@
            ||| name == "watermark"@
            ||| name == "watermark_x"@
            ||| name == "watermark_y"@
        },
        kind_of(name) == FieldKind::Unknown && part.name == Some(name) ==> taken(form, part) == Ok::<
            Filled,
            BadRequest,
        >(form),
        part.name is None ==> taken(form, part) == Ok::<Filled, BadRequest>(form),
{
    lemma_field_names_differ();
}

/// The parts of a form are read from the first to the last: the first part first, and the others into
/// what it leaves; a part that is refused has the form refused, and a form without parts stays as it
/// was.
pub proof fn law_parts_in_turn(form: Filled, part: Given, rest: Seq<Given>)
    ensures
        taken_all(form, Seq::empty()) == Ok::<Filled, BadRequest>(form),
        taken(form, part) matches Ok(next) ==> taken_all(form, seq![part] + rest) == taken_all(
            next,
            rest,
        ),
        taken(form, part) is Err ==> taken_all(form, seq![part] + rest) is Err,
{
    let parts = seq![part] + rest;
    assert(parts.first() == part);
    assert(parts.drop_first() == rest);
}

/// A form that asks for nothing, and has read nothing, has no image, no file name and no steps.
pub proof fn law_nothing_filled_in()
    ensures
        Filled::none().image is None,
        Filled::none().original_filename is None,
        wished_steps(Filled::none().wishes) == Seq::<Spec>::empty(),
        Filled::none().wishes.resize_type is None,
        Filled::none().wishes.resize_filter is None,
        Filled::none().wishes.resize_width is None,
        Filled::none().wishes.resize_height is None,
        Filled::none().wishes.crop_x1 is None,
        Filled::none().wishes.crop_y1 is None,
        Filled::none().wishes.crop_x2 is None,
        Filled::none().wishes.crop_y2 is None,
        Filled::none().wishes.contrast is None,
        Filled::none().wishes.watermark_x is None,
        Filled::none().wishes.watermark_y is None,
{
}

/// What is said of the wishes of a form is said of its own fields, one by one.
pub proof fn law_wishes_are_the_options(options: ProcessOptions)
    ensures
        options@.resize_width == options.resize_width,
        options@.resize_height == options.resize_height,
        options.resize_type matches Some(text) ==> options@.resize_type == Some(text@),
        options.resize_type is None ==> options@.resize_type is None,
        options.resize_filter matches Some(text) ==> options@.resize_filter == Some(text@),
        options.resize_filter is None ==> options@.resize_filter is None,
        options@.crop_x1 == options.crop_x1,
        options@.crop_y1 == options.crop_y1,
        options@.crop_x2 == options.crop_x2,
        options@.crop_y2 == options.crop_y2,
        options@.contrast == options.contrast,
        options.image_filter matches Some(text) ==> options@.image_filter == Some(text@),
        options.image_filter is None ==> options@.image_filter is None,
        options@.fliph == options.fliph,
        options@.flipv == options.flipv,
        options@.watermark == options.watermark,
        options@.watermark_x == options.watermark_x,
        options@.watermark_y == options.watermark_y,
{
}

/// Of a field that comes twice, the last one counts.
pub proof fn law_last_field_counts(
    wishes: Wishes,
    name: Seq<char>,
    first: Seq<char>,
    second: Seq<char>,
)
    requires
        with_text(wishes, name, first) is Ok,
    ensures
        with_text(with_text(wishes, name, first)->Ok_0, name, second) == with_text(
            wishes,
            name,
            second,
        ),
{
}

/// A field that is not read as a text changes no wish when it is taken for one.
pub proof fn law_other_fields_ignored(wishes: Wishes, name: Seq<char>, text: Seq<char>)
    requires
        !is_text_field(name),
    ensures
        with_text(wishes, name, text) == Ok::<Wishes, BadRequest>(wishes),
{
}

/// Fields of different names may come in either order.
#[verifier::spinoff_prover]
#[verifier::rlimit(60)]
pub proof fn law_fields_in_any_order(
    wishes: Wishes,
    name: Seq<char>,
    text: Seq<char>,
    other_name: Seq<char>,
    other_text: Seq<char>,
)
    requires
        name != other_name,
        with_text(wishes, name, text) is Ok,
        with_text(wishes, other_name, other_text) is Ok,
    ensures
        with_text(with_text(wishes, name, text)->Ok_0, other_name, other_text) == with_text(
            with_text(wishes, other_name, other_text)->Ok_0,
            name,
            text,
        ),
{
}

/// Reading two lists of parts in one go is reading the first list and then the second.
pub proof fn law_parts_in_parts(form: Filled, first: Seq<Given>, second: Seq<Given>)
    ensures
        taken_all(form, first + second) == match taken_all(form, first) {
            Ok(next) => taken_all(next, second),
            Err(refusal) => Err(refusal),
        },
    decreases first.len(),
{
    let all = first + second;
    if first.len() == 0 {
        assert(all == second);
    } else {
        assert(all.first() == first.first());
        assert(all.drop_first() == first.drop_first() + second);
        match taken(form, first.first()) {
            Ok(next) => law_parts_in_parts(next, first.drop_first(), second),
            Err(_) => {},
        }
    }
}

/// Wherever a part comes that has no name, or one that the form does not know, it changes nothing.
pub proof fn law_unknown_part_ignored(
    form: Filled,
    before: Seq<Given>,
    part: Given,
    after: Seq<Given>,
)
    requires
        is_passed_over(part),
    ensures
        taken_all(form, before + seq![part] + after) == taken_all(form, before + after),
{
    law_parts_in_parts(form, before + seq![part], after);
    law_parts_in_parts(form, before, seq![part]);
    law_parts_in_parts(form, before, after);
    match taken_all(form, before) {
        Ok(next) => {
            let single = seq![part];
            assert(single.first() == part);
            assert(single.drop_first().len() == 0);
            reveal_with_fuel(taken_all, 2);
            assert(taken(next, part) == Ok::<Filled, BadRequest>(next));
        },
        Err(_) => {},
    }
}

/// Once a part has been read, it does not matter what an earlier part of its name said.
proof fn lemma_overwritten(wishes: Wishes, first: Given, second: Given)
    requires
        first.name == second.name,
        is_readable_option(first),
        is_readable_option(second),
    ensures
        with_part(wishes, first) is Ok,
        with_part(wishes, second) is Ok,
        with_part(with_part(wishes, first)->Ok_0, second) == with_part(wishes, second),
{
}

/// Two sets of wishes that a part makes equal are made equal by it after any other part too.
proof fn lemma_equal_later(one: Wishes, other: Wishes, part: Given, last: Given)
    requires
        is_readable_option(last),
        with_part(one, last) == with_part(other, last),
    ensures
        match (with_part(one, part), with_part(other, part)) {
            (Ok(a), Ok(b)) => with_part(a, last) == with_part(b, last),
            (Err(a), Err(b)) => a == b,
            _ => false,
        },
{
}

/// Two forms that a part makes equal are made equal by it after any other parts too.
proof fn lemma_equal_in_the_end(
    one: Filled,
    other: Filled,
    between: Seq<Given>,
    last: Given,
    after: Seq<Given>,
)
    requires
        is_readable_option(last),
        one.image == other.image,
        one.original_filename == other.original_filename,
        with_part(one.wishes, last) == with_part(other.wishes, last),
    ensures
        taken_all(one, between + seq![last] + after) == taken_all(
            other,
            between + seq![last] + after,
        ),
    decreases between.len(),
{
    let all = between + seq![last] + after;
    if between.len() == 0 {
        assert(all.first() == last);
        lemma_overwritten(one.wishes, last, last);
        assert(taken(one, last) == taken(other, last));
    } else {
        let part = between.first();
        assert(all.first() == part);
        assert(all.drop_first() == between.drop_first() + seq![last] + after);
        lemma_equal_later(one.wishes, other.wishes, part, last);
        match (taken(one, part), taken(other, part)) {
            (Ok(a), Ok(b)) => lemma_equal_in_the_end(a, b, between.drop_first(), last, after),
            _ => {},
        }
    }
}

/// Of two parts of one name that both can be read, the earlier might as well not have come, whatever
/// comes before, between and after them. That holds too where the later one is blank.
pub proof fn law_earlier_part_ignored(
    form: Filled,
    before: Seq<Given>,
    first: Given,
    between: Seq<Given>,
    second: Given,
    after: Seq<Given>,
)
    requires
        first.name == second.name,
        is_readable_option(first),
        is_readable_option(second),
    ensures
        taken_all(form, before + seq![first] + (between + seq![second] + after)) == taken_all(
            form,
            before + (between + seq![second] + after),
        ),
{
    let rest = between + seq![second] + after;
    law_parts_in_parts(form, before + seq![first], rest);
    law_parts_in_parts(form, before, seq![first]);
    law_parts_in_parts(form, before, rest);
    match taken_all(form, before) {
        Ok(next) => {
            let single = seq![first];
            assert(single.first() == first);
            assert(single.drop_first().len() == 0);
            reveal_with_fuel(taken_all, 2);
            lemma_overwritten(next.wishes, first, second);
            lemma_option_is_no_image(first);
            let changed = taken(next, first)->Ok_0;
            lemma_equal_in_the_end(changed, next, between, second, after);
        },
        Err(_) => {},
    }
}

/// A part that asks for something is no image.
proof fn lemma_option_is_no_image(part: Given)
    requires
        is_readable_option(part),
    ensures
        part.name != Some("image"@),
{
}

} // verus!
