use thumbor::form::{field_kind, FieldKind, ProcessForm};
use thumbor::pb::Spec;
use thumbor::text::BadRequest;
use thumbor::upload::{
    after_verify, after_write, begin_processing, begin_upload, check_upload, name_upload, on_part,
    on_part_bytes, plan_processing, Part, PartAction, UploadResponse, UploadStep, UploadedImage,
    WriteError, MAX_FILE_SIZE,
};

const ID: &str = "67e55044-10b1-426f-9247-bb680e5fe0c8";

fn upload(name: Option<&str>, data: Vec<u8>) -> UploadedImage {
    UploadedImage { data, original_filename: name.map(str::to_string) }
}

fn assert_failure(response: &UploadResponse, message: &str) {
    assert!(!response.success);
    assert_eq!(response.message, message);
    assert_eq!(response.filename, None);
}

fn refused(parsed: Result<Option<UploadedImage>, String>) -> UploadResponse {
    match begin_upload(parsed) {
        UploadStep::Respond(response) => response,
        UploadStep::Store(_) => panic!("not refused"),
    }
}

fn is_id(text: &str) -> bool {
    text.len() == 36
        && text.char_indices().all(|(i, c)| match i {
            8 | 13 | 18 | 23 => c == '-',
            14 => c == '4',
            19 => "89ab".contains(c),
            _ => c.is_ascii_digit() || ('a'..='f').contains(&c),
        })
}

#[test]
fn image_field_is_read() {
    let part = Part::Field { name: Some("image".to_string()), file_name: Some("a.png".to_string()) };
    match on_part(part) {
        PartAction::Read { original_filename } => assert_eq!(original_filename.as_deref(), Some("a.png")),
        _ => panic!("not read"),
    }
}

#[test]
fn other_parts_are_passed_over() {
    for name in [None, Some("file"), Some(""), Some("Image")] {
        let part = Part::Field { name: name.map(str::to_string), file_name: None };
        assert!(matches!(on_part(part), PartAction::Next));
    }
}

#[test]
fn end_and_failure_of_the_parts() {
    assert!(matches!(on_part(Part::End), PartAction::NoImage));
    match on_part(Part::Failed("broken".to_string())) {
        PartAction::Unreadable(message) => assert_eq!(message, "Multipart parsing failed: broken"),
        _ => panic!("readable"),
    }
}

#[test]
fn bytes_of_the_image_field() {
    let read = on_part_bytes(Some("a".to_string()), Ok(vec![1]));
    assert!(matches!(read, Ok(UploadedImage { data, original_filename })
        if data == [1] && original_filename.as_deref() == Some("a")));
    match on_part_bytes(None, Err("cut off".to_string())) {
        Err(message) => assert_eq!(message, "Failed to read file bytes: cut off"),
        Ok(_) => panic!("read"),
    }
}

#[test]
fn missing_image_is_refused() {
    assert_failure(&refused(Ok(None)), "No image field found in request");
}

#[test]
fn unreadable_request_is_refused() {
    assert_failure(
        &refused(Err("Multipart parsing failed: x".to_string())),
        "Invalid request format: Multipart parsing failed: x",
    );
}

#[test]
fn empty_file_is_refused() {
    assert_failure(&refused(Ok(Some(upload(Some("a.png"), vec![])))), "Empty file");
}

#[test]
fn large_file_is_refused() {
    assert_eq!(MAX_FILE_SIZE, 10485760);
    let limit = MAX_FILE_SIZE as usize;
    assert_failure(
        &refused(Ok(Some(upload(None, vec![0; limit + 1])))),
        "File too large: 10485761 bytes (max: 10485760 bytes)",
    );
    match check_upload(Ok(Some(upload(Some("a"), vec![7; limit])))) {
        Ok(passed) => {
            assert_eq!(passed.data.len(), limit);
            assert_eq!(passed.original_filename.as_deref(), Some("a"));
        }
        Err(_) => panic!("refused"),
    }
}

#[test]
fn upload_is_named_by_name_or_content() {
    assert_eq!(name_upload(upload(Some("a.PNG"), vec![1]), ID).filename, format!("{ID}.png"));
    assert_eq!(name_upload(upload(None, b"GIF89a".to_vec()), ID).filename, format!("{ID}.gif"));
    let storing = name_upload(upload(Some("../x"), b"?".to_vec()), ID);
    assert_eq!(storing.filename, format!("{ID}.bin"));
    assert_eq!(storing.data, b"?");
}

#[test]
fn upload_is_stored_under_a_fresh_name() {
    let mut names = Vec::new();
    for _ in 0..2 {
        match begin_upload(Ok(Some(upload(Some("../../a.b/c.JpG"), vec![1, 2, 3])))) {
            UploadStep::Store(storing) => {
                assert_eq!(storing.data, [1, 2, 3]);
                let (id, extension) = storing.filename.split_once('.').unwrap();
                assert!(is_id(id));
                assert_eq!(extension, "jpg");
                names.push(storing.filename);
            }
            UploadStep::Respond(_) => panic!("refused"),
        }
    }
    assert_ne!(names[0], names[1]);
}

#[test]
fn failed_write_is_answered() {
    assert!(after_write(Ok(())).is_none());
    let failed = WriteError { error: "disk full".to_string(), kind: "StorageFull".to_string() };
    assert_failure(
        &after_write(Err(failed)).unwrap(),
        "Failed to save file: disk full (kind: StorageFull)",
    );
}

#[test]
fn stored_upload_is_answered() {
    let response = after_verify("n.png".to_string(), "/up/n.png", Ok(()));
    assert!(response.success);
    assert_eq!(response.message, "Image uploaded and saved to: /up/n.png");
    assert_eq!(response.filename.as_deref(), Some("n.png"));
    assert_failure(
        &after_verify("n.png".to_string(), "/up/n.png", Err("gone".to_string())),
        "File created but verification failed: gone",
    );
}

#[test]
fn plan_follows_the_form() {
    let mut form = ProcessForm::new();
    form.accept_image(Some("p.jpeg".to_string()), vec![9]);
    form.accept_text("watermark", "on").unwrap();
    let plan = plan_processing(form, ID).ok().unwrap();
    assert_eq!(plan.image, [9]);
    assert_eq!(plan.original_filename, format!("{ID}_original.jpeg"));
    assert_eq!(plan.processed_filename, format!("{ID}_processed.jpg"));
    assert_eq!(plan.specs, vec![Spec::new_watermark(20, 20)]);
}

#[test]
fn form_without_image_is_refused() {
    assert_eq!(plan_processing(ProcessForm::new(), ID).err(), Some(BadRequest));
    assert_eq!(begin_processing(ProcessForm::new()).err(), Some(BadRequest));
}

#[test]
fn plan_shares_one_fresh_name() {
    let mut form = ProcessForm::new();
    form.accept_image(None, b"GIF89a".to_vec());
    let plan = begin_processing(form).ok().unwrap();
    let id = plan.processed_filename.strip_suffix("_processed.jpg").unwrap();
    assert!(is_id(id));
    assert_eq!(plan.original_filename, format!("{id}_original.gif"));
}

#[test]
fn stored_names_never_clash() {
    let other = "00000000-0000-4000-8000-000000000000";
    let mut names = Vec::new();
    for id in [ID, other] {
        let mut form = ProcessForm::new();
        form.accept_image(Some("p.jpg".to_string()), vec![1]);
        let plan = plan_processing(form, id).ok().unwrap();
        names.push(name_upload(upload(Some("p.jpg"), vec![1]), id).filename);
        names.push(plan.original_filename);
        names.push(plan.processed_filename);
    }
    for i in 0..names.len() {
        assert!(names[i].chars().all(|c| c.is_ascii_lowercase() || c.is_ascii_digit() || "-_.".contains(c)));
        for j in 0..i {
            assert_ne!(names[i], names[j]);
        }
    }
}

/// Fills a form with text fields round an image, passes over the fields that it does not know, and
/// plans for it.
fn planned(fields: &[(&str, &str)]) -> (Vec<u8>, String, String, Vec<Spec>) {
    let mut form = ProcessForm::new();
    form.accept_image(Some("p.png".to_string()), vec![9]);
    for (name, value) in fields {
        if field_kind(name) == FieldKind::Text {
            form.accept_text(name, value).unwrap();
        } else {
            assert_eq!(field_kind(name), FieldKind::Unknown);
        }
    }
    let plan = plan_processing(form, ID).ok().unwrap();
    (plan.image, plan.original_filename, plan.processed_filename, plan.specs)
}

#[test]
fn unknown_parts_keep_the_plan() {
    let fields = [("watermark", "on"), ("watermark_x", "3"), ("fliph", "1")];
    let plan = planned(&fields);
    assert_eq!(plan.3.len(), 2);
    for place in 0..=fields.len() {
        let mut more = fields.to_vec();
        more.insert(place, ("colour", "red"));
        assert_eq!(planned(&more), plan);
    }
}

#[test]
fn earlier_parts_of_a_name_keep_the_plan() {
    let later = [("watermark", "on"), ("fliph", "true"), ("watermark_x", "8"), ("watermark_y", "1")];
    let plan = planned(&later);
    assert_eq!(plan.3.last(), Some(&Spec::new_watermark(8, 1)));
    for place in 0..=2 {
        let mut more = later.to_vec();
        more.insert(place, ("watermark_x", "7"));
        assert_eq!(planned(&more), plan);
    }
    let blank = [("watermark_x", "7"), ("watermark", "on"), ("watermark_x", " ")];
    assert_eq!(planned(&blank), planned(&blank[1..]));
    assert_eq!(planned(&blank).3, vec![Spec::new_watermark(20, 20)]);
}
