//! Uploads: which are refused, under which names they are stored, and what is answered.
use crate::form::{
    build_specs, chars, is_passed_over, is_readable_option, law_earlier_part_ignored,
    law_unknown_part_ignored, taken_all, wished_steps, Filled, Given, ProcessForm,
};
use crate::format::{
    detect_upload_extension, guessed_format, is_plain, law_upload_extension_is_plain,
    optional_view, upload_extension, ImageFormat,
};
use crate::pb::Spec;
use crate::text::{decimal, decimal_text, joined, same_text, BadRequest};
use uuid::Uuid;
use vstd::prelude::*;
use vstd::string::*;

verus! {

/// The number of bytes above which an upload is refused: ten mebibytes.
pub const MAX_FILE_SIZE: u64 = 10 * 1024 * 1024;

/// An uploaded image.
pub struct UploadedImage {
    pub data: Vec<u8>,
    pub original_filename: Option<String>,
}

/// What an upload is answered.
#[derive(Debug)]
pub struct UploadResponse {
    pub success: bool,
    pub message: String,
    pub filename: Option<String>,
}

/// What an answer says.
pub struct Answer {
    pub success: bool,
    pub message: Seq<char>,
    pub filename: Option<Seq<char>>,
}

impl View for UploadResponse {
    type V = Answer;

    open spec fn view(&self) -> Answer {
        Answer {
            success: self.success,
            message: self.message@,
            filename: chars(self.filename),
        }
    }
}

/// The answer to an upload that came to nothing.
pub open spec fn failure(message: Seq<char>) -> Answer {
    Answer { success: false, message, filename: None }
}

/// The answer to an upload that was stored.
pub open spec fn success(path: Seq<char>, filename: Seq<char>) -> Answer {
    Answer {
        success: true,
        message: "Image uploaded and saved to: "@ + path,
        filename: Some(filename),
    }
}

/// Makes the answer to an upload that came to nothing.
fn fail(message: String) -> (response: UploadResponse)
    ensures
        response@ == failure(message@),
{
    UploadResponse { success: false, message, filename: None }
}

/// What the next part of a multipart request turned out to be.
pub enum Part {
    /// A field, with its name and the file name that it carries, where it has them.
    Field { name: Option<String>, file_name: Option<String> },
    /// The end of the request.
    End,
    /// An error, in words.
    Failed(String),
}

/// What to do about a part of a multipart request.
pub enum PartAction {
    /// Go on to the next part.
    Next,
    /// Read the bytes of the field, which came with the given file name.
    Read { original_filename: Option<String> },
    /// Stop: there is no image.
    NoImage,
    /// Stop: the request cannot be read, in words.
    Unreadable(String),
}

/// The first field called `image` is the upload; other fields, and those without a name, are passed
/// over.
pub fn on_part(part: Part) -> (action: PartAction)
    ensures
        match part {
            Part::Field { name, file_name } => if chars(name) == Some("image"@) {
                action == (PartAction::Read { original_filename: file_name })
            } else {
                action == PartAction::Next
            },
            Part::End => action == PartAction::NoImage,
            Part::Failed(error) => action matches PartAction::Unreadable(message) && message@
                == "Multipart parsing failed: "@ + error@,
        },
{
    match part {
        Part::Field { name, file_name } => match name {
            Some(given) => {
                if same_text(given.as_str(), "image") {
                    PartAction::Read { original_filename: file_name }
                } else {
                    PartAction::Next
                }
            },
            None => PartAction::Next,
        },
        Part::End => PartAction::NoImage,
        Part::Failed(error) => PartAction::Unreadable(
            joined("Multipart parsing failed: ", error.as_str()),
        ),
    }
}

/// Makes the upload out of the bytes of the image field, or says why they could not be read.
pub fn on_part_bytes(original_filename: Option<String>, bytes: Result<Vec<u8>, String>) -> (read:
    Result<UploadedImage, String>)
    ensures
        match bytes {
            Ok(data) => read == Ok::<UploadedImage, String>(
                UploadedImage { data, original_filename },
            ),
            Err(error) => read matches Err(message) && message@ == "Failed to read file bytes: "@
                + error@,
        },
{
    match bytes {
        Ok(data) => Ok(UploadedImage { data, original_filename }),
        Err(error) => Err(joined("Failed to read file bytes: ", error.as_str())),
    }
}

/// Why an upload of the given number of bytes is refused, if it is.
pub open spec fn size_refusal(size: nat) -> Option<Seq<char>> {
    if size > MAX_FILE_SIZE {
        Some(
            "File too large: "@ + decimal_text(size) + " bytes (max: "@ + decimal_text(
                MAX_FILE_SIZE as nat,
            ) + " bytes)"@,
        )
    } else if size == 0 {
        Some("Empty file"@)
    } else {
        None
    }
}

/// Why an upload is refused, by what came of reading the request: an image, none, or an error.
pub open spec fn refusal(parsed: Result<Option<UploadedImage>, String>) -> Option<Seq<char>> {
    match parsed {
        Ok(Some(upload)) => size_refusal(upload.data@.len()),
        Ok(None) => Some("No image field found in request"@),
        Err(error) => Some("Invalid request format: "@ + error@),
    }
}

/// Lets an upload pass, or makes the answer that refuses it.
pub fn check_upload(parsed: Result<Option<UploadedImage>, String>) -> (checked: Result<
    UploadedImage,
    UploadResponse,
>)
    ensures
        match refusal(parsed) {
            None => checked is Ok && parsed == Ok::<Option<UploadedImage>, String>(
                Some(checked->Ok_0),
            ),
            Some(message) => checked matches Err(response) && response@ == failure(message),
        },
{
    match parsed {
        Ok(Some(upload)) => {
            let size: u64 = upload.data.len() as u64;
            if size > MAX_FILE_SIZE {
                let mut message = joined("File too large: ", decimal(size).as_str());
                message.append(" bytes (max: ");
                message.append(decimal(MAX_FILE_SIZE).as_str());
                message.append(" bytes)");
                Err(fail(message))
            } else if size == 0 {
                Err(fail("Empty file".to_owned()))
            } else {
                Ok(upload)
            }
        },
        Ok(None) => Err(fail("No image field found in request".to_owned())),
        Err(error) => Err(fail(joined("Invalid request format: ", error.as_str()))),
    }
}

/// A small hexadecimal digit.
pub open spec fn is_small_hex(c: char) -> bool {
    '0' <= c <= '9' || 'a' <= c <= 'f'
}

/// A random identifier: thirty-two small hexadecimal digits in five groups, of which two tell that
/// it is random.
pub open spec fn is_upload_id(id: Seq<char>) -> bool {
    &&& id.len() == 36
    &&& id[8] == '-' && id[13] == '-' && id[18] == '-' && id[23] == '-'
    &&& forall|i: int|
        0 <= i < 36 && i != 8 && i != 13 && i != 18 && i != 23 ==> is_small_hex(#[trigger] id[i])
    &&& id[14] == '4'
    &&& id[19] == '8' || id[19] == '9' || id[19] == 'a' || id[19] == 'b'
}

/// `uuid::Uuid::new_v4` draws a random UUID, and its `Display` writes it in small hexadecimal
/// digits in groups of 8, 4, 4, 4 and 12 with hyphens between them. Which one it draws is left to
/// chance. It panics if the system has no random numbers to give.
#[verifier::external_body]
fn new_upload_id() -> (id: String)
    ensures
        is_upload_id(id@),
{
    Uuid::new_v4().to_string()
}

/// The name that an upload is stored under.
pub open spec fn upload_name(id: Seq<char>, extension: Seq<char>) -> Seq<char> {
    id + "."@ + extension
}

/// The name that an image is stored under before it is edited.
pub open spec fn original_name(id: Seq<char>, extension: Seq<char>) -> Seq<char> {
    id + "_original."@ + extension
}

/// The name that an image is stored under once it is edited.
pub open spec fn processed_name(id: Seq<char>) -> Seq<char> {
    id + "_processed.jpg"@
}

/// An upload that is to be stored.
pub struct Storing {
    pub filename: String,
    pub data: Vec<u8>,
}

/// What to do about an upload request.
pub enum UploadStep {
    /// Answer it.
    Respond(UploadResponse),
    /// Store the image, and then say how that went.
    Store(Storing),
}

/// Names an upload that passed, by an identifier.
pub fn name_upload(upload: UploadedImage, id: &str) -> (storing: Storing)
    ensures
        storing.data == upload.data,
        storing.filename@ == upload_name(
            id@,
            upload_extension(chars(upload.original_filename), guessed_format(upload.data@)),
        ),
{
    let extension = detect_upload_extension(
        borrowed(&upload.original_filename),
        upload.data.as_slice(),
    );
    let mut filename = joined(id, ".");
    filename.append(extension.as_str());
    Storing { filename, data: upload.data }
}

/// A text that may be absent, without its owner.
fn borrowed(text: &Option<String>) -> (same: Option<&str>)
    ensures
        optional_view(same) == chars(*text),
{
    match text {
        Some(inner) => Some(inner.as_str()),
        None => None,
    }
}

/// Decides about an upload request, by what came of reading it: refuses it, or has it stored under
/// a fresh name.
pub fn begin_upload(parsed: Result<Option<UploadedImage>, String>) -> (step: UploadStep)
    ensures
        match refusal(parsed) {
            Some(message) => step matches UploadStep::Respond(response) && response@ == failure(
                message,
            ),
            None => {
                let upload = parsed->Ok_0->Some_0;
                step matches UploadStep::Store(storing) && storing.data == upload.data && exists|
                    id: Seq<char>,
                | #[trigger]
                    is_upload_id(id) && storing.filename@ == upload_name(
                        id,
                        upload_extension(
                            chars(upload.original_filename),
                            guessed_format(upload.data@),
                        ),
                    )
            },
        },
{
    match check_upload(parsed) {
        Ok(upload) => {
            let id = new_upload_id();
            UploadStep::Store(name_upload(upload, id.as_str()))
        },
        Err(response) => UploadStep::Respond(response),
    }
}

/// Why a file could not be written: the error in words, and its kind.
pub struct WriteError {
    pub error: String,
    pub kind: String,
}

/// What is answered if the file could not be written; nothing yet if it was.
pub open spec fn write_answer(written: Result<(), WriteError>) -> Option<Answer> {
    match written {
        Ok(_) => None,
        Err(failed) => Some(
            failure("Failed to save file: "@ + failed.error@ + " (kind: "@ + failed.kind@ + ")"@),
        ),
    }
}

/// What is answered once the file was looked for where it had been written.
pub open spec fn verify_answer(
    filename: Seq<char>,
    path: Seq<char>,
    seen: Result<(), String>,
) -> Answer {
    match seen {
        Ok(_) => success(path, filename),
        Err(error) => failure("File created but verification failed: "@ + error@),
    }
}

/// The answer to an upload that could not be written, or nothing if it was and is to be looked
/// for.
pub fn after_write(written: Result<(), WriteError>) -> (response: Option<UploadResponse>)
    ensures
        match write_answer(written) {
            None => response is None,
            Some(answer) => response matches Some(made) && made@ == answer,
        },
{
    match written {
        Ok(_) => None,
        Err(failed) => {
            let mut message = joined("Failed to save file: ", failed.error.as_str());
            message.append(" (kind: ");
            message.append(failed.kind.as_str());
            message.append(")");
            Some(fail(message))
        },
    }
}

/// The answer to an upload that was written to a path, by what came of looking for the file there.
pub fn after_verify(filename: String, path: &str, seen: Result<(), String>) -> (response:
    UploadResponse)
    ensures
        response@ == verify_answer(filename@, path@, seen),
{
    match seen {
        Ok(_) => UploadResponse {
            success: true,
            message: joined("Image uploaded and saved to: ", path),
            filename: Some(filename),
        },
        Err(error) => fail(
            joined("File created but verification failed: ", error.as_str()),
        ),
    }
}

/// What an upload is answered in the end: by what came of reading the request, of writing the file
/// under a name to a path, and of looking for it there.
pub open spec fn upload_answer(
    parsed: Result<Option<UploadedImage>, String>,
    filename: Seq<char>,
    path: Seq<char>,
    written: Result<(), WriteError>,
    seen: Result<(), String>,
) -> Answer {
    match refusal(parsed) {
        Some(message) => failure(message),
        None => match write_answer(written) {
            Some(answer) => answer,
            None => verify_answer(filename, path, seen),
        },
    }
}

/// An upload succeeds exactly if it is not refused, the file is written and it is found again; and
/// the answer names the file exactly if the upload succeeds.
pub proof fn law_success_names_the_file(
    parsed: Result<Option<UploadedImage>, String>,
    filename: Seq<char>,
    path: Seq<char>,
    written: Result<(), WriteError>,
    seen: Result<(), String>,
)
    ensures
        ({
            let answer = upload_answer(parsed, filename, path, written, seen);
            &&& answer.success <==> refusal(parsed) is None && written is Ok && seen is Ok
            &&& answer.filename == if answer.success {
                Some(filename)
            } else {
                None
            }
        }),
{
}

/// An image that is to be stored, edited and stored again.
pub struct ProcessPlan {
    pub image: Vec<u8>,
    pub original_filename: String,
    pub processed_filename: String,
    pub specs: Vec<Spec>,
}

/// What a plan says.
pub struct Planned {
    pub image: Seq<u8>,
    pub original_filename: Seq<char>,
    pub processed_filename: Seq<char>,
    pub steps: Seq<Spec>,
}

impl View for ProcessPlan {
    type V = Planned;

    open spec fn view(&self) -> Planned {
        Planned {
            image: self.image@,
            original_filename: self.original_filename@,
            processed_filename: self.processed_filename@,
            steps: self.specs@,
        }
    }
}

/// The plan for what a form has been filled in with, by an identifier; none without an image.
pub open spec fn planned(form: Filled, id: Seq<char>) -> Option<Planned> {
    match form.image {
        Some(image) => Some(
            Planned {
                image,
                original_filename: original_name(
                    id,
                    upload_extension(form.original_filename, guessed_format(image)),
                ),
                processed_filename: processed_name(id),
                steps: wished_steps(form.wishes),
            },
        ),
        None => None,
    }
}

/// The plan for a form of the given parts, by an identifier; none where the form is refused.
pub open spec fn planned_for(parts: Seq<Given>, id: Seq<char>) -> Option<Planned> {
    match taken_all(Filled::none(), parts) {
        Ok(form) => planned(form, id),
        Err(_) => None,
    }
}

/// Wherever a part comes that has no name, or one that the form does not know, the plan stays the
/// same.
pub proof fn law_unknown_part_keeps_plan(
    before: Seq<Given>,
    part: Given,
    after: Seq<Given>,
    id: Seq<char>,
)
    requires
        is_passed_over(part),
    ensures
        planned_for(before + seq![part] + after, id) == planned_for(before + after, id),
{
    law_unknown_part_ignored(Filled::none(), before, part, after);
}

/// Of two parts of one name that both can be read, the plan goes by the later one alone.
pub proof fn law_earlier_part_keeps_plan(
    before: Seq<Given>,
    first: Given,
    between: Seq<Given>,
    second: Given,
    after: Seq<Given>,
    id: Seq<char>,
)
    requires
        first.name == second.name,
        is_readable_option(first),
        is_readable_option(second),
    ensures
        planned_for(before + seq![first] + (between + seq![second] + after), id) == planned_for(
            before + (between + seq![second] + after),
            id,
        ),
{
    law_earlier_part_ignored(Filled::none(), before, first, between, second, after);
}

/// A plan does what a form asks for, and stores under names made with an identifier.
pub open spec fn is_plan(plan: ProcessPlan, form: ProcessForm, id: Seq<char>) -> bool {
    &&& form.image == Some(plan.image)
    &&& plan.original_filename@ == original_name(
        id,
        upload_extension(chars(form.original_filename), guessed_format(plan.image@)),
    )
    &&& plan.processed_filename@ == processed_name(id)
    &&& plan.specs@ == wished_steps(form.options@)
}

/// Makes the plan for a form, with an identifier; a form without an image is refused.
pub fn plan_processing(form: ProcessForm, id: &str) -> (plan: Result<ProcessPlan, BadRequest>)
    ensures
        match plan {
            Ok(made) => is_plan(made, form, id@) && planned(form@, id@) == Some(made@),
            Err(_) => form.image is None && planned(form@, id@) is None,
        },
{
    match form.image {
        Some(image) => {
            let extension = detect_upload_extension(
                borrowed(&form.original_filename),
                image.as_slice(),
            );
            let mut original_filename = joined(id, "_original.");
            original_filename.append(extension.as_str());
            let processed_filename = joined(id, "_processed.jpg");
            let specs = build_specs(&form.options);
            Ok(ProcessPlan { image, original_filename, processed_filename, specs })
        },
        None => Err(BadRequest),
    }
}

/// Makes the plan for a form, under fresh names; a form without an image is refused.
pub fn begin_processing(form: ProcessForm) -> (plan: Result<ProcessPlan, BadRequest>)
    ensures
        match plan {
            Ok(made) => exists|id: Seq<char>| #[trigger]
                is_upload_id(id) && is_plan(made, form, id) && planned(form@, id) == Some(made@),
            Err(_) => form.image is None,
        },
{
    if form.image.is_none() {
        return Err(BadRequest);
    }
    let id = new_upload_id();
    plan_processing(form, id.as_str())
}

/// A text that can be the name of a file in a directory and leads nowhere else: it is made of small
/// letters, digits, hyphens, underscores and dots, and begins with a letter or a digit.
pub open spec fn is_safe_name(name: Seq<char>) -> bool {
    &&& name.len() > 0
    &&& is_small_hex(name[0])
    &&& forall|i: int|
        0 <= i < name.len() ==> ('a' <= #[trigger] name[i] <= 'z' || '0' <= name[i] <= '9'
            || name[i] == '-' || name[i] == '_' || name[i] == '.')
}

/// Whatever an upload is called and whatever it holds, the names that it is stored under lead
/// nowhere outside the directory for uploads.
pub proof fn law_stored_names_are_safe(
    id: Seq<char>,
    filename: Option<Seq<char>>,
    format: Option<ImageFormat>,
)
    requires
        is_upload_id(id),
    ensures
        is_safe_name(upload_name(id, upload_extension(filename, format))),
        is_safe_name(original_name(id, upload_extension(filename, format))),
        is_safe_name(processed_name(id)),
{
    reveal_strlit(".");
    reveal_strlit("_original.");
    reveal_strlit("_processed.jpg");
    reveal_strlit("_processed.");
    reveal_strlit("jpg");
    law_upload_extension_is_plain(filename, format);
    let extension = upload_extension(filename, format);
    assert(is_plain("jpg"@));
    lemma_safe_parts(id, "."@, extension);
    lemma_safe_parts(id, "_original."@, extension);
    lemma_safe_parts(id, "_processed."@, "jpg"@);
    assert(id + "_processed."@ + "jpg"@ == processed_name(id));
}

/// An identifier, a few fit characters and a plain extension make a safe name.
proof fn lemma_safe_parts(id: Seq<char>, middle: Seq<char>, extension: Seq<char>)
    requires
        is_upload_id(id),
        is_plain(extension),
        forall|i: int|
            0 <= i < middle.len() ==> ('a' <= #[trigger] middle[i] <= 'z' || middle[i] == '_'
                || middle[i] == '.'),
    ensures
        is_safe_name(id + middle + extension),
{
    let name = id + middle + extension;
    assert forall|i: int| 0 <= i < name.len() implies ('a' <= #[trigger] name[i] <= 'z' || '0'
        <= name[i] <= '9' || name[i] == '-' || name[i] == '_' || name[i] == '.') by {
        if i < 36 {
            assert(name[i] == id[i]);
        } else if i < 36 + middle.len() {
            assert(name[i] == middle[i - 36]);
        } else {
            assert(name[i] == extension[i - 36 - middle.len()]);
        }
    }
    assert(name[0] == id[0]);
}

/// Whatever was uploaded, no name that an image is stored under stands for two things: the names of
/// uploads, of images before and of images after editing differ, and so do names of one kind that
/// are made with different identifiers.
pub proof fn law_stored_names_never_clash(
    id: Seq<char>,
    extension: Seq<char>,
    other_id: Seq<char>,
    other_extension: Seq<char>,
)
    requires
        is_upload_id(id),
        is_upload_id(other_id),
    ensures
        upload_name(id, extension) != original_name(other_id, other_extension),
        upload_name(id, extension) != processed_name(other_id),
        original_name(id, extension) != processed_name(other_id),
        id != other_id ==> upload_name(id, extension) != upload_name(other_id, other_extension),
        id != other_id ==> original_name(id, extension) != original_name(other_id, other_extension),
        id != other_id ==> processed_name(id) != processed_name(other_id),
{
    reveal_strlit(".");
    reveal_strlit("_original.");
    reveal_strlit("_processed.jpg");
    assert(upload_name(id, extension)[36] == '.');
    assert(original_name(other_id, other_extension)[36] == '_');
    assert(processed_name(other_id)[36] == '_');
    assert(original_name(id, extension)[37] == 'o');
    assert(processed_name(other_id)[37] == 'p');
    assert(upload_name(id, extension).take(36) == id);
    assert(upload_name(other_id, other_extension).take(36) == other_id);
    assert(original_name(id, extension).take(36) == id);
    assert(original_name(other_id, other_extension).take(36) == other_id);
    assert(processed_name(id).take(36) == id);
    assert(processed_name(other_id).take(36) == other_id);
}

/// The decimal digits of the limit.
proof fn lemma_limit_digits()
    ensures
        decimal_text(10485760) == "10485760"@,
{
    reveal_strlit("10485760");
    reveal_with_fuel(decimal_text, 9);
    assert(decimal_text(10485760) == "10485760"@);
}

/// An upload that was read is let pass exactly if it has at least one byte and at most ten mebibytes.
/// A larger one is refused with its size and the limit, an empty one as empty.
pub proof fn law_upload_passes_by_size(upload: UploadedImage)
    ensures
        ({
            let size = upload.data@.len();
            let refused = refusal(Ok(Some(upload)));
            &&& refused is None <==> 1 <= size <= 10485760
            &&& size == 0 ==> refused == Some("Empty file"@)
            &&& size > 10485760 ==> refused == Some(
                "File too large: "@ + decimal_text(size) + " bytes (max: "@ + "10485760"@
                    + " bytes)"@,
            )
        }),
{
    lemma_limit_digits();
}

/// A request without an image is refused as such, and one that cannot be read with the reason.
pub proof fn law_request_without_image_is_refused(error: String)
    ensures
        refusal(Ok(None)) == Some("No image field found in request"@),
        refusal(Err(error)) == Some("Invalid request format: "@ + error@),
{
}

/// Whatever comes of an upload, exactly one thing is answered: a refusal with its reason, else that the
/// file could not be written, with the error and its kind, else that it could not be found again, with
/// the error, else that it is there, with its path and its name. Only the last is a success.
pub proof fn law_upload_answers(
    parsed: Result<Option<UploadedImage>, String>,
    filename: Seq<char>,
    path: Seq<char>,
    written: Result<(), WriteError>,
    seen: Result<(), String>,
)
    ensures
        ({
            let answer = upload_answer(parsed, filename, path, written, seen);
            match (refusal(parsed), written, seen) {
                (Some(reason), _, _) => !answer.success && answer.message == reason
                    && answer.filename is None,
                (None, Err(failed), _) => !answer.success && answer.message
                    == "Failed to save file: "@ + failed.error@ + " (kind: "@ + failed.kind@ + ")"@
                    && answer.filename is None,
                (None, Ok(_), Err(error)) => !answer.success && answer.message
                    == "File created but verification failed: "@ + error@ && answer.filename
                    is None,
                (None, Ok(_), Ok(_)) => answer.success && answer.message
                    == "Image uploaded and saved to: "@ + path && answer.filename == Some(filename),
            }
        }),
{
}

/// What is answered at each turn is what is answered in the end: a failed writing at once, and else by
/// what came of looking for the file.
pub proof fn law_answer_in_turns(
    filename: Seq<char>,
    path: Seq<char>,
    failed: WriteError,
    error: String,
)
    ensures
        write_answer(Ok(())) is None,
        write_answer(Err(failed)) == Some(
            Answer {
                success: false,
                message: "Failed to save file: "@ + failed.error@ + " (kind: "@ + failed.kind@
                    + ")"@,
                filename: None,
            },
        ),
        verify_answer(filename, path, Ok(())) == (Answer {
            success: true,
            message: "Image uploaded and saved to: "@ + path,
            filename: Some(filename),
        }),
        verify_answer(filename, path, Err(error)) == (Answer {
            success: false,
            message: "File created but verification failed: "@ + error@,
            filename: None,
        }),
        forall|message: Seq<char>| #[trigger]
            failure(message) == (Answer { success: false, message, filename: None }),
{
}

/// The name of an upload is the identifier, a dot and the extension; the names of an image before and
/// after editing are made of the same identifier, the one with the extension of the image and the
/// other with that of JPEG files.
pub proof fn law_stored_names(id: Seq<char>, extension: Seq<char>)
    ensures
        upload_name(id, extension) == id + seq!['.'] + extension,
        original_name(id, extension) == id + seq!['_', 'o', 'r', 'i', 'g', 'i', 'n', 'a', 'l', '.']
            + extension,
        processed_name(id) == id + seq![
            '_',
            'p',
            'r',
            'o',
            'c',
            'e',
            's',
            's',
            'e',
            'd',
            '.',
            'j',
            'p',
            'g',
        ],
{
    reveal_strlit(".");
    reveal_strlit("_original.");
    reveal_strlit("_processed.jpg");
    assert("."@ == seq!['.']);
    assert("_original."@ == seq!['_', 'o', 'r', 'i', 'g', 'i', 'n', 'a', 'l', '.']);
    assert("_processed.jpg"@ == seq![
        '_',
        'p',
        'r',
        'o',
        'c',
        'e',
        's',
        's',
        'e',
        'd',
        '.',
        'j',
        'p',
        'g',
    ]);
}

/// There is a plan exactly if the form has an image. It holds the image byte for byte, stores it under
/// a name with the extension that goes with its file name and its bytes, the edited image under one
/// with the same identifier, and takes the steps that the form asks for.
pub proof fn law_plan_follows_the_form(form: Filled, id: Seq<char>)
    ensures
        planned(form, id) is Some <==> form.image is Some,
        form.image matches Some(image) ==> {
            let plan = planned(form, id)->Some_0;
            &&& plan.image == image
            &&& plan.original_filename == id + "_original."@ + upload_extension(
                form.original_filename,
                guessed_format(image),
            )
            &&& plan.processed_filename == id + "_processed.jpg"@
            &&& plan.steps == wished_steps(form.wishes)
        },
{
}

/// The plan for a form goes by what its parts, read from the first to the last, have filled in; a form
/// of which a part is refused has none.
pub proof fn law_plan_follows_the_parts(parts: Seq<Given>, id: Seq<char>)
    ensures
        taken_all(Filled::none(), parts) is Err ==> planned_for(parts, id) is None,
        taken_all(Filled::none(), parts) matches Ok(form) ==> planned_for(parts, id) == planned(
            form,
            id,
        ),
{
}

/// A plan that was made for a form holds the image of the form and the steps that it asks for, and
/// stores under names with one identifier: the image as it came under the one, the edited image under
/// the other.
pub proof fn law_plan_is_for_the_form(plan: ProcessPlan, form: ProcessForm, id: Seq<char>)
    requires
        is_plan(plan, form, id),
    ensures
        form.image == Some(plan.image),
        plan.specs@ == wished_steps(form.options@),
        plan.original_filename@ == id + "_original."@ + upload_extension(
            form@.original_filename,
            guessed_format(plan.image@),
        ),
        plan.processed_filename@ == id + "_processed.jpg"@,
        form@.original_filename is Some <==> form.original_filename is Some,
        form.original_filename matches Some(name) ==> form@.original_filename == Some(name@),
        planned(form@, id) == Some(plan@),
{
}

} // verus!
