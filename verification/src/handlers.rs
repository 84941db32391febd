//! What the request handlers decide, apart from reading requests and writing
//! responses: how an upload is checked and named, which media type an image
//! gets, and how the removal of a record with its image goes on after each
//! step.

use vstd::prelude::*;
use vstd::string::*;
use crate::backend::{SdkFailure, SdkFailureView};
use crate::errors::{
    app_error_of_storage, AppError, AppErrorView, Fault, FaultView, StorageError, StorageErrorView,
};
use crate::models::{Meme, MemeId};
use crate::text::{join3, same_text};

verus! {

/// The text that `str::to_lowercase` returns for a text: its lower-case
/// form by the rules of Unicode.
pub uninterp spec fn lowercase(text: Seq<char>) -> Seq<char>;

/// The media type that `mime_guess` tells from the extension of a path: the
/// first entry of its table for that extension, `None` where the path has no
/// extension or the table does not know it.
pub uninterp spec fn guessed_media_type(path: Seq<char>) -> Option<Seq<char>>;

/// Calls `str::to_lowercase`. The result is named `lowercase`.
#[verifier::external_body]
fn to_lowercase(text: &str) -> (lowered: String)
    ensures
        lowered@ == lowercase(text@),
{
    text.to_lowercase()
}

/// Calls `mime_guess::from_path` and takes the first guess as text, as
/// `first_raw` gives it. The result is named `guessed_media_type`.
#[verifier::external_body]
fn guess_media_type(path: &str) -> (guess: Option<String>)
    ensures
        guess.deep_view() == guessed_media_type(path@),
{
    match mime_guess::from_path(path).first_raw() {
        Some(media_type) => Some(media_type.to_string()),
        None => None,
    }
}

/// What follows the last dot of a name; for a name without a dot, the name
/// itself.
pub open spec fn last_segment(name: Seq<char>) -> Seq<char>
    decreases name.len(),
{
    if name.len() == 0 || name.last() == '.' {
        Seq::empty()
    } else {
        last_segment(name.drop_last()).push(name.last())
    }
}

/// The last segment of a name that ends in a dot and a text without dots is
/// that text; a name without dots is its own last segment.
pub proof fn lemma_last_segment(head: Seq<char>, tail: Seq<char>)
    requires
        !tail.contains('.'),
    ensures
        last_segment(head + seq!['.'] + tail) == tail,
        !head.contains('.') ==> last_segment(head) == head,
    decreases tail.len() + head.len(),
{
    let name = head + seq!['.'] + tail;
    if tail.len() == 0 {
        assert(name.last() == '.');
        assert(tail =~= Seq::<char>::empty());
    } else {
        let shorter = tail.drop_last();
        assert(tail.last() != '.') by {
            assert(tail[tail.len() - 1] == tail.last());
        }
        assert forall|i: int| 0 <= i < shorter.len() implies shorter[i] != '.' by {
            assert(tail[i] == shorter[i]);
        }
        assert(!shorter.contains('.'));
        assert(name.drop_last() =~= head + seq!['.'] + shorter);
        assert(name.last() == tail.last());
        lemma_last_segment(head, shorter);
        assert(shorter.push(tail.last()) =~= tail);
    }
    if !head.contains('.') && head.len() > 0 {
        let shorter = head.drop_last();
        assert(head.last() != '.') by {
            assert(head[head.len() - 1] == head.last());
        }
        assert forall|i: int| 0 <= i < shorter.len() implies shorter[i] != '.' by {
            assert(head[i] == shorter[i]);
        }
        assert(!shorter.contains('.'));
        lemma_last_segment(shorter, Seq::<char>::empty());
        assert(shorter.push(head.last()) =~= head);
    }
    if head.len() == 0 {
        assert(head =~= Seq::<char>::empty());
    }
}

/// The extension that an upload's file name gives to the stored image: the
/// lower-case form of what follows the last dot of the name, and `bin` for an
/// upload without a file name.
pub open spec fn extension_of(filename: Option<Seq<char>>) -> Seq<char> {
    match filename {
        Some(name) => lowercase(last_segment(name)),
        None => "bin"@,
    }
}

/// The place of the last dot of a name, if it has one.
fn last_dot(name: &str) -> (place: Option<usize>)
    ensures
        place matches Some(dot) ==> dot < name@.len() && name@[dot as int] == '.' && forall|j: int|
            dot < j < name@.len() ==> name@[j] != '.',
        place is None ==> !name@.contains('.'),
{
    let length: usize = name.unicode_len();
    let mut place: Option<usize> = None;
    let mut i: usize = 0;
    for c in it: name.chars()
        invariant
            length == name@.len(),
            it.seq() == name@,
            i == it.index(),
            place matches Some(dot) ==> dot < i && name@[dot as int] == '.' && forall|j: int|
                dot < j < i ==> name@[j] != '.',
            place is None ==> forall|j: int| 0 <= j < i ==> name@[j] != '.',
    {
        if c == '.' {
            place = Some(i);
        }
        i += 1;
    }
    place
}

/// What follows the last dot of a name, and the name itself where it has no
/// dot.
fn last_segment_of(name: &str) -> (tail: &str)
    ensures
        tail@ == last_segment(name@),
{
    let length: usize = name.unicode_len();
    match last_dot(name) {
        Some(dot) => {
            let tail = name.substring_char(dot + 1, length);
            proof {
                let head = name@.subrange(0, dot as int);
                assert(name@ =~= head + seq!['.'] + tail@);
                lemma_last_segment(head, tail@);
            }
            tail
        },
        None => {
            proof {
                lemma_last_segment(name@, Seq::<char>::empty());
            }
            name
        },
    }
}

/// The extension that an upload's file name gives to the stored image.
pub fn file_extension(filename: &Option<String>) -> (extension: String)
    ensures
        extension@ == extension_of(filename.deep_view()),
{
    match filename {
        Some(name) => to_lowercase(last_segment_of(name.as_str())),
        None => String::from_str("bin"),
    }
}

/// The key of an image: the record's identifier, a dot, and the extension.
pub open spec fn image_key_of(id: MemeId, extension: Seq<char>) -> Seq<char> {
    id.text() + "."@ + extension
}

/// The key under which the image of a record is stored.
pub fn image_key_for(id: MemeId, extension: &str) -> (key: String)
    ensures
        key@ == image_key_of(id, extension@),
{
    let id_text = id.to_string();
    join3(id_text.as_str(), ".", extension)
}

/// The media type of an upload: the one the upload declares, else the one
/// guessed from the key, else `application/octet-stream`.
pub open spec fn media_type_of(declared: Option<Seq<char>>, guessed: Option<Seq<char>>) -> Seq<
    char,
> {
    match declared {
        Some(media_type) => media_type,
        None => match guessed {
            Some(media_type) => media_type,
            None => "application/octet-stream"@,
        },
    }
}

/// Chooses the media type of an upload, given what was guessed from its key.
pub fn choose_content_type(declared: Option<String>, guessed: Option<String>) -> (media_type: String)
    ensures
        media_type@ == media_type_of(declared.deep_view(), guessed.deep_view()),
{
    match declared {
        Some(media_type) => media_type,
        None => match guessed {
            Some(media_type) => media_type,
            None => String::from_str("application/octet-stream"),
        },
    }
}

/// The media type of an upload stored under `image_key`.
pub fn resolve_content_type(declared: Option<String>, image_key: &str) -> (media_type: String)
    ensures
        media_type@ == media_type_of(declared.deep_view(), guessed_media_type(image_key@)),
{
    match declared {
        Some(media_type) => media_type,
        None => choose_content_type(None, guess_media_type(image_key)),
    }
}

/// What a field of the upload form is, by its name.
#[derive(Clone, Copy, Debug, PartialEq, Eq, Structural)]
pub enum FormField {
    /// `title`: text.
    Title,
    /// `description`: text.
    Description,
    /// `image`: the bytes of a file, with its name and media type.
    Image,
    /// Any other field: it is passed over.
    Unknown,
}

/// The field that a name stands for.
pub open spec fn field_named(name: Seq<char>) -> FormField {
    if name == "title"@ {
        FormField::Title
    } else if name == "description"@ {
        FormField::Description
    } else if name == "image"@ {
        FormField::Image
    } else {
        FormField::Unknown
    }
}

/// Tells which field of the upload form a name stands for.
pub fn form_field(name: &str) -> (field: FormField)
    ensures
        field == field_named(name@),
{
    if same_text(name, "title") {
        FormField::Title
    } else if same_text(name, "description") {
        FormField::Description
    } else if same_text(name, "image") {
        FormField::Image
    } else {
        FormField::Unknown
    }
}

/// The error for a text field of the form that could not be read; `detail`
/// says why.
pub fn unreadable_field(name: &str, detail: &str) -> (error: AppError)
    ensures
        error@ == AppErrorView::InvalidInput("Failed to read "@ + name@ + ": "@ + detail@),
{
    let mut message = join3("Failed to read ", name, ": ");
    message.append(detail);
    AppError::InvalidInput(message)
}

/// The error for an image whose bytes could not be read from the store to
/// the end; `detail` says why.
pub fn interrupted_download(detail: String) -> (error: AppError)
    ensures
        error@ == AppErrorView::StorageError(
            StorageErrorView::BackendError(
                FaultView {
                    context: "Failed to collect image bytes from storage"@,
                    cause: SdkFailureView::ResponseError(detail@),
                },
            ),
        ),
{
    AppError::StorageError(
        StorageError::BackendError(
            Fault {
                context: String::from_str("Failed to collect image bytes from storage"),
                cause: SdkFailure::ResponseError(detail),
            },
        ),
    )
}

/// The fields of an upload form, as far as the request held them.
#[derive(Clone, Debug, PartialEq, Eq)]
pub struct UploadForm {
    pub title: Option<String>,
    pub description: Option<String>,
    pub image_data: Option<Vec<u8>>,
    pub image_filename: Option<String>,
    pub image_content_type: Option<String>,
}

/// What an accepted upload stores: the record, and the image with its media
/// type under the record's image key.
#[derive(Clone, Debug, PartialEq, Eq)]
pub struct UploadPlan {
    pub meme: Meme,
    pub data: Vec<u8>,
    pub content_type: String,
}

/// Tells why an upload form is refused, if it is: a missing title,
/// description or image, named in this order, or an image without bytes.
pub open spec fn form_refusal(form: UploadForm) -> Option<AppErrorView> {
    if form.title is None {
        Some(AppErrorView::MissingFormField("title"@))
    } else if form.description is None {
        Some(AppErrorView::MissingFormField("description"@))
    } else if form.image_data is None {
        Some(AppErrorView::MissingFormField("image"@))
    } else if form.image_data->0@.len() == 0 {
        Some(AppErrorView::InvalidInput("image data cannot be empty"@))
    } else {
        None
    }
}

/// Checks an upload form and plans what is stored for it under the
/// identifier `id`.
///
/// A form that lacks a field, or whose image is empty, is refused. An
/// accepted form gives a record with the form's title and description, whose
/// image key is made of the identifier and the extension of the file name;
/// the image is stored with the media type of `media_type_of`.
pub fn plan_upload(id: MemeId, form: UploadForm) -> (plan: Result<UploadPlan, AppError>)
    ensures
        match form_refusal(form) {
            Some(refusal) => plan matches Err(error) && error@ == refusal,
            None => plan matches Ok(planned) && {
                &&& planned.meme.meme_id == id
                &&& planned.meme.title@ == form.title->0@
                &&& planned.meme.description@ == form.description->0@
                &&& planned.meme.image_key@ == image_key_of(
                    id,
                    extension_of(form.image_filename.deep_view()),
                )
                &&& planned.data@ == form.image_data->0@
                &&& planned.content_type@ == media_type_of(
                    form.image_content_type.deep_view(),
                    guessed_media_type(planned.meme.image_key@),
                )
            },
        },
{
    let UploadForm { title, description, image_data, image_filename, image_content_type } = form;
    let title = match title {
        Some(title) => title,
        None => {
            return Err(AppError::MissingFormField(String::from_str("title")));
        },
    };
    let description = match description {
        Some(description) => description,
        None => {
            return Err(AppError::MissingFormField(String::from_str("description")));
        },
    };
    let data = match image_data {
        Some(data) => data,
        None => {
            return Err(AppError::MissingFormField(String::from_str("image")));
        },
    };
    if data.len() == 0 {
        return Err(AppError::InvalidInput(String::from_str("image data cannot be empty")));
    }
    let extension = file_extension(&image_filename);
    let image_key = image_key_for(id, extension.as_str());
    let content_type = resolve_content_type(image_content_type, image_key.as_str());
    Ok(UploadPlan { meme: Meme { meme_id: id, title, description, image_key }, data, content_type })
}

/// A looked-up record, or the error for a record that is not there.
pub fn found_or_missing(id: MemeId, found: Option<Meme>) -> (result: Result<Meme, AppError>)
    ensures
        match found {
            Some(meme) => result == Ok::<Meme, AppError>(meme),
            None => result matches Err(error) && error@ == AppErrorView::MemeNotFound(id),
        },
{
    match found {
        Some(meme) => Ok(meme),
        None => Err(AppError::MemeNotFound(id)),
    }
}

/// How the removal of a record goes on after the removal of its image: an
/// image that was not there is no obstacle, any other failure ends the
/// removal with its error.
pub open spec fn image_removal_outcome(outcome: Result<(), StorageErrorView>) -> Result<
    (),
    AppErrorView,
> {
    match outcome {
        Ok(()) => Ok(()),
        Err(StorageErrorView::NotFound(_)) => Ok(()),
        Err(error) => Err(app_error_of_storage(error)),
    }
}

/// Decides whether the removal of a record goes on after the removal of its
/// image.
pub fn after_image_removal(outcome: Result<(), StorageError>) -> (result: Result<(), AppError>)
    ensures
        match image_removal_outcome(
            match outcome {
                Ok(()) => Ok(()),
                Err(error) => Err(error@),
            },
        ) {
            Ok(()) => result is Ok,
            Err(expected) => result matches Err(error) && error@ == expected,
        },
{
    match outcome {
        Ok(()) => Ok(()),
        Err(StorageError::NotFound(_)) => Ok(()),
        Err(error) => Err(AppError::from_storage(error)),
    }
}

/// The media type with which an image is served: the stored one, and
/// `application/octet-stream` for an image stored without one.
pub fn served_content_type(stored: Option<String>) -> (media_type: String)
    ensures
        media_type@ == media_type_of(stored.deep_view(), None),
{
    choose_content_type(stored, None)
}

} // verus!
