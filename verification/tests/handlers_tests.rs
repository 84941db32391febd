use meme_store::backend::SdkFailure;
use meme_store::errors::{AppError, Fault, StorageError};
use meme_store::handlers::{
    after_image_removal, choose_content_type, file_extension, form_field, found_or_missing,
    image_key_for, interrupted_download, plan_upload, resolve_content_type, served_content_type,
    unreadable_field, FormField, UploadForm, UploadPlan,
};
use meme_store::models::{Meme, MemeId};

const FORM_ID_TEXT: &str = "550e8400-e29b-41d4-a716-446655440000";

fn form_id() -> MemeId {
    MemeId::from_u128(0x550e8400_e29b_41d4_a716_446655440000)
}

fn full_form() -> UploadForm {
    UploadForm {
        title: Some("t".to_string()),
        description: Some("d".to_string()),
        image_data: Some(vec![1, 2, 3]),
        image_filename: Some("Cat.PNG".to_string()),
        image_content_type: None,
    }
}

#[test]
fn file_extension_is_the_lower_case_text_after_the_last_dot() {
    assert_eq!(file_extension(&Some("photo.PNG".to_string())), "png");
    assert_eq!(file_extension(&Some("archive.tar.GZ".to_string())), "gz");
    assert_eq!(file_extension(&Some(".hidden".to_string())), "hidden");
    assert_eq!(file_extension(&Some("trailing.".to_string())), "");
    assert_eq!(file_extension(&Some("a.b.".to_string())), "");
}

#[test]
fn file_extension_of_a_name_without_dot_is_the_name() {
    assert_eq!(file_extension(&Some("NoExt".to_string())), "noext");
    assert_eq!(file_extension(&Some(String::new())), "");
}

#[test]
fn file_extension_without_a_name_is_bin() {
    assert_eq!(file_extension(&None), "bin");
}

#[test]
fn image_key_is_identifier_dot_extension() {
    assert_eq!(image_key_for(form_id(), "png"), format!("{}.png", FORM_ID_TEXT));
    assert_eq!(image_key_for(form_id(), ""), format!("{}.", FORM_ID_TEXT));
}

#[test]
fn declared_media_type_wins() {
    assert_eq!(
        choose_content_type(Some("image/gif".to_string()), Some("image/png".to_string())),
        "image/gif"
    );
    assert_eq!(choose_content_type(None, Some("image/png".to_string())), "image/png");
    assert_eq!(choose_content_type(None, None), "application/octet-stream");
    assert_eq!(choose_content_type(Some("image/gif".to_string()), None), "image/gif");
}

#[test]
fn media_type_is_guessed_from_the_key() {
    assert_eq!(resolve_content_type(None, "x.png"), "image/png");
    assert_eq!(resolve_content_type(None, "x.jpg"), "image/jpeg");
    assert_eq!(resolve_content_type(None, "x.gif"), "image/gif");
    assert_eq!(resolve_content_type(None, "x.PNG"), "image/png");
    assert_eq!(resolve_content_type(None, "x.no-such-extension"), "application/octet-stream");
    assert_eq!(resolve_content_type(None, "x"), "application/octet-stream");
    assert_eq!(resolve_content_type(Some("text/plain".to_string()), "x.png"), "text/plain");
}

#[test]
fn upload_without_title_is_refused_first() {
    let form = UploadForm {
        title: None,
        description: None,
        image_data: None,
        image_filename: None,
        image_content_type: None,
    };
    assert_eq!(plan_upload(form_id(), form), Err(AppError::MissingFormField("title".to_string())));
}

#[test]
fn upload_without_description_is_refused() {
    let form = UploadForm { description: None, image_data: None, ..full_form() };
    assert_eq!(
        plan_upload(form_id(), form),
        Err(AppError::MissingFormField("description".to_string()))
    );
}

#[test]
fn upload_without_image_is_refused() {
    let form = UploadForm { image_data: None, ..full_form() };
    assert_eq!(plan_upload(form_id(), form), Err(AppError::MissingFormField("image".to_string())));
}

#[test]
fn upload_of_an_empty_image_is_refused() {
    let form = UploadForm { image_data: Some(vec![]), ..full_form() };
    assert_eq!(
        plan_upload(form_id(), form),
        Err(AppError::InvalidInput("image data cannot be empty".to_string()))
    );
}

#[test]
fn accepted_upload_is_planned() {
    assert_eq!(
        plan_upload(form_id(), full_form()),
        Ok(UploadPlan {
            meme: Meme {
                meme_id: form_id(),
                title: "t".to_string(),
                description: "d".to_string(),
                image_key: format!("{}.png", FORM_ID_TEXT),
            },
            data: vec![1, 2, 3],
            content_type: "image/png".to_string(),
        })
    );
}

#[test]
fn accepted_upload_keeps_a_declared_media_type() {
    let form = UploadForm {
        image_filename: None,
        image_content_type: Some("image/webp".to_string()),
        ..full_form()
    };
    let plan = plan_upload(form_id(), form).expect("the form is complete");
    assert_eq!(plan.meme.image_key, format!("{}.bin", FORM_ID_TEXT));
    assert_eq!(plan.content_type, "image/webp");
}

#[test]
fn accepted_upload_without_any_hint_is_binary() {
    let form = UploadForm { image_filename: None, ..full_form() };
    let plan = plan_upload(form_id(), form).expect("the form is complete");
    assert_eq!(plan.meme.image_key, format!("{}.bin", FORM_ID_TEXT));
    assert_eq!(plan.content_type, "application/octet-stream");
}

#[test]
fn found_or_missing_turns_none_into_not_found() {
    let meme = Meme {
        meme_id: form_id(),
        title: "t".to_string(),
        description: "d".to_string(),
        image_key: "k".to_string(),
    };
    assert_eq!(found_or_missing(form_id(), Some(meme.clone())), Ok(meme));
    assert_eq!(found_or_missing(form_id(), None), Err(AppError::MemeNotFound(form_id())));
}

#[test]
fn removal_goes_on_when_the_image_is_gone() {
    assert_eq!(after_image_removal(Ok(())), Ok(()));
    assert_eq!(after_image_removal(Err(StorageError::NotFound("k".to_string()))), Ok(()));
}

#[test]
fn removal_stops_on_a_failing_store() {
    let fault = Fault {
        context: "S3: Failed to delete object with key 'k'".to_string(),
        cause: SdkFailure::TimeoutError("t".to_string()),
    };
    assert_eq!(
        after_image_removal(Err(StorageError::BackendError(fault.clone()))),
        Err(AppError::StorageError(StorageError::BackendError(fault)))
    );
    assert_eq!(
        after_image_removal(Err(StorageError::UploadFailed("r".to_string()))),
        Err(AppError::StorageError(StorageError::UploadFailed("r".to_string())))
    );
}

#[test]
fn images_are_served_with_their_media_type_or_as_binary() {
    assert_eq!(served_content_type(Some("image/png".to_string())), "image/png");
    assert_eq!(served_content_type(None), "application/octet-stream");
}

#[test]
fn form_fields_are_told_by_name() {
    assert_eq!(form_field("title"), FormField::Title);
    assert_eq!(form_field("description"), FormField::Description);
    assert_eq!(form_field("image"), FormField::Image);
    assert_eq!(form_field("Title"), FormField::Unknown);
    assert_eq!(form_field(""), FormField::Unknown);
    assert_eq!(form_field("images"), FormField::Unknown);
}

#[test]
fn unreadable_field_is_invalid_input() {
    assert_eq!(
        unreadable_field("title", "stream ended"),
        AppError::InvalidInput("Failed to read title: stream ended".to_string())
    );
}

#[test]
fn interrupted_download_is_a_backend_error_of_the_store() {
    assert_eq!(
        interrupted_download("connection reset".to_string()),
        AppError::StorageError(StorageError::BackendError(Fault {
            context: "Failed to collect image bytes from storage".to_string(),
            cause: SdkFailure::ResponseError("connection reset".to_string()),
        }))
    );
}

#[test]
fn file_extension_counts_characters_not_bytes() {
    assert_eq!(file_extension(&Some("ünïcödé.ÄB".to_string())), "äb");
    assert_eq!(file_extension(&Some("日本語.PNG".to_string())), "png");
    assert_eq!(file_extension(&Some("a.日本".to_string())), "日本");
    assert_eq!(file_extension(&Some(".".to_string())), "");
    assert_eq!(file_extension(&Some("..".to_string())), "");
    assert_eq!(file_extension(&Some("a..b".to_string())), "b");
}
