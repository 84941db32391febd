use meme_store::backend::SdkFailure;
use meme_store::errors::{AppError, Fault, InitError, RepoError, ResourceKind, StorageError};
use meme_store::models::MemeId;

const ID_TEXT: &str = "550e8400-e29b-41d4-a716-446655440000";

fn sample_id() -> MemeId {
    MemeId::from_u128(0x550e8400_e29b_41d4_a716_446655440000)
}

fn fault(context: &str) -> Fault {
    Fault { context: context.to_string(), cause: SdkFailure::TimeoutError("t".to_string()) }
}

#[test]
fn repo_error_messages() {
    assert_eq!(
        RepoError::NotFound(sample_id()).to_string(),
        format!("Meme metadata not found with ID: {}", ID_TEXT)
    );
    assert_eq!(
        RepoError::BackendError(fault("scan failed")).to_string(),
        "Database backend error: scan failed"
    );
    assert_eq!(
        RepoError::DataCorruption("bad item".to_string()).to_string(),
        "Data corruption detected: bad item"
    );
}

#[test]
fn storage_error_messages() {
    assert_eq!(
        StorageError::UploadFailed("denied".to_string()).to_string(),
        "File upload failed: denied"
    );
    assert_eq!(
        StorageError::NotFound("a1.png".to_string()).to_string(),
        "File not found with key: a1.png"
    );
    assert_eq!(
        StorageError::BackendError(fault("download failed")).to_string(),
        "Storage backend error: download failed"
    );
}

#[test]
fn repository_errors_become_app_errors() {
    assert_eq!(
        AppError::from_repo(RepoError::NotFound(sample_id())),
        AppError::MemeNotFound(sample_id())
    );
    assert_eq!(
        AppError::from_repo(RepoError::DataCorruption("x".to_string())),
        AppError::RepositoryError(RepoError::DataCorruption("x".to_string()))
    );
    assert_eq!(
        AppError::from_repo(RepoError::BackendError(fault("c"))),
        AppError::RepositoryError(RepoError::BackendError(fault("c")))
    );
}

#[test]
fn storage_errors_become_app_errors() {
    assert_eq!(
        AppError::from_storage(StorageError::NotFound("k".to_string())),
        AppError::ImageNotFound("k".to_string())
    );
    assert_eq!(
        AppError::from_storage(StorageError::UploadFailed("r".to_string())),
        AppError::StorageError(StorageError::UploadFailed("r".to_string()))
    );
    assert_eq!(
        AppError::from_storage(StorageError::BackendError(fault("c"))),
        AppError::StorageError(StorageError::BackendError(fault("c")))
    );
}

#[test]
fn init_errors_become_app_errors_with_their_message() {
    let error = InitError {
        kind: ResourceKind::Bucket,
        resource: "images".to_string(),
        cause: SdkFailure::TimeoutError("request has timed out".to_string()),
    };
    assert_eq!(
        AppError::from_init(&error),
        AppError::InitError(
            "Unrecoverable SDK error creating S3 bucket 'images': request has timed out"
                .to_string()
        )
    );
}

#[test]
fn status_codes_follow_the_kind_of_error() {
    assert_eq!(AppError::InvalidInput("x".to_string()).status_code(), 400);
    assert_eq!(AppError::MissingFormField("title".to_string()).status_code(), 400);
    assert_eq!(AppError::MultipartError("x".to_string()).status_code(), 400);
    assert_eq!(AppError::InvalidUuid("x".to_string()).status_code(), 400);
    assert_eq!(AppError::MemeNotFound(sample_id()).status_code(), 404);
    assert_eq!(AppError::ImageNotFound("k".to_string()).status_code(), 404);
    assert_eq!(
        AppError::RepositoryError(RepoError::DataCorruption("x".to_string())).status_code(),
        500
    );
    assert_eq!(
        AppError::StorageError(StorageError::UploadFailed("x".to_string())).status_code(),
        500
    );
    assert_eq!(AppError::ConfigError("x".to_string()).status_code(), 500);
    assert_eq!(AppError::InitError("x".to_string()).status_code(), 500);
    assert_eq!(AppError::InternalServerError("x".to_string()).status_code(), 500);
}

#[test]
fn client_messages_hide_server_side_details() {
    assert_eq!(AppError::InvalidInput("image data cannot be empty".to_string()).client_message(), "image data cannot be empty");
    assert_eq!(
        AppError::MissingFormField("title".to_string()).client_message(),
        "Missing form field: title"
    );
    assert_eq!(
        AppError::MultipartError("truncated".to_string()).client_message(),
        "Invalid multipart form data: truncated"
    );
    assert_eq!(
        AppError::InvalidUuid("bad length".to_string()).client_message(),
        "Invalid ID format: bad length"
    );
    assert_eq!(
        AppError::MemeNotFound(sample_id()).client_message(),
        format!("Meme metadata not found with ID: {}", ID_TEXT)
    );
    assert_eq!(
        AppError::ImageNotFound("a1.png".to_string()).client_message(),
        "Image not found with key: a1.png"
    );
    assert_eq!(
        AppError::RepositoryError(RepoError::DataCorruption("secret".to_string()))
            .client_message(),
        "Database operation failed"
    );
    assert_eq!(
        AppError::StorageError(StorageError::UploadFailed("secret".to_string())).client_message(),
        "File storage operation failed"
    );
    assert_eq!(
        AppError::ConfigError("secret".to_string()).client_message(),
        "Server configuration error"
    );
    assert_eq!(
        AppError::InitError("secret".to_string()).client_message(),
        "Server initialization error"
    );
    assert_eq!(
        AppError::InternalServerError("secret".to_string()).client_message(),
        "An internal server error occurred"
    );
}

#[test]
fn app_error_messages() {
    assert_eq!(AppError::InvalidInput("x".to_string()).to_string(), "Invalid input: x");
    assert_eq!(
        AppError::MissingFormField("title".to_string()).to_string(),
        "Missing form field: title"
    );
    assert_eq!(
        AppError::MultipartError("x".to_string()).to_string(),
        "Error processing multipart form data: x"
    );
    assert_eq!(AppError::InvalidUuid("x".to_string()).to_string(), "Invalid meme ID format: x");
    assert_eq!(
        AppError::MemeNotFound(sample_id()).to_string(),
        format!("Meme metadata not found with ID: {}", ID_TEXT)
    );
    assert_eq!(
        AppError::ImageNotFound("k".to_string()).to_string(),
        "Image file not found with key: k"
    );
    assert_eq!(
        AppError::RepositoryError(RepoError::DataCorruption("x".to_string())).to_string(),
        "Could not process meme data"
    );
    assert_eq!(
        AppError::StorageError(StorageError::NotFound("x".to_string())).to_string(),
        "Could not perform file storage operation"
    );
    assert_eq!(AppError::ConfigError("x".to_string()).to_string(), "Configuration error: x");
    assert_eq!(AppError::InitError("x".to_string()).to_string(), "Initialization error: x");
    assert_eq!(
        AppError::InternalServerError("x".to_string()).to_string(),
        "Internal server error: x"
    );
}
