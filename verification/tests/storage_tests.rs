use meme_store::backend::{SdkFailure, ServiceFault};
use meme_store::errors::{Fault, StorageError};
use meme_store::storage::{download_error, upload_error, S3FileStorage};

fn storage() -> S3FileStorage {
    S3FileStorage::new("images".to_string())
}

fn service(status: u16, code: &str, message: &str) -> SdkFailure {
    SdkFailure::ServiceError(ServiceFault {
        status,
        code: Some(code.to_string()),
        message: message.to_string(),
    })
}

fn timeout() -> SdkFailure {
    SdkFailure::TimeoutError("request has timed out".to_string())
}

#[test]
fn upload_request_carries_key_bytes_and_media_type() {
    let request = storage().upload_request("a1.png", vec![1, 2, 3], Some("image/png".to_string()));
    assert_eq!(request.bucket, "images");
    assert_eq!(request.key, "a1.png");
    assert_eq!(request.body, vec![1, 2, 3]);
    assert_eq!(request.content_type, Some("image/png".to_string()));
}

#[test]
fn upload_request_without_media_type_leaves_it_to_the_backend() {
    let request = storage().upload_request("a1.bin", vec![], None);
    assert_eq!(request.key, "a1.bin");
    assert_eq!(request.body, Vec::<u8>::new());
    assert_eq!(request.content_type, None);
}

#[test]
fn upload_result_of_success_is_success() {
    assert_eq!(storage().upload_result("a1.png", Ok(())), Ok(()));
}

#[test]
fn rejected_upload_is_upload_failed_with_the_reason() {
    assert_eq!(
        storage().upload_result("a1.png", Err(service(403, "AccessDenied", "Access Denied"))),
        Err(StorageError::UploadFailed(
            "S3: Failed to upload object with key 'a1.png': Access Denied".to_string()
        ))
    );
    assert_eq!(
        upload_error("big.bin", service(400, "EntityTooLarge", "too large")),
        StorageError::UploadFailed(
            "S3: Failed to upload object with key 'big.bin': too large".to_string()
        )
    );
    assert_eq!(
        upload_error("k", service(499, "X", "m")),
        StorageError::UploadFailed("S3: Failed to upload object with key 'k': m".to_string())
    );
    assert_eq!(
        upload_error("k", service(600, "X", "m")),
        StorageError::UploadFailed("S3: Failed to upload object with key 'k': m".to_string())
    );
}

#[test]
fn upload_that_did_not_reach_a_working_backend_is_a_backend_error() {
    assert_eq!(
        storage().upload_result("a1.png", Err(timeout())),
        Err(StorageError::BackendError(Fault {
            context: "S3: Failed to upload object with key 'a1.png'".to_string(),
            cause: timeout(),
        }))
    );
    for status in [500u16, 503, 599] {
        let cause = service(status, "InternalError", "internal");
        assert_eq!(
            upload_error("a1.png", cause.clone()),
            StorageError::BackendError(Fault {
                context: "S3: Failed to upload object with key 'a1.png'".to_string(),
                cause,
            })
        );
    }
    let cause = SdkFailure::DispatchFailure("connection refused".to_string());
    assert_eq!(
        upload_error("a1.png", cause.clone()),
        StorageError::BackendError(Fault {
            context: "S3: Failed to upload object with key 'a1.png'".to_string(),
            cause,
        })
    );
}

#[test]
fn download_request_names_bucket_and_key() {
    let request = storage().download_request("a1.png");
    assert_eq!(request.bucket, "images");
    assert_eq!(request.key, "a1.png");
}

#[test]
fn download_of_an_absent_key_is_not_found() {
    let result: Result<(Vec<u8>, Option<String>), StorageError> = storage().download_result(
        "absent-key",
        Err(service(404, "NoSuchKey", "The specified key does not exist.")),
    );
    assert_eq!(result, Err(StorageError::NotFound("absent-key".to_string())));
    assert_eq!(
        download_error("absent-key", service(404, "NoSuchKey", "m")),
        StorageError::NotFound("absent-key".to_string())
    );
}

#[test]
fn download_failures_other_than_no_such_key_are_backend_errors() {
    let causes = vec![
        service(404, "NoSuchBucket", "The specified bucket does not exist"),
        service(404, "nosuchkey", "wrong case"),
        service(403, "AccessDenied", "Access Denied"),
        service(500, "InternalError", "internal"),
        SdkFailure::ServiceError(ServiceFault {
            status: 404,
            code: None,
            message: "NoSuchKey".to_string(),
        }),
        timeout(),
        SdkFailure::DispatchFailure("NoSuchKey".to_string()),
        SdkFailure::ResponseError("r".to_string()),
        SdkFailure::ConstructionFailure("c".to_string()),
    ];
    for cause in causes {
        assert_eq!(
            download_error("absent-key", cause.clone()),
            StorageError::BackendError(Fault {
                context: "S3: Failed to download object with key 'absent-key'".to_string(),
                cause,
            })
        );
    }
}

#[test]
fn download_result_hands_the_object_through() {
    let result = storage().download_result("a1.png", Ok((vec![1u8, 2, 3], Some("image/png".to_string()))));
    assert_eq!(result, Ok((vec![1u8, 2, 3], Some("image/png".to_string()))));
    let result = storage().download_result("a1.png", Ok(("a stream", None)));
    assert_eq!(result, Ok(("a stream", None)));
}

#[test]
fn delete_request_names_bucket_and_key() {
    let request = storage().delete_request("a1.png");
    assert_eq!(request.bucket, "images");
    assert_eq!(request.key, "a1.png");
}

#[test]
fn object_delete_result_is_the_backends() {
    assert_eq!(storage().delete_result("a1.png", Ok(())), Ok(()));
    let cause = service(404, "NoSuchKey", "m");
    assert_eq!(
        storage().delete_result("a1.png", Err(cause.clone())),
        Err(StorageError::BackendError(Fault {
            context: "S3: Failed to delete object with key 'a1.png'".to_string(),
            cause,
        }))
    );
    assert_eq!(
        storage().delete_result("a1.png", Err(timeout())),
        Err(StorageError::BackendError(Fault {
            context: "S3: Failed to delete object with key 'a1.png'".to_string(),
            cause: timeout(),
        }))
    );
}
