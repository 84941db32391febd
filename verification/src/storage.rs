//! The blob store: binary objects in a bucket, each under a key and with a
//! media type.
//!
//! Each operation is a request to the bucket and a reading of its answer. The
//! functions here build the requests and read the answers.

use vstd::prelude::*;
use vstd::string::*;
use crate::backend::{
    done_view, DeleteObjectRequest, GetObjectRequest, PutObjectRequest, SdkFailure, SdkFailureView,
};
use crate::errors::{Fault, FaultView, StorageError, StorageErrorView};
use crate::text::join3;

verus! {

/// What the store was doing on an object when the backend failed; `verb` is
/// `upload`, `download` or `delete`.
pub open spec fn object_context(verb: Seq<char>, key: Seq<char>) -> Seq<char> {
    "S3: Failed to "@ + verb + " object with key '"@ + key + "'"@
}

/// The error for a failure of the backend while working on an object.
pub open spec fn object_failure(verb: Seq<char>, key: Seq<char>, failure: SdkFailureView)
    -> StorageErrorView {
    StorageErrorView::BackendError(
        FaultView { context: object_context(verb, key), cause: failure },
    )
}

/// Tells whether the backend answered a write by rejecting it: an answer of
/// the service other than a fault of its own (status 500 to 599).
pub open spec fn rejects_write(failure: SdkFailureView) -> bool {
    failure matches SdkFailureView::ServiceError(fault) && !(500 <= fault.status <= 599)
}

/// The error for a failed upload: the backend's reason where it rejected the
/// write, a backend error where it failed or was not reached.
pub open spec fn upload_failure(key: Seq<char>, failure: SdkFailureView) -> StorageErrorView {
    if rejects_write(failure) {
        StorageErrorView::UploadFailed(object_context("upload"@, key) + ": "@ + failure.message())
    } else {
        object_failure("upload"@, key, failure)
    }
}

/// The error for a failed download: not found exactly when the backend says
/// `NoSuchKey`, a backend error for every other failure.
pub open spec fn download_failure(key: Seq<char>, failure: SdkFailureView) -> StorageErrorView {
    if failure.has_code("NoSuchKey"@) {
        StorageErrorView::NotFound(key)
    } else {
        object_failure("download"@, key, failure)
    }
}

/// Model of the result of an operation that returns nothing.
pub open spec fn stored_view(result: Result<(), StorageError>) -> Result<(), StorageErrorView> {
    match result {
        Ok(()) => Ok(()),
        Err(error) => Err(error@),
    }
}

/// Model of the result of a download whose body is a `B`.
pub open spec fn download_view<B>(result: Result<(B, Option<String>), StorageError>) -> Result<
    (B, Option<Seq<char>>),
    StorageErrorView,
> {
    match result {
        Ok((body, content_type)) => Ok((body, content_type.deep_view())),
        Err(error) => Err(error@),
    }
}

/// Model of the backend's answer to a read: the body and the stored media
/// type.
pub open spec fn object_view<B>(outcome: Result<(B, Option<String>), SdkFailure>) -> Result<
    (B, Option<Seq<char>>),
    SdkFailureView,
> {
    match outcome {
        Ok((body, content_type)) => Ok((body, content_type.deep_view())),
        Err(failure) => Err(failure@),
    }
}

/// The result of an upload, given the backend's answer.
pub open spec fn upload_result(key: Seq<char>, outcome: Result<(), SdkFailureView>) -> Result<
    (),
    StorageErrorView,
> {
    match outcome {
        Ok(()) => Ok(()),
        Err(failure) => Err(upload_failure(key, failure)),
    }
}

/// The result of a download, given the backend's answer: what the backend
/// returned, or the error for its failure.
pub open spec fn download_result<B>(
    key: Seq<char>,
    outcome: Result<(B, Option<Seq<char>>), SdkFailureView>,
) -> Result<(B, Option<Seq<char>>), StorageErrorView> {
    match outcome {
        Ok(object) => Ok(object),
        Err(failure) => Err(download_failure(key, failure)),
    }
}

/// The result of a removal, given the backend's answer: success exactly when
/// the backend reports success.
pub open spec fn delete_result(key: Seq<char>, outcome: Result<(), SdkFailureView>) -> Result<
    (),
    StorageErrorView,
> {
    match outcome {
        Ok(()) => Ok(()),
        Err(failure) => Err(object_failure("delete"@, key, failure)),
    }
}

/// Builds the context of a failure on an object.
fn object_context_text(verb: &str, key: &str) -> (context: String)
    ensures
        context@ == object_context(verb@, key@),
{
    let mut context = join3("S3: Failed to ", verb, " object with key '");
    context.append(key);
    context.append("'");
    context
}

/// The error for a failed upload.
pub fn upload_error(key: &str, failure: SdkFailure) -> (error: StorageError)
    ensures
        error@ == upload_failure(key@, failure@),
{
    let rejected = match &failure {
        SdkFailure::ServiceError(fault) => !(500 <= fault.status && fault.status <= 599),
        _ => false,
    };
    let context = object_context_text("upload", key);
    if rejected {
        let mut reason = context;
        reason.append(": ");
        reason.append(failure.message().as_str());
        StorageError::UploadFailed(reason)
    } else {
        StorageError::BackendError(Fault { context, cause: failure })
    }
}

/// The error for a failed download.
pub fn download_error(key: &str, failure: SdkFailure) -> (error: StorageError)
    ensures
        error@ == download_failure(key@, failure@),
{
    if failure.has_code("NoSuchKey") {
        StorageError::NotFound(String::from_str(key))
    } else {
        StorageError::BackendError(
            Fault { context: object_context_text("download", key), cause: failure },
        )
    }
}

/// The blob store over one bucket.
#[derive(Clone, Debug, PartialEq, Eq)]
pub struct S3FileStorage {
    pub bucket_name: String,
}

impl S3FileStorage {
    /// A store over the bucket called `bucket_name`.
    pub fn new(bucket_name: String) -> (storage: S3FileStorage)
        ensures
            storage.bucket_name@ == bucket_name@,
    {
        S3FileStorage { bucket_name }
    }

    /// The request that stores `data` under `key`, in place of any object
    /// there, with the media type where one is given.
    pub fn upload_request(&self, key: &str, data: Vec<u8>, content_type: Option<String>) -> (request:
        PutObjectRequest)
        ensures
            request.bucket@ == self.bucket_name@,
            request.key@ == key@,
            request.body@ == data@,
            request.content_type.deep_view() == content_type.deep_view(),
    {
        PutObjectRequest {
            bucket: self.bucket_name.clone(),
            key: String::from_str(key),
            body: data,
            content_type,
        }
    }

    /// Reads the backend's answer to the upload under `key`.
    pub fn upload_result(&self, key: &str, outcome: Result<(), SdkFailure>) -> (result: Result<
        (),
        StorageError,
    >)
        ensures
            stored_view(result) == upload_result(key@, done_view(outcome)),
    {
        match outcome {
            Ok(()) => Ok(()),
            Err(failure) => Err(upload_error(key, failure)),
        }
    }

    /// The request that reads the object under `key`.
    pub fn download_request(&self, key: &str) -> (request: GetObjectRequest)
        ensures
            request.bucket@ == self.bucket_name@,
            request.key@ == key@,
    {
        GetObjectRequest { bucket: self.bucket_name.clone(), key: String::from_str(key) }
    }

    /// Reads the backend's answer to the download of `key`; the body is
    /// whatever the driver reads the object through.
    pub fn download_result<B>(&self, key: &str, outcome: Result<(B, Option<String>), SdkFailure>)
        -> (result: Result<(B, Option<String>), StorageError>)
        ensures
            download_view(result) == download_result(key@, object_view(outcome)),
    {
        match outcome {
            Ok(object) => Ok(object),
            Err(failure) => Err(download_error(key, failure)),
        }
    }

    /// The request that removes the object under `key`.
    pub fn delete_request(&self, key: &str) -> (request: DeleteObjectRequest)
        ensures
            request.bucket@ == self.bucket_name@,
            request.key@ == key@,
    {
        DeleteObjectRequest { bucket: self.bucket_name.clone(), key: String::from_str(key) }
    }

    /// Reads the backend's answer to the removal of `key`. The backend
    /// reports success whether or not the object was there, and so does the
    /// store.
    pub fn delete_result(&self, key: &str, outcome: Result<(), SdkFailure>) -> (result: Result<
        (),
        StorageError,
    >)
        ensures
            stored_view(result) == delete_result(key@, done_view(outcome)),
    {
        match outcome {
            Ok(()) => Ok(()),
            Err(cause) => Err(
                StorageError::BackendError(
                    Fault { context: object_context_text("delete", key), cause },
                ),
            ),
        }
    }
}

} // verus!
