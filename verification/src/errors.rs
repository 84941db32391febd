//! The closed set of errors that the storage layer reports.

use vstd::prelude::*;
use vstd::string::*;
use crate::backend::{SdkFailure, SdkFailureView};
use crate::models::MemeId;
use crate::text::{join2, join5};

verus! {

/// A backend failure together with what the layer was doing when it struck.
#[derive(Clone, Debug, PartialEq, Eq)]
pub struct Fault {
    /// The operation that failed, with the table or key it worked on.
    pub context: String,
    /// What the backend reported.
    pub cause: SdkFailure,
}

/// Mathematical model of a `Fault`.
pub struct FaultView {
    pub context: Seq<char>,
    pub cause: SdkFailureView,
}

impl View for Fault {
    type V = FaultView;

    open spec fn view(&self) -> FaultView {
        FaultView { context: self.context@, cause: self.cause@ }
    }
}

/// Failure of a metadata repository operation.
#[derive(Clone, Debug, PartialEq, Eq)]
pub enum RepoError {
    /// A lookup found nothing. The repository itself answers a missing
    /// record with `None`; this is for callers that need an error.
    NotFound(MemeId),
    /// The backend, or the way to it, failed.
    BackendError(Fault),
    /// A stored item does not decode to a well-formed record.
    DataCorruption(String),
}

/// Mathematical model of a `RepoError`.
pub enum RepoErrorView {
    NotFound(MemeId),
    BackendError(FaultView),
    DataCorruption(Seq<char>),
}

impl View for RepoError {
    type V = RepoErrorView;

    open spec fn view(&self) -> RepoErrorView {
        match self {
            RepoError::NotFound(id) => RepoErrorView::NotFound(*id),
            RepoError::BackendError(fault) => RepoErrorView::BackendError(fault@),
            RepoError::DataCorruption(detail) => RepoErrorView::DataCorruption(detail@),
        }
    }
}

impl RepoErrorView {
    /// The message of the error.
    pub open spec fn text(self) -> Seq<char> {
        match self {
            RepoErrorView::NotFound(id) => "Meme metadata not found with ID: "@ + id.text(),
            RepoErrorView::BackendError(fault) => "Database backend error: "@ + fault.context,
            RepoErrorView::DataCorruption(detail) => "Data corruption detected: "@ + detail,
        }
    }
}

impl RepoError {
    /// The message of the error.
    pub fn to_string(&self) -> (message: String)
        ensures
            message@ == self@.text(),
    {
        match self {
            RepoError::NotFound(id) => {
                let id_text = id.to_string();
                join2("Meme metadata not found with ID: ", id_text.as_str())
            },
            RepoError::BackendError(fault) => join2(
                "Database backend error: ",
                fault.context.as_str(),
            ),
            RepoError::DataCorruption(detail) => join2(
                "Data corruption detected: ",
                detail.as_str(),
            ),
        }
    }
}

/// Failure of a blob store operation.
#[derive(Clone, Debug, PartialEq, Eq)]
pub enum StorageError {
    /// The backend rejected a write; the text says why.
    UploadFailed(String),
    /// No object is stored under the key.
    NotFound(String),
    /// The backend, or the way to it, failed.
    BackendError(Fault),
}

/// Mathematical model of a `StorageError`.
pub enum StorageErrorView {
    UploadFailed(Seq<char>),
    NotFound(Seq<char>),
    BackendError(FaultView),
}

impl View for StorageError {
    type V = StorageErrorView;

    open spec fn view(&self) -> StorageErrorView {
        match self {
            StorageError::UploadFailed(reason) => StorageErrorView::UploadFailed(reason@),
            StorageError::NotFound(key) => StorageErrorView::NotFound(key@),
            StorageError::BackendError(fault) => StorageErrorView::BackendError(fault@),
        }
    }
}

impl StorageErrorView {
    /// The message of the error.
    pub open spec fn text(self) -> Seq<char> {
        match self {
            StorageErrorView::UploadFailed(reason) => "File upload failed: "@ + reason,
            StorageErrorView::NotFound(key) => "File not found with key: "@ + key,
            StorageErrorView::BackendError(fault) => "Storage backend error: "@ + fault.context,
        }
    }
}

impl StorageError {
    /// The message of the error.
    pub fn to_string(&self) -> (message: String)
        ensures
            message@ == self@.text(),
    {
        match self {
            StorageError::UploadFailed(reason) => join2("File upload failed: ", reason.as_str()),
            StorageError::NotFound(key) => join2("File not found with key: ", key.as_str()),
            StorageError::BackendError(fault) => join2(
                "Storage backend error: ",
                fault.context.as_str(),
            ),
        }
    }
}

/// The two resources that the service provisions at startup.
#[derive(Clone, Copy, Debug, PartialEq, Eq, Structural)]
pub enum ResourceKind {
    /// The table of the metadata store.
    Table,
    /// The bucket of the blob store.
    Bucket,
}

/// Provisioning of a resource could not complete.
#[derive(Clone, Debug, PartialEq, Eq)]
pub struct InitError {
    pub kind: ResourceKind,
    /// Name of the table or bucket.
    pub resource: String,
    /// The failure of the last attempt.
    pub cause: SdkFailure,
}

/// Mathematical model of an `InitError`.
pub struct InitErrorView {
    pub kind: ResourceKind,
    pub resource: Seq<char>,
    pub cause: SdkFailureView,
}

impl View for InitError {
    type V = InitErrorView;

    open spec fn view(&self) -> InitErrorView {
        InitErrorView { kind: self.kind, resource: self.resource@, cause: self.cause@ }
    }
}

impl InitErrorView {
    /// How the message starts: it tells an answer of the service from a
    /// failure to reach it.
    pub open spec fn opening(self) -> Seq<char> {
        if self.cause is ServiceError {
            "Unrecoverable service error creating "@
        } else {
            "Unrecoverable SDK error creating "@
        }
    }

    /// How the message names the kind of resource.
    pub open spec fn kind_text(self) -> Seq<char> {
        match self.kind {
            ResourceKind::Table => "DynamoDB table '"@,
            ResourceKind::Bucket => "S3 bucket '"@,
        }
    }

    /// The message of the error.
    pub open spec fn text(self) -> Seq<char> {
        self.opening() + self.kind_text() + self.resource + "': "@ + self.cause.message()
    }
}

impl InitError {
    /// The message of the error: what could not be created, and why.
    pub fn to_string(&self) -> (message: String)
        ensures
            message@ == self@.text(),
    {
        let opening = match &self.cause {
            SdkFailure::ServiceError(_) => "Unrecoverable service error creating ",
            _ => "Unrecoverable SDK error creating ",
        };
        let kind_text = match self.kind {
            ResourceKind::Table => "DynamoDB table '",
            ResourceKind::Bucket => "S3 bucket '",
        };
        join5(opening, kind_text, self.resource.as_str(), "': ", self.cause.message().as_str())
    }
}

/// What the service reports to the outside: every failure of a request or
/// of startup, as the web layer sees it.
#[derive(Clone, Debug, PartialEq, Eq)]
pub enum AppError {
    /// The request holds something unusable; the text says what.
    InvalidInput(String),
    /// The form lacks the named field.
    MissingFormField(String),
    /// The form could not be read; the text says why.
    MultipartError(String),
    /// An identifier in the request is no identifier; the text says why.
    InvalidUuid(String),
    /// No record has the identifier.
    MemeNotFound(MemeId),
    /// No object is stored under the key.
    ImageNotFound(String),
    /// The metadata repository failed.
    RepositoryError(RepoError),
    /// The blob store failed.
    StorageError(StorageError),
    /// The configuration is unusable; the text says why.
    ConfigError(String),
    /// Startup could not complete; the text says why.
    InitError(String),
    /// Anything else went wrong inside the service.
    InternalServerError(String),
}

/// Mathematical model of an `AppError`.
pub enum AppErrorView {
    InvalidInput(Seq<char>),
    MissingFormField(Seq<char>),
    MultipartError(Seq<char>),
    InvalidUuid(Seq<char>),
    MemeNotFound(MemeId),
    ImageNotFound(Seq<char>),
    RepositoryError(RepoErrorView),
    StorageError(StorageErrorView),
    ConfigError(Seq<char>),
    InitError(Seq<char>),
    InternalServerError(Seq<char>),
}

impl View for AppError {
    type V = AppErrorView;

    open spec fn view(&self) -> AppErrorView {
        match self {
            AppError::InvalidInput(m) => AppErrorView::InvalidInput(m@),
            AppError::MissingFormField(m) => AppErrorView::MissingFormField(m@),
            AppError::MultipartError(m) => AppErrorView::MultipartError(m@),
            AppError::InvalidUuid(m) => AppErrorView::InvalidUuid(m@),
            AppError::MemeNotFound(id) => AppErrorView::MemeNotFound(*id),
            AppError::ImageNotFound(key) => AppErrorView::ImageNotFound(key@),
            AppError::RepositoryError(e) => AppErrorView::RepositoryError(e@),
            AppError::StorageError(e) => AppErrorView::StorageError(e@),
            AppError::ConfigError(m) => AppErrorView::ConfigError(m@),
            AppError::InitError(m) => AppErrorView::InitError(m@),
            AppError::InternalServerError(m) => AppErrorView::InternalServerError(m@),
        }
    }
}

impl AppErrorView {
    /// The HTTP status that answers the error: 400 for a bad request, 404
    /// for something not found, 500 for every fault of the service.
    pub open spec fn status(self) -> u16 {
        match self {
            AppErrorView::InvalidInput(_) => 400,
            AppErrorView::MissingFormField(_) => 400,
            AppErrorView::MultipartError(_) => 400,
            AppErrorView::InvalidUuid(_) => 400,
            AppErrorView::MemeNotFound(_) => 404,
            AppErrorView::ImageNotFound(_) => 404,
            _ => 500,
        }
    }

    /// What the client is told. A fault of the service is named in general
    /// terms only; its details stay in the logs.
    pub open spec fn client_text(self) -> Seq<char> {
        match self {
            AppErrorView::InvalidInput(m) => m,
            AppErrorView::MissingFormField(field) => "Missing form field: "@ + field,
            AppErrorView::MultipartError(m) => "Invalid multipart form data: "@ + m,
            AppErrorView::InvalidUuid(m) => "Invalid ID format: "@ + m,
            AppErrorView::MemeNotFound(id) => "Meme metadata not found with ID: "@ + id.text(),
            AppErrorView::ImageNotFound(key) => "Image not found with key: "@ + key,
            AppErrorView::RepositoryError(_) => "Database operation failed"@,
            AppErrorView::StorageError(_) => "File storage operation failed"@,
            AppErrorView::ConfigError(_) => "Server configuration error"@,
            AppErrorView::InitError(_) => "Server initialization error"@,
            AppErrorView::InternalServerError(_) => "An internal server error occurred"@,
        }
    }

    /// The message of the error, for the logs.
    pub open spec fn text(self) -> Seq<char> {
        match self {
            AppErrorView::InvalidInput(m) => "Invalid input: "@ + m,
            AppErrorView::MissingFormField(field) => "Missing form field: "@ + field,
            AppErrorView::MultipartError(m) => "Error processing multipart form data: "@ + m,
            AppErrorView::InvalidUuid(m) => "Invalid meme ID format: "@ + m,
            AppErrorView::MemeNotFound(id) => "Meme metadata not found with ID: "@ + id.text(),
            AppErrorView::ImageNotFound(key) => "Image file not found with key: "@ + key,
            AppErrorView::RepositoryError(_) => "Could not process meme data"@,
            AppErrorView::StorageError(_) => "Could not perform file storage operation"@,
            AppErrorView::ConfigError(m) => "Configuration error: "@ + m,
            AppErrorView::InitError(m) => "Initialization error: "@ + m,
            AppErrorView::InternalServerError(m) => "Internal server error: "@ + m,
        }
    }
}

/// The error of the web layer for a failure of the repository: a missing
/// record stays one, everything else is a fault of the repository.
pub open spec fn app_error_of_repo(error: RepoErrorView) -> AppErrorView {
    match error {
        RepoErrorView::NotFound(id) => AppErrorView::MemeNotFound(id),
        _ => AppErrorView::RepositoryError(error),
    }
}

/// The error of the web layer for a failure of the blob store: a missing
/// object stays one, everything else is a fault of the store.
pub open spec fn app_error_of_storage(error: StorageErrorView) -> AppErrorView {
    match error {
        StorageErrorView::NotFound(key) => AppErrorView::ImageNotFound(key),
        _ => AppErrorView::StorageError(error),
    }
}

impl AppError {
    /// The error of the web layer for a failure of the repository.
    pub fn from_repo(err: RepoError) -> (error: AppError)
        ensures
            error@ == app_error_of_repo(err@),
    {
        match err {
            RepoError::NotFound(id) => AppError::MemeNotFound(id),
            RepoError::BackendError(fault) => AppError::RepositoryError(
                RepoError::BackendError(fault),
            ),
            RepoError::DataCorruption(detail) => AppError::RepositoryError(
                RepoError::DataCorruption(detail),
            ),
        }
    }

    /// The error of the web layer for a failure of the blob store.
    pub fn from_storage(err: StorageError) -> (error: AppError)
        ensures
            error@ == app_error_of_storage(err@),
    {
        match err {
            StorageError::NotFound(key) => AppError::ImageNotFound(key),
            StorageError::UploadFailed(reason) => AppError::StorageError(
                StorageError::UploadFailed(reason),
            ),
            StorageError::BackendError(fault) => AppError::StorageError(
                StorageError::BackendError(fault),
            ),
        }
    }

    /// The error of the web layer for a failure of provisioning: it carries
    /// the message of the failure.
    pub fn from_init(err: &InitError) -> (error: AppError)
        ensures
            error@ == AppErrorView::InitError(err@.text()),
    {
        AppError::InitError(err.to_string())
    }

    /// The HTTP status that answers the error.
    pub fn status_code(&self) -> (status: u16)
        ensures
            status == self@.status(),
    {
        match self {
            AppError::InvalidInput(_) => 400,
            AppError::MissingFormField(_) => 400,
            AppError::MultipartError(_) => 400,
            AppError::InvalidUuid(_) => 400,
            AppError::MemeNotFound(_) => 404,
            AppError::ImageNotFound(_) => 404,
            _ => 500,
        }
    }

    /// What the client is told.
    pub fn client_message(&self) -> (message: String)
        ensures
            message@ == self@.client_text(),
    {
        match self {
            AppError::InvalidInput(m) => m.clone(),
            AppError::MissingFormField(field) => join2("Missing form field: ", field.as_str()),
            AppError::MultipartError(m) => join2("Invalid multipart form data: ", m.as_str()),
            AppError::InvalidUuid(m) => join2("Invalid ID format: ", m.as_str()),
            AppError::MemeNotFound(id) => {
                let id_text = id.to_string();
                join2("Meme metadata not found with ID: ", id_text.as_str())
            },
            AppError::ImageNotFound(key) => join2("Image not found with key: ", key.as_str()),
            AppError::RepositoryError(_) => String::from_str("Database operation failed"),
            AppError::StorageError(_) => String::from_str("File storage operation failed"),
            AppError::ConfigError(_) => String::from_str("Server configuration error"),
            AppError::InitError(_) => String::from_str("Server initialization error"),
            AppError::InternalServerError(_) => String::from_str(
                "An internal server error occurred",
            ),
        }
    }

    /// The message of the error, for the logs.
    pub fn to_string(&self) -> (message: String)
        ensures
            message@ == self@.text(),
    {
        match self {
            AppError::InvalidInput(m) => join2("Invalid input: ", m.as_str()),
            AppError::MissingFormField(field) => join2("Missing form field: ", field.as_str()),
            AppError::MultipartError(m) => join2(
                "Error processing multipart form data: ",
                m.as_str(),
            ),
            AppError::InvalidUuid(m) => join2("Invalid meme ID format: ", m.as_str()),
            AppError::MemeNotFound(id) => {
                let id_text = id.to_string();
                join2("Meme metadata not found with ID: ", id_text.as_str())
            },
            AppError::ImageNotFound(key) => join2("Image file not found with key: ", key.as_str()),
            AppError::RepositoryError(_) => String::from_str("Could not process meme data"),
            AppError::StorageError(_) => String::from_str(
                "Could not perform file storage operation",
            ),
            AppError::ConfigError(m) => join2("Configuration error: ", m.as_str()),
            AppError::InitError(m) => join2("Initialization error: ", m.as_str()),
            AppError::InternalServerError(m) => join2("Internal server error: ", m.as_str()),
        }
    }
}

} // verus!
