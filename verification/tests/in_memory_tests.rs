use meme_store::backend::{Attribute, AttributeValue, Item, PutItemRequest, SdkFailure, ServiceFault};
use meme_store::domain::{FileStorage, MemeRepository};
use meme_store::errors::{Fault, InitError, RepoError, ResourceKind, StorageError};
use meme_store::in_memory::{
    ensure_blob_store, ensure_metadata_store, init_resources, InMemoryFileStorage,
    InMemoryMemeRepository,
};
use meme_store::memory::{MemoryBucket, MemoryTable};
use meme_store::models::{Meme, MemeId};
use meme_store::startup::{default_resource_backoff, RetryPolicy};

fn patient() -> RetryPolicy {
    default_resource_backoff()
}

fn used_up() -> RetryPolicy {
    RetryPolicy { max_elapsed_ms: 0, ..default_resource_backoff() }
}

fn transient() -> SdkFailure {
    SdkFailure::DispatchFailure("connection refused".to_string())
}

fn permanent() -> SdkFailure {
    SdkFailure::ServiceError(ServiceFault {
        status: 400,
        code: Some("ValidationException".to_string()),
        message: "bad schema".to_string(),
    })
}

fn record(n: u128) -> Meme {
    Meme {
        meme_id: MemeId::from_u128(n),
        title: format!("title {}", n),
        description: format!("description {}", n),
        image_key: format!("{}.png", n),
    }
}

fn repository(page_size: usize) -> InMemoryMemeRepository {
    let mut table = MemoryTable::new("memes", page_size);
    assert_eq!(ensure_metadata_store(&mut table, "memes", patient()), Ok(()));
    InMemoryMemeRepository::new(table, "memes".to_string())
}

fn storage() -> InMemoryFileStorage {
    let mut bucket = MemoryBucket::new("images");
    assert_eq!(ensure_blob_store(&mut bucket, "images", "us-east-1", patient()), Ok(()));
    InMemoryFileStorage::new(bucket, "images".to_string())
}

#[test]
fn provisioning_the_table_twice_succeeds_twice() {
    let mut table = MemoryTable::new("memes", 50);
    assert_eq!(ensure_metadata_store(&mut table, "memes", patient()), Ok(()));
    assert!(table.created);
    assert_eq!(ensure_metadata_store(&mut table, "memes", patient()), Ok(()));
    assert!(table.created);
    assert_eq!(table.requests, 2);
}

#[test]
fn provisioning_the_bucket_twice_succeeds_twice() {
    for region in ["us-east-1", "ca-central-1"] {
        let mut bucket = MemoryBucket::new("images");
        assert_eq!(ensure_blob_store(&mut bucket, "images", region, patient()), Ok(()));
        assert!(bucket.created);
        assert_eq!(ensure_blob_store(&mut bucket, "images", region, patient()), Ok(()));
        assert_eq!(bucket.requests, 2);
    }
}

#[test]
fn two_transient_failures_then_success_are_three_attempts() {
    let mut table = MemoryTable::new("memes", 50);
    table.inject_fault(transient());
    table.inject_fault(SdkFailure::TimeoutError("timed out".to_string()));
    assert_eq!(ensure_metadata_store(&mut table, "memes", patient()), Ok(()));
    assert_eq!(table.requests, 3);
    assert!(table.created);
    assert!(table.faults.is_empty());

    let mut bucket = MemoryBucket::new("images");
    bucket.inject_fault(SdkFailure::ServiceError(ServiceFault {
        status: 503,
        code: Some("SlowDown".to_string()),
        message: "slow down".to_string(),
    }));
    bucket.inject_fault(transient());
    assert_eq!(ensure_blob_store(&mut bucket, "images", "eu-west-1", patient()), Ok(()));
    assert_eq!(bucket.requests, 3);
    assert!(bucket.created);
}

#[test]
fn permanent_failure_is_one_attempt() {
    let mut table = MemoryTable::new("memes", 50);
    table.inject_fault(permanent());
    table.inject_fault(transient());
    assert_eq!(
        ensure_metadata_store(&mut table, "memes", patient()),
        Err(InitError {
            kind: ResourceKind::Table,
            resource: "memes".to_string(),
            cause: permanent()
        })
    );
    assert_eq!(table.requests, 1);
    assert!(!table.created);
    assert_eq!(table.faults.len(), 1);
}

#[test]
fn permanent_failure_after_a_transient_one_ends_provisioning() {
    let mut bucket = MemoryBucket::new("images");
    bucket.inject_fault(transient());
    bucket.inject_fault(permanent());
    assert_eq!(
        ensure_blob_store(&mut bucket, "images", "us-east-1", patient()),
        Err(InitError {
            kind: ResourceKind::Bucket,
            resource: "images".to_string(),
            cause: permanent()
        })
    );
    assert_eq!(bucket.requests, 2);
    assert!(!bucket.created);
}

#[test]
fn used_up_schedule_reports_the_transient_failure() {
    let mut table = MemoryTable::new("memes", 50);
    table.inject_fault(transient());
    assert_eq!(
        ensure_metadata_store(&mut table, "memes", used_up()),
        Err(InitError {
            kind: ResourceKind::Table,
            resource: "memes".to_string(),
            cause: transient()
        })
    );
    assert_eq!(table.requests, 1);
}

#[test]
fn provisioning_a_resource_the_backend_cannot_hold_fails_at_once() {
    let mut table = MemoryTable::new("memes", 50);
    let result = ensure_metadata_store(&mut table, "other", patient());
    assert!(matches!(result, Err(InitError { kind: ResourceKind::Table, .. })));
    assert_eq!(table.requests, 1);
}

#[test]
fn init_resources_prepares_table_then_bucket() {
    let mut table = MemoryTable::new("memes", 50);
    let mut bucket = MemoryBucket::new("images");
    assert_eq!(
        init_resources(&mut table, &mut bucket, "memes", "images", "us-east-1", patient()),
        Ok(())
    );
    assert!(table.created);
    assert!(bucket.created);
    assert_eq!(
        init_resources(&mut table, &mut bucket, "memes", "images", "us-east-1", patient()),
        Ok(())
    );
}

#[test]
fn init_resources_stops_at_a_failing_table() {
    let mut table = MemoryTable::new("memes", 50);
    let mut bucket = MemoryBucket::new("images");
    table.inject_fault(permanent());
    let result =
        init_resources(&mut table, &mut bucket, "memes", "images", "us-east-1", patient());
    assert_eq!(
        result,
        Err(InitError {
            kind: ResourceKind::Table,
            resource: "memes".to_string(),
            cause: permanent()
        })
    );
    assert!(!bucket.created);
    assert_eq!(bucket.requests, 0);
}

#[test]
fn init_resources_reports_a_failing_bucket() {
    let mut table = MemoryTable::new("memes", 50);
    let mut bucket = MemoryBucket::new("images");
    bucket.inject_fault(permanent());
    let result =
        init_resources(&mut table, &mut bucket, "memes", "images", "eu-west-1", patient());
    assert_eq!(
        result,
        Err(InitError {
            kind: ResourceKind::Bucket,
            resource: "images".to_string(),
            cause: permanent()
        })
    );
    assert!(table.created);
}

#[test]
fn created_record_is_found_with_every_field() {
    let mut repository = repository(50);
    let meme = record(0xa1);
    assert_eq!(repository.create(&meme), Ok(()));
    assert_eq!(repository.get_by_id(meme.meme_id), Ok(Some(meme)));
}

#[test]
fn create_overwrites_the_record_with_the_same_identifier() {
    let mut repository = repository(50);
    let first = record(7);
    let mut second = record(7);
    second.title = "another title".to_string();
    assert_eq!(repository.create(&first), Ok(()));
    assert_eq!(repository.create(&record(8)), Ok(()));
    assert_eq!(repository.create(&second), Ok(()));
    assert_eq!(repository.get_by_id(MemeId::from_u128(7)), Ok(Some(second.clone())));
    assert_eq!(repository.list_all(), Ok(vec![second, record(8)]));
}

#[test]
fn lookup_of_an_identifier_never_created_is_none() {
    let mut repository = repository(50);
    assert_eq!(repository.get_by_id(MemeId::from_u128(1)), Ok(None));
    assert_eq!(repository.create(&record(2)), Ok(()));
    assert_eq!(repository.get_by_id(MemeId::from_u128(1)), Ok(None));
}

#[test]
fn delete_of_a_missing_record_succeeds() {
    let mut repository = repository(50);
    assert_eq!(repository.delete(MemeId::from_u128(1)), Ok(()));
    assert_eq!(repository.create(&record(1)), Ok(()));
    assert_eq!(repository.delete(MemeId::from_u128(1)), Ok(()));
    assert_eq!(repository.get_by_id(MemeId::from_u128(1)), Ok(None));
    assert_eq!(repository.delete(MemeId::from_u128(1)), Ok(()));
}

#[test]
fn list_all_returns_250_records_served_in_pages_of_50() {
    let mut repository = repository(50);
    let records: Vec<Meme> = (0..250u128).map(record).collect();
    for meme in &records {
        assert_eq!(repository.create(meme), Ok(()));
    }
    let before: u64 = repository.table.requests;
    let listed = repository.list_all().expect("the table is served");
    assert_eq!(repository.table.requests - before, 5);
    assert_eq!(listed.len(), 250);
    assert_eq!(listed, records);
    let mut ids: Vec<u128> = listed.iter().map(|m| m.meme_id.value).collect();
    ids.sort();
    ids.dedup();
    assert_eq!(ids.len(), 250);
}

#[test]
fn list_all_handles_page_sizes_around_the_table_size() {
    for page_size in [1usize, 2, 3, 4, 5, 6, 100] {
        let mut repository = repository(page_size);
        let records: Vec<Meme> = (0..5u128).map(record).collect();
        for meme in &records {
            assert_eq!(repository.create(meme), Ok(()));
        }
        assert_eq!(repository.list_all(), Ok(records));
    }
}

#[test]
fn list_all_stops_asking_at_the_page_with_the_corrupt_row() {
    let mut repository = repository(2);
    for n in 0..3u128 {
        assert_eq!(repository.create(&record(n)), Ok(()));
    }
    let corrupt = Item {
        attributes: vec![Attribute {
            name: "meme_id".to_string(),
            value: AttributeValue::S("broken".to_string()),
        }],
    };
    assert_eq!(
        repository.table.put_item(PutItemRequest { table_name: "memes".to_string(), item: corrupt }),
        Ok(())
    );
    for n in 4..9u128 {
        assert_eq!(repository.create(&record(n)), Ok(()));
    }
    let before: u64 = repository.table.requests;
    assert!(matches!(repository.list_all(), Err(RepoError::DataCorruption(_))));
    assert_eq!(repository.table.requests - before, 2);
}

#[test]
fn list_all_asks_once_when_the_backend_fails() {
    let mut repository = repository(2);
    for n in 0..5u128 {
        assert_eq!(repository.create(&record(n)), Ok(()));
    }
    repository.table.inject_fault(transient());
    let before: u64 = repository.table.requests;
    assert!(matches!(repository.list_all(), Err(RepoError::BackendError(_))));
    assert_eq!(repository.table.requests - before, 1);
    let before: u64 = repository.table.requests;
    assert_eq!(repository.list_all().map(|memes| memes.len()), Ok(5));
    assert_eq!(repository.table.requests - before, 3);
}

#[test]
fn list_all_of_an_empty_table_is_empty() {
    let mut repository = repository(50);
    assert_eq!(repository.list_all(), Ok(vec![]));
    assert_eq!(repository.table.requests, 2);
}

#[test]
fn list_all_fails_fast_on_a_corrupt_row() {
    let mut repository = repository(2);
    for n in 0..3u128 {
        assert_eq!(repository.create(&record(n)), Ok(()));
    }
    let corrupt = Item {
        attributes: vec![Attribute {
            name: "meme_id".to_string(),
            value: AttributeValue::S("broken".to_string()),
        }],
    };
    assert_eq!(
        repository.table.put_item(PutItemRequest { table_name: "memes".to_string(), item: corrupt }),
        Ok(())
    );
    assert_eq!(repository.create(&record(4)), Ok(()));
    assert_eq!(
        repository.list_all(),
        Err(RepoError::DataCorruption(
            "DynamoDB: Failed to parse item 'broken' during scan of table 'memes'".to_string()
        ))
    );
}

#[test]
fn get_by_id_of_a_corrupt_row_is_corruption() {
    let mut repository = repository(50);
    let id = MemeId::from_u128(5);
    let corrupt = Item {
        attributes: vec![Attribute {
            name: "meme_id".to_string(),
            value: AttributeValue::S(id.to_string()),
        }],
    };
    assert_eq!(
        repository.table.put_item(PutItemRequest { table_name: "memes".to_string(), item: corrupt }),
        Ok(())
    );
    assert_eq!(
        repository.get_by_id(id),
        Err(RepoError::DataCorruption(format!(
            "Failed to parse meme data retrieved from DynamoDB table 'memes' for id {}",
            id.to_string()
        )))
    );
}

#[test]
fn repository_reports_backend_failures_without_retrying() {
    let mut repository = repository(50);
    let id = MemeId::from_u128(1);
    let before: u64 = repository.table.requests;
    repository.table.inject_fault(transient());
    assert_eq!(
        repository.create(&record(1)),
        Err(RepoError::BackendError(Fault {
            context: format!("DynamoDB (table: memes): Failed to put meme (id: {})", id.to_string()),
            cause: transient(),
        }))
    );
    assert_eq!(repository.table.requests - before, 1);
    repository.table.inject_fault(transient());
    assert_eq!(
        repository.get_by_id(id),
        Err(RepoError::BackendError(Fault {
            context: format!("DynamoDB (table: memes): Failed to get meme (id: {})", id.to_string()),
            cause: transient(),
        }))
    );
    repository.table.inject_fault(transient());
    assert_eq!(
        repository.delete(id),
        Err(RepoError::BackendError(Fault {
            context: format!(
                "DynamoDB (table: memes): Failed to delete meme (id: {})",
                id.to_string()
            ),
            cause: transient(),
        }))
    );
    repository.table.inject_fault(transient());
    assert_eq!(
        repository.list_all(),
        Err(RepoError::BackendError(Fault {
            context: "DynamoDB: Failed to scan table 'memes'".to_string(),
            cause: transient(),
        }))
    );
    assert_eq!(repository.get_by_id(id), Ok(None));
}

#[test]
fn repository_on_a_table_that_was_not_created_reports_the_backend() {
    let table = MemoryTable::new("memes", 50);
    let mut repository = InMemoryMemeRepository::new(table, "memes".to_string());
    assert!(matches!(repository.list_all(), Err(RepoError::BackendError(_))));
    assert!(matches!(repository.get_by_id(MemeId::from_u128(1)), Err(RepoError::BackendError(_))));
    assert!(matches!(repository.create(&record(1)), Err(RepoError::BackendError(_))));
    assert!(matches!(repository.delete(MemeId::from_u128(1)), Err(RepoError::BackendError(_))));
}

#[test]
fn download_of_an_absent_key_is_not_found_never_a_backend_error() {
    let mut storage = storage();
    assert_eq!(
        storage.download("absent-key"),
        Err(StorageError::NotFound("absent-key".to_string()))
    );
}

#[test]
fn uploaded_object_is_downloaded_with_its_media_type() {
    let mut storage = storage();
    assert_eq!(storage.upload("a1.png", vec![1, 2, 3], Some("image/png".to_string())), Ok(()));
    assert_eq!(storage.download("a1.png"), Ok((vec![1, 2, 3], Some("image/png".to_string()))));
}

#[test]
fn storage_delete_is_idempotent() {
    let mut storage = storage();
    assert_eq!(storage.delete("a1.png"), Ok(()));
    assert_eq!(storage.upload("a1.png", vec![1], None), Ok(()));
    assert_eq!(storage.delete("a1.png"), Ok(()));
    assert_eq!(storage.download("a1.png"), Err(StorageError::NotFound("a1.png".to_string())));
    assert_eq!(storage.delete("a1.png"), Ok(()));
}

#[test]
fn storage_reports_backend_failures() {
    let mut storage = storage();
    let timeout = SdkFailure::TimeoutError("timed out".to_string());
    storage.bucket.inject_fault(timeout.clone());
    assert_eq!(
        storage.download("a1.png"),
        Err(StorageError::BackendError(Fault {
            context: "S3: Failed to download object with key 'a1.png'".to_string(),
            cause: timeout.clone(),
        }))
    );
    storage.bucket.inject_fault(timeout.clone());
    assert_eq!(
        storage.upload("a1.png", vec![1], None),
        Err(StorageError::BackendError(Fault {
            context: "S3: Failed to upload object with key 'a1.png'".to_string(),
            cause: timeout.clone(),
        }))
    );
    storage.bucket.inject_fault(SdkFailure::ServiceError(ServiceFault {
        status: 403,
        code: Some("AccessDenied".to_string()),
        message: "Access Denied".to_string(),
    }));
    assert_eq!(
        storage.upload("a1.png", vec![1], None),
        Err(StorageError::UploadFailed(
            "S3: Failed to upload object with key 'a1.png': Access Denied".to_string()
        ))
    );
    storage.bucket.inject_fault(timeout.clone());
    assert_eq!(
        storage.delete("a1.png"),
        Err(StorageError::BackendError(Fault {
            context: "S3: Failed to delete object with key 'a1.png'".to_string(),
            cause: timeout,
        }))
    );
    assert!(storage.bucket.objects.is_empty());
}

#[test]
fn record_and_blob_scenario() {
    let mut repository = repository(50);
    let mut storage = storage();
    let meme = Meme {
        meme_id: MemeId::from_u128(0xa1),
        title: "t".to_string(),
        description: "d".to_string(),
        image_key: "a1.png".to_string(),
    };
    assert_eq!(repository.create(&meme), Ok(()));
    assert_eq!(storage.upload("a1.png", vec![1, 2, 3], Some("image/png".to_string())), Ok(()));
    let found = repository.get_by_id(MemeId::from_u128(0xa1)).expect("the backend works");
    assert_eq!(found, Some(meme));
    assert_eq!(storage.download("a1.png"), Ok((vec![1, 2, 3], Some("image/png".to_string()))));
}
