use std::time::Duration;

use meme_store::backend::{SdkFailure, ServiceFault};
use meme_store::errors::{InitError, ResourceKind};
use meme_store::startup::{
    already_exists, classify, create_bucket_request, create_table_request, decide,
    default_resource_backoff, handle_final_dynamodb_error, handle_final_error,
    handle_final_s3_error, is_dynamodb_create_error_retryable, is_s3_create_error_retryable,
    is_throttled, Action, BillingMode, Disposition, KeyType, Provisioning, RetryPolicy,
    ScalarAttributeType,
};

fn service_failure(status: u16, code: Option<&str>) -> SdkFailure {
    SdkFailure::ServiceError(ServiceFault {
        status,
        code: code.map(|c| c.to_string()),
        message: "service error".to_string(),
    })
}

fn patient_schedule() -> RetryPolicy {
    default_resource_backoff()
}

fn used_up_schedule() -> RetryPolicy {
    RetryPolicy { max_elapsed_ms: 0, ..default_resource_backoff() }
}

#[test]
fn default_policy_has_the_documented_parameters() {
    assert_eq!(
        default_resource_backoff(),
        RetryPolicy {
            initial_interval_ms: 500,
            multiplier: 2,
            max_interval_ms: 5000,
            max_elapsed_ms: 15000,
        }
    );
}

#[test]
fn table_request_describes_the_schema() {
    let request = create_table_request("memes");
    assert_eq!(request.table_name, "memes");
    assert_eq!(request.key_attribute, "meme_id");
    assert_eq!(request.key_attribute_type, ScalarAttributeType::S);
    assert_eq!(request.key_type, KeyType::Hash);
    assert_eq!(request.billing_mode, BillingMode::PayPerRequest);
}

#[test]
fn bucket_request_omits_the_default_locality() {
    let request = create_bucket_request("images", "us-east-1");
    assert_eq!(request.bucket, "images");
    assert_eq!(request.location_constraint, None);
}

#[test]
fn bucket_request_names_any_other_locality() {
    let request = create_bucket_request("images", "ca-central-1");
    assert_eq!(request.bucket, "images");
    assert_eq!(request.location_constraint, Some("ca-central-1".to_string()));
    let request = create_bucket_request("images", "US-EAST-1");
    assert_eq!(request.location_constraint, Some("US-EAST-1".to_string()));
    let request = create_bucket_request("images", "");
    assert_eq!(request.location_constraint, Some(String::new()));
}

#[test]
fn failures_to_reach_the_backend_are_transient() {
    for kind in [ResourceKind::Table, ResourceKind::Bucket] {
        assert_eq!(
            classify(kind, &SdkFailure::DispatchFailure("connection refused".to_string())),
            Disposition::Transient
        );
        assert_eq!(
            classify(kind, &SdkFailure::TimeoutError("timed out".to_string())),
            Disposition::Transient
        );
    }
}

#[test]
fn unusable_requests_and_answers_are_permanent() {
    for kind in [ResourceKind::Table, ResourceKind::Bucket] {
        assert_eq!(
            classify(kind, &SdkFailure::ConstructionFailure("missing field".to_string())),
            Disposition::Permanent
        );
        assert_eq!(
            classify(kind, &SdkFailure::ResponseError("unreadable".to_string())),
            Disposition::Permanent
        );
    }
}

#[test]
fn server_faults_are_transient() {
    for status in [500u16, 502, 503, 599] {
        assert_eq!(
            classify(ResourceKind::Table, &service_failure(status, Some("InternalServerError"))),
            Disposition::Transient
        );
        assert_eq!(
            classify(ResourceKind::Bucket, &service_failure(status, None)),
            Disposition::Transient
        );
    }
}

#[test]
fn rejected_requests_are_permanent() {
    assert_eq!(
        classify(ResourceKind::Table, &service_failure(400, Some("ValidationException"))),
        Disposition::Permanent
    );
    assert_eq!(
        classify(ResourceKind::Table, &service_failure(403, Some("AccessDeniedException"))),
        Disposition::Permanent
    );
    assert_eq!(
        classify(ResourceKind::Bucket, &service_failure(403, Some("AccessDenied"))),
        Disposition::Permanent
    );
    assert_eq!(
        classify(ResourceKind::Bucket, &service_failure(400, Some("InvalidBucketName"))),
        Disposition::Permanent
    );
    assert_eq!(classify(ResourceKind::Bucket, &service_failure(499, None)), Disposition::Permanent);
    assert_eq!(classify(ResourceKind::Table, &service_failure(400, None)), Disposition::Permanent);
}

#[test]
fn throttled_requests_are_transient() {
    let codes = [
        "Throttling",
        "ThrottlingException",
        "TooManyRequestsException",
        "RequestLimitExceeded",
        "ProvisionedThroughputExceededException",
        "LimitExceededException",
        "SlowDown",
    ];
    for code in codes {
        assert_eq!(
            classify(ResourceKind::Table, &service_failure(400, Some(code))),
            Disposition::Transient
        );
        assert_eq!(
            classify(ResourceKind::Bucket, &service_failure(400, Some(code))),
            Disposition::Transient
        );
    }
    assert_eq!(classify(ResourceKind::Table, &service_failure(429, None)), Disposition::Transient);
    assert_eq!(
        classify(ResourceKind::Bucket, &service_failure(429, Some("Whatever"))),
        Disposition::Transient
    );
}

#[test]
fn is_throttled_reads_status_and_code() {
    let fault = |status: u16, code: Option<&str>| ServiceFault {
        status,
        code: code.map(|c| c.to_string()),
        message: String::new(),
    };
    assert!(is_throttled(&fault(429, None)));
    assert!(is_throttled(&fault(503, Some("SlowDown"))));
    assert!(is_throttled(&fault(400, Some("ThrottlingException"))));
    assert!(!is_throttled(&fault(400, Some("throttlingexception"))));
    assert!(!is_throttled(&fault(400, Some("ValidationException"))));
    assert!(!is_throttled(&fault(400, None)));
    assert!(!is_throttled(&fault(500, None)));
}

#[test]
fn other_answers_of_the_service_are_transient() {
    assert_eq!(
        classify(ResourceKind::Bucket, &service_failure(301, Some("PermanentRedirect"))),
        Disposition::Transient
    );
    assert_eq!(classify(ResourceKind::Table, &service_failure(399, None)), Disposition::Transient);
    assert_eq!(classify(ResourceKind::Table, &service_failure(600, None)), Disposition::Transient);
}

#[test]
fn already_exists_signals_are_told_by_kind() {
    let in_use = service_failure(400, Some("ResourceInUseException"));
    let owned = service_failure(409, Some("BucketAlreadyOwnedByYou"));
    let taken = service_failure(409, Some("BucketAlreadyExists"));
    assert_eq!(classify(ResourceKind::Table, &in_use), Disposition::AlreadyExists);
    assert_eq!(classify(ResourceKind::Bucket, &owned), Disposition::AlreadyExists);
    assert_eq!(classify(ResourceKind::Bucket, &taken), Disposition::AlreadyExists);
    assert_eq!(classify(ResourceKind::Bucket, &in_use), Disposition::Permanent);
    assert_eq!(classify(ResourceKind::Table, &owned), Disposition::Permanent);
    assert!(already_exists(ResourceKind::Table, &in_use));
    assert!(!already_exists(ResourceKind::Bucket, &in_use));
    assert!(already_exists(ResourceKind::Bucket, &owned));
    assert!(already_exists(ResourceKind::Bucket, &taken));
    assert!(!already_exists(ResourceKind::Table, &taken));
    assert!(!already_exists(
        ResourceKind::Table,
        &SdkFailure::DispatchFailure("ResourceInUseException".to_string())
    ));
}

#[test]
fn already_exists_wins_over_the_status() {
    assert_eq!(
        classify(ResourceKind::Table, &service_failure(500, Some("ResourceInUseException"))),
        Disposition::AlreadyExists
    );
    assert_eq!(
        classify(ResourceKind::Bucket, &service_failure(429, Some("BucketAlreadyExists"))),
        Disposition::AlreadyExists
    );
}

#[test]
fn retryable_means_transient() {
    assert!(is_dynamodb_create_error_retryable(&SdkFailure::TimeoutError("t".to_string())));
    assert!(is_dynamodb_create_error_retryable(&service_failure(500, None)));
    assert!(!is_dynamodb_create_error_retryable(&service_failure(
        400,
        Some("ResourceInUseException")
    )));
    assert!(!is_dynamodb_create_error_retryable(&service_failure(
        400,
        Some("ValidationException")
    )));
    assert!(!is_dynamodb_create_error_retryable(&SdkFailure::ConstructionFailure(
        "c".to_string()
    )));
    assert!(is_s3_create_error_retryable(&SdkFailure::DispatchFailure("d".to_string())));
    assert!(is_s3_create_error_retryable(&service_failure(503, Some("SlowDown"))));
    assert!(!is_s3_create_error_retryable(&service_failure(409, Some("BucketAlreadyOwnedByYou"))));
    assert!(!is_s3_create_error_retryable(&service_failure(409, Some("BucketAlreadyExists"))));
    assert!(!is_s3_create_error_retryable(&service_failure(403, Some("AccessDenied"))));
    assert!(!is_s3_create_error_retryable(&SdkFailure::ResponseError("r".to_string())));
}

#[test]
fn final_error_is_success_when_the_resource_exists() {
    assert_eq!(
        handle_final_dynamodb_error(service_failure(400, Some("ResourceInUseException")), "memes"),
        Ok(())
    );
    assert_eq!(
        handle_final_s3_error(service_failure(409, Some("BucketAlreadyOwnedByYou")), "images"),
        Ok(())
    );
    assert_eq!(
        handle_final_s3_error(service_failure(409, Some("BucketAlreadyExists")), "images"),
        Ok(())
    );
}

#[test]
fn final_error_carries_name_and_cause() {
    let cause = service_failure(400, Some("ValidationException"));
    assert_eq!(
        handle_final_dynamodb_error(cause.clone(), "memes"),
        Err(InitError {
            kind: ResourceKind::Table,
            resource: "memes".to_string(),
            cause: cause.clone()
        })
    );
    let timeout = SdkFailure::TimeoutError("request has timed out".to_string());
    assert_eq!(
        handle_final_s3_error(timeout.clone(), "images"),
        Err(InitError {
            kind: ResourceKind::Bucket,
            resource: "images".to_string(),
            cause: timeout.clone()
        })
    );
    assert_eq!(
        handle_final_error(ResourceKind::Bucket, cause.clone(), "b"),
        Err(InitError { kind: ResourceKind::Bucket, resource: "b".to_string(), cause })
    );
}

#[test]
fn init_error_message_names_resource_and_cause() {
    let error = InitError {
        kind: ResourceKind::Table,
        resource: "memes".to_string(),
        cause: SdkFailure::ServiceError(ServiceFault {
            status: 400,
            code: Some("ValidationException".to_string()),
            message: "bad schema".to_string(),
        }),
    };
    assert_eq!(
        error.to_string(),
        "Unrecoverable service error creating DynamoDB table 'memes': bad schema"
    );
    let error = InitError {
        kind: ResourceKind::Bucket,
        resource: "images".to_string(),
        cause: SdkFailure::DispatchFailure("dispatch failure".to_string()),
    };
    assert_eq!(
        error.to_string(),
        "Unrecoverable SDK error creating S3 bucket 'images': dispatch failure"
    );
}

#[test]
fn decide_finishes_on_success() {
    let wait = Some(Duration::from_millis(500));
    assert_eq!(decide(ResourceKind::Table, "memes", Ok(()), wait), Action::Finish(Ok(())));
    assert_eq!(decide(ResourceKind::Bucket, "images", Ok(()), None), Action::Finish(Ok(())));
}

#[test]
fn decide_retries_a_transient_failure_while_the_schedule_allows() {
    let wait = Duration::from_millis(730);
    assert_eq!(
        decide(
            ResourceKind::Table,
            "memes",
            Err(SdkFailure::TimeoutError("t".to_string())),
            Some(wait)
        ),
        Action::RetryAfter(wait)
    );
    assert_eq!(
        decide(ResourceKind::Bucket, "images", Err(service_failure(503, None)), Some(wait)),
        Action::RetryAfter(wait)
    );
}

#[test]
fn decide_reports_the_last_transient_failure_when_the_schedule_is_used_up() {
    let cause = SdkFailure::TimeoutError("t".to_string());
    assert_eq!(
        decide(ResourceKind::Table, "memes", Err(cause.clone()), None),
        Action::Finish(Err(InitError {
            kind: ResourceKind::Table,
            resource: "memes".to_string(),
            cause
        }))
    );
}

#[test]
fn decide_does_not_retry_a_permanent_failure() {
    let cause = service_failure(400, Some("ValidationException"));
    assert_eq!(
        decide(
            ResourceKind::Table,
            "memes",
            Err(cause.clone()),
            Some(Duration::from_millis(500))
        ),
        Action::Finish(Err(InitError {
            kind: ResourceKind::Table,
            resource: "memes".to_string(),
            cause
        }))
    );
}

#[test]
fn decide_takes_an_existing_resource_for_success() {
    assert_eq!(
        decide(
            ResourceKind::Table,
            "memes",
            Err(service_failure(400, Some("ResourceInUseException"))),
            Some(Duration::from_millis(500))
        ),
        Action::Finish(Ok(()))
    );
    assert_eq!(
        decide(
            ResourceKind::Bucket,
            "images",
            Err(service_failure(409, Some("BucketAlreadyOwnedByYou"))),
            None
        ),
        Action::Finish(Ok(()))
    );
}

#[test]
fn two_transient_failures_then_success_take_three_attempts() {
    let mut run = Provisioning::begin(ResourceKind::Table, "memes", patient_schedule());
    assert_eq!(run.attempts, 0);
    let first = run.on_attempt(Err(SdkFailure::DispatchFailure("d".to_string())));
    assert!(matches!(first, Action::RetryAfter(_)));
    let second = run.on_attempt(Err(service_failure(503, None)));
    assert!(matches!(second, Action::RetryAfter(_)));
    let third = run.on_attempt(Ok(()));
    assert_eq!(third, Action::Finish(Ok(())));
    assert_eq!(run.attempts, 3);
}

#[test]
fn retry_waits_stay_within_the_schedule() {
    let mut run = Provisioning::begin(ResourceKind::Bucket, "images", patient_schedule());
    let first = run.on_attempt(Err(SdkFailure::TimeoutError("t".to_string())));
    match first {
        Action::RetryAfter(wait) => {
            assert!(wait >= Duration::from_millis(250));
            assert!(wait <= Duration::from_millis(751));
        }
        Action::Finish(_) => panic!("a transient failure within the schedule is retried"),
    }
    let second = run.on_attempt(Err(SdkFailure::TimeoutError("t".to_string())));
    match second {
        Action::RetryAfter(wait) => {
            assert!(wait >= Duration::from_millis(500));
            assert!(wait <= Duration::from_millis(1501));
        }
        Action::Finish(_) => panic!("a transient failure within the schedule is retried"),
    }
}

#[test]
fn permanent_failure_ends_after_one_attempt() {
    let cause = service_failure(400, Some("ValidationException"));
    let mut run = Provisioning::begin(ResourceKind::Table, "memes", patient_schedule());
    let action = run.on_attempt(Err(cause.clone()));
    assert_eq!(
        action,
        Action::Finish(Err(InitError {
            kind: ResourceKind::Table,
            resource: "memes".to_string(),
            cause
        }))
    );
    assert_eq!(run.attempts, 1);
}

#[test]
fn used_up_schedule_ends_provisioning_with_the_transient_failure() {
    let cause = SdkFailure::DispatchFailure("connection refused".to_string());
    let mut run = Provisioning::begin(ResourceKind::Bucket, "images", used_up_schedule());
    let action = run.on_attempt(Err(cause.clone()));
    assert_eq!(
        action,
        Action::Finish(Err(InitError {
            kind: ResourceKind::Bucket,
            resource: "images".to_string(),
            cause
        }))
    );
    assert_eq!(run.attempts, 1);
}

#[test]
fn existing_resource_ends_provisioning_well() {
    let mut run = Provisioning::begin(ResourceKind::Table, "memes", patient_schedule());
    let action = run.on_attempt(Err(service_failure(400, Some("ResourceInUseException"))));
    assert_eq!(action, Action::Finish(Ok(())));
    assert_eq!(run.attempts, 1);
    assert_eq!(run.name, "memes");
    assert_eq!(run.kind, ResourceKind::Table);
}

#[test]
fn attempts_stop_counting_at_the_largest_value() {
    let mut run = Provisioning::begin(ResourceKind::Table, "memes", patient_schedule());
    run.attempts = u64::MAX - 1;
    run.on_attempt(Ok(()));
    assert_eq!(run.attempts, u64::MAX);
    run.on_attempt(Ok(()));
    assert_eq!(run.attempts, u64::MAX);
}

#[test]
fn waits_follow_the_policy() {
    let policy = RetryPolicy {
        initial_interval_ms: 100,
        multiplier: 3,
        max_interval_ms: 10_000,
        max_elapsed_ms: 60_000,
    };
    let mut run = Provisioning::begin(ResourceKind::Table, "memes", policy);
    let expected: [(u64, u64); 3] = [(50, 151), (150, 451), (450, 1351)];
    for (least, most) in expected {
        match run.on_attempt(Err(SdkFailure::TimeoutError("t".to_string()))) {
            Action::RetryAfter(wait) => {
                assert!(wait >= Duration::from_millis(least));
                assert!(wait <= Duration::from_millis(most));
            }
            Action::Finish(_) => panic!("a transient failure within the schedule is retried"),
        }
    }
}

#[test]
fn waits_are_capped_by_the_policy() {
    let policy = RetryPolicy {
        initial_interval_ms: 400,
        multiplier: 10,
        max_interval_ms: 1000,
        max_elapsed_ms: 600_000,
    };
    let mut run = Provisioning::begin(ResourceKind::Bucket, "images", policy);
    run.on_attempt(Err(SdkFailure::TimeoutError("t".to_string())));
    for _ in 0..5 {
        match run.on_attempt(Err(SdkFailure::TimeoutError("t".to_string()))) {
            Action::RetryAfter(wait) => {
                assert!(wait >= Duration::from_millis(500));
                assert!(wait <= Duration::from_millis(1501));
            }
            Action::Finish(_) => panic!("a transient failure within the schedule is retried"),
        }
    }
}

#[test]
fn extreme_policies_give_a_step() {
    let extremes: [u64; 3] = [0, 1, u64::MAX];
    let multipliers: [u32; 3] = [0, 1, u32::MAX];
    for initial_interval_ms in extremes {
        for max_interval_ms in extremes {
            for max_elapsed_ms in extremes {
                for multiplier in multipliers {
                    let policy = RetryPolicy {
                        initial_interval_ms,
                        multiplier,
                        max_interval_ms,
                        max_elapsed_ms,
                    };
                    let mut run = Provisioning::begin(ResourceKind::Table, "memes", policy);
                    for _ in 0..4 {
                        let action =
                            run.on_attempt(Err(SdkFailure::TimeoutError("t".to_string())));
                        assert!(matches!(action, Action::RetryAfter(_) | Action::Finish(Err(_))));
                    }
                    assert_eq!(run.on_attempt(Ok(())), Action::Finish(Ok(())));
                    assert_eq!(run.attempts, 5);
                }
            }
        }
    }
}
