//! Provisioning of the backing table and bucket at startup.
//!
//! A resource is created by asking the backend until the request succeeds, the
//! backend says that the resource is already there, a failure shows that asking
//! again is pointless, or the retry schedule is used up. This module decides,
//! after each attempt, which of these holds; the driver sends the requests and
//! sleeps between them. The schedule is that of the `backoff` crate, made
//! from a policy of this module.

use vstd::prelude::*;
use vstd::string::*;
use std::time::Duration;
use backoff::exponential::ExponentialBackoff;
use backoff::SystemClock;
use crate::backend::{done_view, SdkFailure, SdkFailureView, ServiceFault, ServiceFaultView};
use crate::errors::{InitError, InitErrorView, ResourceKind};
use crate::text::same_text;

verus! {

/// The retry schedule of the `backoff` crate, `ExponentialBackoff`, carried
/// as a value whose inside is not looked at.
#[verifier::external_type_specification]
#[verifier::external_body]
#[verifier::reject_recursive_types(C)]
pub struct ExExponentialBackoff<C>(ExponentialBackoff<C>);

/// The clock of the `backoff` crate that reads the system's time,
/// `SystemClock`: the clock of the schedules used here.
#[verifier::external_type_specification]
#[verifier::external_body]
pub struct ExSystemClock(SystemClock);

/// Parameters of the retry schedule, in milliseconds.
#[derive(Clone, Copy, Debug, PartialEq, Eq, Structural)]
pub struct RetryPolicy {
    /// Wait before the first retry.
    pub initial_interval_ms: u64,
    /// Factor by which the wait grows from one retry to the next.
    pub multiplier: u32,
    /// Largest wait between two attempts.
    pub max_interval_ms: u64,
    /// Time after which no further attempt is made.
    pub max_elapsed_ms: u64,
}

/// A retry schedule. Its inside is private: a schedule is made from a policy
/// by this module and in no other way.
#[derive(Debug)]
pub struct RetrySchedule {
    inner: ExponentialBackoff<SystemClock>,
}

/// Makes an `ExponentialBackoff` of the `backoff` crate with the policy's
/// intervals, multiplier and time limit; its other fields are those of the
/// crate's `Default`, among them the share by which a wait is varied at
/// random. Nothing is claimed of the schedule.
#[verifier::external_body]
fn schedule_of(policy: RetryPolicy) -> (schedule: RetrySchedule) {
    RetrySchedule {
        inner: ExponentialBackoff {
            current_interval: Duration::from_millis(policy.initial_interval_ms),
            initial_interval: Duration::from_millis(policy.initial_interval_ms),
            multiplier: policy.multiplier.into(),
            max_interval: Duration::from_millis(policy.max_interval_ms),
            max_elapsed_time: Some(Duration::from_millis(policy.max_elapsed_ms)),
            ..Default::default()
        },
    }
}

/// Calls `reset` of `backoff::backoff::Backoff` on the schedule, which puts
/// its interval back to the initial one and starts its clock anew. Nothing is
/// claimed of the schedule afterwards.
#[verifier::external_body]
fn restart(schedule: &mut RetrySchedule) {
    backoff::backoff::Backoff::reset(&mut schedule.inner)
}

/// Calls `next_backoff` of `backoff::backoff::Backoff` on the schedule: the
/// time to wait before the next attempt, or `None` once the schedule is used
/// up. The answer depends on the clock and on chance, so nothing is claimed
/// of it. The call adds the time that has passed to the wait it has drawn;
/// the intervals of every `RetrySchedule` come from a count of milliseconds
/// in 64 bits, which keeps that sum far below the largest `Duration`.
#[verifier::external_body]
fn next_delay(schedule: &mut RetrySchedule) -> (delay: Option<Duration>) {
    backoff::backoff::Backoff::next_backoff(&mut schedule.inner)
}

/// The policy for provisioning: waits start near half a second, double up
/// to five seconds, and end after fifteen seconds in all.
pub fn default_resource_backoff() -> (policy: RetryPolicy)
    ensures
        policy == (RetryPolicy {
            initial_interval_ms: 500,
            multiplier: 2,
            max_interval_ms: 5000,
            max_elapsed_ms: 15000,
        }),
{
    RetryPolicy {
        initial_interval_ms: 500,
        multiplier: 2,
        max_interval_ms: 5000,
        max_elapsed_ms: 15000,
    }
}

/// Type of a key attribute.
#[derive(Clone, Copy, Debug, PartialEq, Eq, Structural)]
pub enum ScalarAttributeType {
    S,
    N,
    B,
}

/// Role of an attribute in the key of a table.
#[derive(Clone, Copy, Debug, PartialEq, Eq, Structural)]
pub enum KeyType {
    Hash,
    Range,
}

/// How the use of a table is billed.
#[derive(Clone, Copy, Debug, PartialEq, Eq, Structural)]
pub enum BillingMode {
    Provisioned,
    PayPerRequest,
}

/// Request to create the table of the metadata store.
#[derive(Clone, Debug, PartialEq, Eq)]
pub struct CreateTableRequest {
    pub table_name: String,
    /// Name of the attribute that keys the table.
    pub key_attribute: String,
    pub key_attribute_type: ScalarAttributeType,
    pub key_type: KeyType,
    pub billing_mode: BillingMode,
}

/// Request to create the bucket of the blob store.
#[derive(Clone, Debug, PartialEq, Eq)]
pub struct CreateBucketRequest {
    pub bucket: String,
    /// Where the bucket is to live; `None` leaves the choice to the backend.
    pub location_constraint: Option<String>,
}

/// The request that creates the metadata table: keyed by the string
/// attribute `meme_id` alone, billed per request.
pub fn create_table_request(table_name: &str) -> (request: CreateTableRequest)
    ensures
        request.table_name@ == table_name@,
        request.key_attribute@ == "meme_id"@,
        request.key_attribute_type == ScalarAttributeType::S,
        request.key_type == KeyType::Hash,
        request.billing_mode == BillingMode::PayPerRequest,
{
    CreateTableRequest {
        table_name: String::from_str(table_name),
        key_attribute: String::from_str("meme_id"),
        key_attribute_type: ScalarAttributeType::S,
        key_type: KeyType::Hash,
        billing_mode: BillingMode::PayPerRequest,
    }
}

/// The locality that a bucket request must name: none where the bucket goes
/// to the backend's default locality, `us-east-1`, which some backends refuse
/// to be told.
pub open spec fn location_for(region: Seq<char>) -> Option<Seq<char>> {
    if region == "us-east-1"@ {
        None
    } else {
        Some(region)
    }
}

/// The request that creates the blob bucket in the given locality.
pub fn create_bucket_request(bucket_name: &str, region: &str) -> (request: CreateBucketRequest)
    ensures
        request.bucket@ == bucket_name@,
        request.location_constraint.deep_view() == location_for(region@),
{
    let location_constraint = if same_text(region, "us-east-1") {
        None
    } else {
        Some(String::from_str(region))
    };
    CreateBucketRequest { bucket: String::from_str(bucket_name), location_constraint }
}

/// What a failed creation attempt means for the attempts that may follow.
#[derive(Clone, Copy, Debug, PartialEq, Eq, Structural)]
pub enum Disposition {
    /// The resource is there already: as good as success.
    AlreadyExists,
    /// The failure may pass: worth another attempt.
    Transient,
    /// Asking again will not help.
    Permanent,
}

/// Tells whether a failure is the backend's way of saying that the resource
/// exists: for the table the code `ResourceInUseException`, for the bucket
/// `BucketAlreadyOwnedByYou` or `BucketAlreadyExists`.
pub open spec fn signals_already_exists(kind: ResourceKind, failure: SdkFailureView) -> bool {
    match kind {
        ResourceKind::Table => failure.has_code("ResourceInUseException"@),
        ResourceKind::Bucket => failure.has_code("BucketAlreadyOwnedByYou"@) || failure.has_code(
            "BucketAlreadyExists"@,
        ),
    }
}

/// The error codes by which the backends say that requests come too fast.
pub open spec fn is_throttling_code(code: Seq<char>) -> bool {
    ||| code == "Throttling"@
    ||| code == "ThrottlingException"@
    ||| code == "TooManyRequestsException"@
    ||| code == "RequestLimitExceeded"@
    ||| code == "ProvisionedThroughputExceededException"@
    ||| code == "LimitExceededException"@
    ||| code == "SlowDown"@
}

/// Tells whether the service turned a request away for coming too fast: by
/// status 429 or by one of the throttling codes.
pub open spec fn signals_throttling(fault: ServiceFaultView) -> bool {
    fault.status == 429 || (fault.code matches Some(code) && is_throttling_code(code))
}

/// The meaning of a failed creation attempt.
///
/// A request that was not sent or not answered in time may succeed when sent
/// again. An answer of the service is final where it rejects the request as
/// such (status 400 to 499) without throttling it; any other answer, a server
/// fault among them, is taken to pass. A request that could not be built, and
/// an answer that could not be read, will not improve.
pub open spec fn disposition(kind: ResourceKind, failure: SdkFailureView) -> Disposition {
    match failure {
        SdkFailureView::DispatchFailure(_) => Disposition::Transient,
        SdkFailureView::TimeoutError(_) => Disposition::Transient,
        SdkFailureView::ServiceError(fault) => {
            if signals_already_exists(kind, failure) {
                Disposition::AlreadyExists
            } else if signals_throttling(fault) {
                Disposition::Transient
            } else if 400 <= fault.status <= 499 {
                Disposition::Permanent
            } else {
                Disposition::Transient
            }
        },
        SdkFailureView::ConstructionFailure(_) => Disposition::Permanent,
        SdkFailureView::ResponseError(_) => Disposition::Permanent,
    }
}

/// Tells whether a failure says that the resource exists already.
pub fn already_exists(kind: ResourceKind, failure: &SdkFailure) -> (exists: bool)
    ensures
        exists == signals_already_exists(kind, failure@),
{
    match kind {
        ResourceKind::Table => failure.has_code("ResourceInUseException"),
        ResourceKind::Bucket => failure.has_code("BucketAlreadyOwnedByYou") || failure.has_code(
            "BucketAlreadyExists",
        ),
    }
}

/// Tells whether the service throttled the request.
pub fn is_throttled(fault: &ServiceFault) -> (throttled: bool)
    ensures
        throttled == signals_throttling(fault@),
{
    if fault.status == 429 {
        return true;
    }
    match &fault.code {
        Some(code) => {
            let code = code.as_str();
            same_text(code, "Throttling") || same_text(code, "ThrottlingException") || same_text(
                code,
                "TooManyRequestsException",
            ) || same_text(code, "RequestLimitExceeded") || same_text(
                code,
                "ProvisionedThroughputExceededException",
            ) || same_text(code, "LimitExceededException") || same_text(code, "SlowDown")
        },
        None => false,
    }
}

/// Classifies a failed creation attempt.
pub fn classify(kind: ResourceKind, failure: &SdkFailure) -> (verdict: Disposition)
    ensures
        verdict == disposition(kind, failure@),
{
    match failure {
        SdkFailure::DispatchFailure(_) => Disposition::Transient,
        SdkFailure::TimeoutError(_) => Disposition::Transient,
        SdkFailure::ServiceError(fault) => {
            if already_exists(kind, failure) {
                Disposition::AlreadyExists
            } else if is_throttled(fault) {
                Disposition::Transient
            } else if 400 <= fault.status && fault.status <= 499 {
                Disposition::Permanent
            } else {
                Disposition::Transient
            }
        },
        SdkFailure::ConstructionFailure(_) => Disposition::Permanent,
        SdkFailure::ResponseError(_) => Disposition::Permanent,
    }
}

/// Tells whether a failed attempt to create the table is worth repeating.
pub fn is_dynamodb_create_error_retryable(err: &SdkFailure) -> (retryable: bool)
    ensures
        retryable == (disposition(ResourceKind::Table, err@) == Disposition::Transient),
{
    match classify(ResourceKind::Table, err) {
        Disposition::Transient => true,
        _ => false,
    }
}

/// Tells whether a failed attempt to create the bucket is worth repeating.
pub fn is_s3_create_error_retryable(err: &SdkFailure) -> (retryable: bool)
    ensures
        retryable == (disposition(ResourceKind::Bucket, err@) == Disposition::Transient),
{
    match classify(ResourceKind::Bucket, err) {
        Disposition::Transient => true,
        _ => false,
    }
}

/// Model of the result of provisioning.
pub open spec fn result_view(result: Result<(), InitError>) -> Result<(), InitErrorView> {
    match result {
        Ok(()) => Ok(()),
        Err(error) => Err(error@),
    }
}

/// How provisioning ends on a failure after which no attempt follows:
/// well where the failure says that the resource exists, else with an error
/// that carries the resource's name and the failure.
pub open spec fn final_outcome(kind: ResourceKind, name: Seq<char>, failure: SdkFailureView)
    -> Result<(), InitErrorView> {
    if signals_already_exists(kind, failure) {
        Ok(())
    } else {
        Err(InitErrorView { kind, resource: name, cause: failure })
    }
}

/// Ends provisioning on a failure after which no attempt follows.
pub fn handle_final_error(kind: ResourceKind, sdk_error: SdkFailure, name: &str) -> (result: Result<
    (),
    InitError,
>)
    ensures
        result_view(result) == final_outcome(kind, name@, sdk_error@),
{
    if already_exists(kind, &sdk_error) {
        Ok(())
    } else {
        Err(InitError { kind, resource: String::from_str(name), cause: sdk_error })
    }
}

/// Ends the provisioning of the table on its last failure.
pub fn handle_final_dynamodb_error(sdk_error: SdkFailure, table_name: &str) -> (result: Result<
    (),
    InitError,
>)
    ensures
        result_view(result) == final_outcome(ResourceKind::Table, table_name@, sdk_error@),
{
    handle_final_error(ResourceKind::Table, sdk_error, table_name)
}

/// Ends the provisioning of the bucket on its last failure.
pub fn handle_final_s3_error(sdk_error: SdkFailure, bucket_name: &str) -> (result: Result<
    (),
    InitError,
>)
    ensures
        result_view(result) == final_outcome(ResourceKind::Bucket, bucket_name@, sdk_error@),
{
    handle_final_error(ResourceKind::Bucket, sdk_error, bucket_name)
}

/// What the driver does after an attempt.
#[derive(Debug, PartialEq, Eq)]
pub enum Action {
    /// Provisioning is over, with this result.
    Finish(Result<(), InitError>),
    /// Wait this long, then send the request again.
    RetryAfter(Duration),
}

/// Mathematical model of an `Action`.
pub enum ActionView {
    Finish(Result<(), InitErrorView>),
    RetryAfter(Duration),
}

impl View for Action {
    type V = ActionView;

    open spec fn view(&self) -> ActionView {
        match self {
            Action::Finish(result) => ActionView::Finish(result_view(*result)),
            Action::RetryAfter(wait) => ActionView::RetryAfter(*wait),
        }
    }
}

/// The step that follows an attempt, given what the schedule allows: the wait
/// before another attempt, or `None` when it allows no more.
///
/// Success ends provisioning well. A transient failure is followed by another
/// attempt as long as the schedule allows one. Every other failure ends
/// provisioning at once, as does a transient one when the schedule is used up.
pub open spec fn next_step(
    kind: ResourceKind,
    name: Seq<char>,
    outcome: Result<(), SdkFailureView>,
    delay: Option<Duration>,
) -> ActionView {
    match outcome {
        Ok(()) => ActionView::Finish(Ok(())),
        Err(failure) => {
            if disposition(kind, failure) == Disposition::Transient && delay is Some {
                ActionView::RetryAfter(delay->0)
            } else {
                ActionView::Finish(final_outcome(kind, name, failure))
            }
        },
    }
}

/// Tells whether an attempt failed in a way that is worth repeating.
pub open spec fn is_transient(kind: ResourceKind, outcome: Result<(), SdkFailureView>) -> bool {
    outcome matches Err(failure) && disposition(kind, failure) == Disposition::Transient
}

/// Decides the step that follows an attempt on the resource called `name`,
/// where `delay` is what the retry schedule allows.
pub fn decide(
    kind: ResourceKind,
    name: &str,
    outcome: Result<(), SdkFailure>,
    delay: Option<Duration>,
) -> (action: Action)
    ensures
        action@ == next_step(kind, name@, done_view(outcome), delay),
{
    match outcome {
        Ok(()) => Action::Finish(Ok(())),
        Err(failure) => {
            let verdict = classify(kind, &failure);
            match (verdict, delay) {
                (Disposition::Transient, Some(wait)) => Action::RetryAfter(wait),
                _ => Action::Finish(handle_final_error(kind, failure, name)),
            }
        },
    }
}

/// The count of attempts after one more, which stays at the largest
/// countable value once there.
pub open spec fn one_more(attempts: u64) -> u64 {
    if attempts < u64::MAX {
        (attempts + 1) as u64
    } else {
        attempts
    }
}

/// The provisioning of one resource: which resource, how often creation was
/// attempted, and the retry schedule.
#[derive(Debug)]
pub struct Provisioning {
    pub kind: ResourceKind,
    /// Name of the table or bucket.
    pub name: String,
    /// Attempts whose outcome has been reported.
    pub attempts: u64,
    /// The schedule that spaces and bounds the attempts.
    pub schedule: RetrySchedule,
}

impl Provisioning {
    /// Starts provisioning the resource called `name`, with a schedule made
    /// from `policy` and started now.
    pub fn begin(kind: ResourceKind, name: &str, policy: RetryPolicy) -> (provisioning:
        Provisioning)
        ensures
            provisioning.kind == kind,
            provisioning.name@ == name@,
            provisioning.attempts == 0,
    {
        let mut schedule = schedule_of(policy);
        restart(&mut schedule);
        Provisioning { kind, name: String::from_str(name), attempts: 0, schedule }
    }

    /// Takes the outcome of an attempt and decides what follows.
    ///
    /// The step is `next_step` of the outcome and of what the schedule
    /// allowed. The schedule is consulted after a transient failure only:
    /// after any other outcome the step is the final one and the schedule is
    /// left as it was.
    pub fn on_attempt(&mut self, outcome: Result<(), SdkFailure>) -> (action: Action)
        ensures
            final(self).kind == old(self).kind,
            final(self).name@ == old(self).name@,
            final(self).attempts == one_more(old(self).attempts),
            exists|delay: Option<Duration>|
                action@ == next_step(
                    old(self).kind,
                    old(self).name@,
                    done_view(outcome),
                    delay,
                ),
            !is_transient(old(self).kind, done_view(outcome)) ==> {
                &&& action@ == next_step(
                    old(self).kind,
                    old(self).name@,
                    done_view(outcome),
                    None,
                )
                &&& final(self).schedule == old(self).schedule
            },
    {
        if self.attempts < u64::MAX {
            self.attempts = self.attempts + 1;
        }
        let transient = match &outcome {
            Ok(()) => false,
            Err(failure) => match classify(self.kind, failure) {
                Disposition::Transient => true,
                _ => false,
            },
        };
        let delay = if transient {
            next_delay(&mut self.schedule)
        } else {
            None
        };
        decide(self.kind, self.name.as_str(), outcome, delay)
    }
}

/// How a series of attempts ends.
pub struct RunView {
    /// The result of provisioning; `None` while another attempt is due.
    pub result: Option<Result<(), InitErrorView>>,
    /// The attempts made.
    pub attempts: nat,
}

/// Provisioning played through on paper: `outcomes[i]` is what the backend
/// answers to the attempt `i`, and `delays[i]` what the schedule allows after
/// it. Attempts are made until a step finishes or the answers run out.
pub open spec fn run(
    kind: ResourceKind,
    name: Seq<char>,
    outcomes: Seq<Result<(), SdkFailureView>>,
    delays: Seq<Option<Duration>>,
) -> RunView
    decreases outcomes.len(),
{
    if outcomes.len() == 0 || delays.len() == 0 {
        RunView { result: None, attempts: 0 }
    } else {
        match next_step(kind, name, outcomes[0], delays[0]) {
            ActionView::Finish(result) => RunView { result: Some(result), attempts: 1 },
            ActionView::RetryAfter(_) => {
                let rest = run(kind, name, outcomes.drop_first(), delays.drop_first());
                RunView { result: rest.result, attempts: rest.attempts + 1 }
            },
        }
    }
}

/// Provisioning a resource that is there never fails: when the backend
/// answers the first attempt with success or by saying that the resource
/// exists already, provisioning ends well after that one attempt.
pub proof fn lemma_existing_resource_is_success(
    kind: ResourceKind,
    name: Seq<char>,
    outcomes: Seq<Result<(), SdkFailureView>>,
    delays: Seq<Option<Duration>>,
)
    requires
        outcomes.len() > 0,
        delays.len() > 0,
        outcomes[0] is Ok || (outcomes[0] matches Err(failure) && signals_already_exists(
            kind,
            failure,
        )),
    ensures
        run(kind, name, outcomes, delays) == (RunView { result: Some(Ok(())), attempts: 1 }),
{
}

/// Attempts go on until one ends provisioning: after `retries` attempts that
/// fail in a transient way, each followed by a wait that the schedule allows,
/// the step that follows the next attempt, where it is final, gives the
/// result, and that attempt is number `retries + 1`.
pub proof fn lemma_run_ends_after_retries(
    kind: ResourceKind,
    name: Seq<char>,
    outcomes: Seq<Result<(), SdkFailureView>>,
    delays: Seq<Option<Duration>>,
    retries: nat,
)
    requires
        retries < outcomes.len(),
        retries < delays.len(),
        forall|i: int|
            0 <= i < retries ==> is_transient(kind, #[trigger] outcomes[i]) && delays[i] is Some,
        next_step(kind, name, outcomes[retries as int], delays[retries as int]) is Finish,
    ensures
        run(kind, name, outcomes, delays) == (RunView {
            result: Some(
                next_step(
                    kind,
                    name,
                    outcomes[retries as int],
                    delays[retries as int],
                )->Finish_0,
            ),
            attempts: retries + 1,
        }),
    decreases retries,
{
    if retries > 0 {
        let rest_outcomes = outcomes.drop_first();
        let rest_delays = delays.drop_first();
        assert forall|i: int| 0 <= i < retries - 1 implies is_transient(
            kind,
            #[trigger] rest_outcomes[i],
        ) && rest_delays[i] is Some by {
            assert(rest_outcomes[i] == outcomes[i + 1]);
            assert(rest_delays[i] == delays[i + 1]);
        }
        assert(rest_outcomes[retries - 1] == outcomes[retries as int]);
        assert(rest_delays[retries - 1] == delays[retries as int]);
        lemma_run_ends_after_retries(
            kind,
            name,
            rest_outcomes,
            rest_delays,
            (retries - 1) as nat,
        );
        assert(is_transient(kind, outcomes[0]));
        assert(delays[0] is Some);
    }
}

/// Transient failures are retried: after `failures` attempts that fail in a
/// transient way, each followed by a wait that the schedule allows, an
/// attempt that succeeds ends provisioning well, as attempt `failures + 1`.
pub proof fn lemma_retries_until_success(
    kind: ResourceKind,
    name: Seq<char>,
    outcomes: Seq<Result<(), SdkFailureView>>,
    delays: Seq<Option<Duration>>,
    failures: nat,
)
    requires
        failures < outcomes.len(),
        failures < delays.len(),
        forall|i: int|
            0 <= i < failures ==> is_transient(kind, #[trigger] outcomes[i]) && delays[i] is Some,
        outcomes[failures as int] is Ok,
    ensures
        run(kind, name, outcomes, delays) == (RunView {
            result: Some(Ok(())),
            attempts: failures + 1,
        }),
{
    lemma_run_ends_after_retries(kind, name, outcomes, delays, failures);
}

/// A permanent failure is not retried: when the first attempt fails in a
/// permanent way, provisioning fails after that one attempt, with the
/// resource's name and the failure, whatever the schedule allows.
pub proof fn lemma_permanent_failure_ends_at_once(
    kind: ResourceKind,
    name: Seq<char>,
    outcomes: Seq<Result<(), SdkFailureView>>,
    delays: Seq<Option<Duration>>,
)
    requires
        outcomes.len() > 0,
        delays.len() > 0,
        outcomes[0] matches Err(failure) && disposition(kind, failure) == Disposition::Permanent,
    ensures
        run(kind, name, outcomes, delays) == (RunView {
            result: Some(
                Err(InitErrorView { kind, resource: name, cause: outcomes[0]->Err_0 }),
            ),
            attempts: 1,
        }),
{
}

/// A used-up schedule turns the last transient failure into the error: when
/// an attempt fails in a transient way and the schedule allows no further
/// attempt, provisioning fails with that failure.
pub proof fn lemma_exhausted_schedule_reports_last_failure(
    kind: ResourceKind,
    name: Seq<char>,
    failure: SdkFailureView,
)
    requires
        disposition(kind, failure) == Disposition::Transient,
    ensures
        next_step(kind, name, Err(failure), None) == ActionView::Finish(
            Err(InitErrorView { kind, resource: name, cause: failure }),
        ),
{
}

/// An error of provisioning names what was provisioned: it carries the kind
/// and the name of the resource, and one of the failures that the backend
/// answered with.
pub proof fn lemma_run_names_its_resource(
    kind: ResourceKind,
    name: Seq<char>,
    outcomes: Seq<Result<(), SdkFailureView>>,
    delays: Seq<Option<Duration>>,
)
    ensures
        run(kind, name, outcomes, delays).result matches Some(Err(error)) ==> {
            &&& error.kind == kind
            &&& error.resource == name
            &&& exists|i: int| 0 <= i < outcomes.len() && outcomes[i] == Err::<
                (),
                SdkFailureView,
            >(error.cause)
        },
    decreases outcomes.len(),
{
    if outcomes.len() > 0 && delays.len() > 0 {
        match next_step(kind, name, outcomes[0], delays[0]) {
            ActionView::Finish(result) => {
                if let Err(error) = result {
                    assert(outcomes[0] == Err::<(), SdkFailureView>(error.cause));
                }
            },
            ActionView::RetryAfter(_) => {
                let rest = outcomes.drop_first();
                lemma_run_names_its_resource(kind, name, rest, delays.drop_first());
                if let Some(Err(error)) = run(kind, name, rest, delays.drop_first()).result {
                    let i: int = choose|i: int|
                        0 <= i < rest.len() && rest[i] == Err::<(), SdkFailureView>(error.cause);
                    assert(outcomes[i + 1] == rest[i]);
                }
            },
        }
    }
}

} // verus!
