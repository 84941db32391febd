//! What holds of the storage layer on a backend that works: the laws that
//! relate its operations to one another.
//!
//! The laws speak of the in-memory backends, on which every answer is
//! determined. Those on records and objects suppose a backend that holds the
//! table or bucket in question and has no failure queued; those on
//! provisioning say what queued failures lead to.

use vstd::prelude::*;
use std::time::Duration;
use crate::backend::{AttributeView, SdkFailureView};
use crate::errors::{InitErrorView, RepoErrorView, ResourceKind, StorageErrorView};
use crate::in_memory::{bucket_answers, table_answers};
use crate::memory::{
    invalid_location, key_item, lemma_key_item_lookup, lemma_rejections_are_final,
    lemma_upsert_stores, lemma_with_object_stores, lemma_without_removes, slot, stored,
    BucketModel, StoredObjectView, TableModel,
};
use crate::models::{MemeId, MemeView};
use crate::repositories::{decode, encode, get_result, key_of, lemma_lookup_encoded, write_result};
use crate::startup::{
    disposition, is_transient, lemma_permanent_failure_ends_at_once, lemma_run_ends_after_retries,
    location_for, next_step, run, ActionView, Disposition, RunView,
};
use crate::storage::{download_result, upload_result};

verus! {

/// Provisioning the table is idempotent: when a first provisioning ends
/// well, so does a second one that follows it.
pub proof fn lemma_table_provisioning_is_idempotent(model: TableModel, name: Seq<char>)
    requires
        !model.pending(),
        next_step(ResourceKind::Table, name, model.create_answer(name), None)
            == ActionView::Finish(Ok(())),
    ensures
        !model.after_create(name).pending(),
        model.after_create(name).serves(name),
        next_step(
            ResourceKind::Table,
            name,
            model.after_create(name).create_answer(name),
            None,
        ) == ActionView::Finish(Ok(())),
{
    lemma_rejections_are_final();
}

/// Provisioning the bucket is idempotent: when a first provisioning ends
/// well, so does a second one that follows it, in whatever locality.
pub proof fn lemma_bucket_provisioning_is_idempotent(
    model: BucketModel,
    name: Seq<char>,
    region: Seq<char>,
    again: Seq<char>,
)
    requires
        !model.pending(),
        next_step(
            ResourceKind::Bucket,
            name,
            model.create_answer(name, location_for(region)),
            None,
        ) == ActionView::Finish(Ok(())),
    ensures
        !model.after_create(name, location_for(region)).pending(),
        model.after_create(name, location_for(region)).serves(name),
        next_step(
            ResourceKind::Bucket,
            name,
            model.after_create(name, location_for(region)).create_answer(
                name,
                location_for(again),
            ),
            None,
        ) == ActionView::Finish(Ok(())),
{
    lemma_rejections_are_final();
}

/// A record that was created is found: after `create` of a record, a lookup
/// of its identifier returns the record, with every field as it was given.
/// Records with other identifiers are where they were.
pub proof fn lemma_created_record_is_found(model: TableModel, table: Seq<char>, meme: MemeView)
    requires
        model.wf(),
        model.serves(table),
        !model.pending(),
        meme.meme_id.reads_back(),
    ensures
        write_result(table, "put"@, meme.meme_id, model.put_answer(table, encode(meme))) == Ok::<
            (),
            RepoErrorView,
        >(()),
        model.after_put(table, encode(meme)).wf(),
        get_result(
            table,
            meme.meme_id,
            model.after_put(table, encode(meme)).get_answer(table, key_of(meme.meme_id)),
        ) == Ok::<Option<MemeView>, RepoErrorView>(Some(meme)),
        forall|other: MemeId|
            other.text() != meme.meme_id.text() ==> #[trigger] model.after_put(
                table,
                encode(meme),
            ).get_answer(table, key_of(other)) == model.get_answer(table, key_of(other)),
{
    let key = meme.meme_id.text();
    lemma_lookup_encoded(meme);
    lemma_upsert_stores(model.rows, key, encode(meme));
    lemma_key_item_lookup(key);
    assert(key_of(meme.meme_id) =~= key_item(key));
    assert(decode(encode(meme)) == Some(meme));
    let after = model.after_put(table, encode(meme));
    assert forall|other: MemeId| other.text() != key implies #[trigger] after.get_answer(
        table,
        key_of(other),
    ) == model.get_answer(table, key_of(other)) by {
        lemma_key_item_lookup(other.text());
        assert(key_of(other) =~= key_item(other.text()));
        assert(stored(after.rows, other.text()) == stored(model.rows, other.text()));
    }
}

/// A record that was never created is not found, and that is no error: a
/// lookup of an identifier under which nothing is stored returns `None`.
pub proof fn lemma_missing_record_is_none(model: TableModel, table: Seq<char>, id: MemeId)
    requires
        model.serves(table),
        !model.pending(),
        stored(model.rows, id.text()) is None,
    ensures
        get_result(table, id, model.get_answer(table, key_of(id))) == Ok::<
            Option<MemeView>,
            RepoErrorView,
        >(None),
{
    lemma_key_item_lookup(id.text());
    assert(key_of(id) =~= key_item(id.text()));
}

/// Deleting is idempotent: `delete` succeeds whether or not a record is
/// stored under the identifier. Afterwards none is, and where none was, the
/// table is as before.
pub proof fn lemma_delete_is_idempotent(model: TableModel, table: Seq<char>, id: MemeId)
    requires
        model.wf(),
        model.serves(table),
        !model.pending(),
    ensures
        write_result(table, "delete"@, id, model.delete_answer(table, key_of(id))) == Ok::<
            (),
            RepoErrorView,
        >(()),
        model.after_delete(table, key_of(id)).wf(),
        stored(model.after_delete(table, key_of(id)).rows, id.text()) is None,
        stored(model.rows, id.text()) is None ==> model.after_delete(table, key_of(id)).rows
            == model.rows,
        get_result(
            table,
            id,
            model.after_delete(table, key_of(id)).get_answer(table, key_of(id)),
        ) == Ok::<Option<MemeView>, RepoErrorView>(None),
{
    lemma_key_item_lookup(id.text());
    assert(key_of(id) =~= key_item(id.text()));
    lemma_without_removes(model.rows, id.text());
}

/// A missing object is told from a failing backend: a download of a key
/// under which nothing is stored fails with `NotFound` of that key.
pub proof fn lemma_absent_object_is_not_found(model: BucketModel, bucket: Seq<char>, key: Seq<char>)
    requires
        model.serves(bucket),
        !model.pending(),
        slot(model.objects, key) is None,
    ensures
        download_result(key, model.get_answer(bucket, key)) == Err::<
            (Seq<u8>, Option<Seq<char>>),
            StorageErrorView,
        >(StorageErrorView::NotFound(key)),
{
}

/// Only the backend's `NoSuchKey` makes a download fail with `NotFound`:
/// every other failure is reported as a backend error.
pub proof fn lemma_not_found_needs_no_such_key(key: Seq<char>, failure: SdkFailureView)
    ensures
        download_result::<Seq<u8>>(key, Err(failure)) is Err,
        download_result::<Seq<u8>>(key, Err(failure))->Err_0 is NotFound <==> failure.has_code(
            "NoSuchKey"@,
        ),
        !failure.has_code("NoSuchKey"@) ==> download_result::<Seq<u8>>(
            key,
            Err(failure),
        )->Err_0 is BackendError,
{
}

/// An object that was uploaded is downloaded: after `upload`, a download of
/// the key returns the bytes and the media type that were stored.
pub proof fn lemma_uploaded_object_is_downloaded(
    model: BucketModel,
    bucket: Seq<char>,
    object: StoredObjectView,
)
    requires
        model.wf(),
        model.serves(bucket),
        !model.pending(),
    ensures
        upload_result(object.key, model.write_answer(bucket)) == Ok::<(), StorageErrorView>(()),
        model.after_put(bucket, object).wf(),
        download_result(
            object.key,
            model.after_put(bucket, object).get_answer(bucket, object.key),
        ) == Ok::<(Seq<u8>, Option<Seq<char>>), StorageErrorView>(
            (object.body, Some(object.content_type)),
        ),
{
    lemma_with_object_stores(model.objects, object);
}

/// The repository reports what it detected and nothing else: a lookup never
/// fails with `NotFound`, it reports corruption exactly for an item that
/// stores no record, and a backend error exactly for a failure of the
/// backend.
pub proof fn lemma_lookup_errors_are_detected(
    table: Seq<char>,
    id: MemeId,
    outcome: Result<Option<Seq<AttributeView>>, SdkFailureView>,
)
    ensures
        !(get_result(table, id, outcome) matches Err(RepoErrorView::NotFound(_))),
        get_result(table, id, outcome) matches Err(RepoErrorView::DataCorruption(_)) <==> (
        outcome matches Ok(Some(item)) && decode(item) is None),
        get_result(table, id, outcome) matches Err(RepoErrorView::BackendError(_))
            <==> outcome is Err,
{
}

/// An upsert and a removal fail for a failure of the backend only, and then
/// with a backend error that carries it.
pub proof fn lemma_write_errors_are_backend_errors(
    table: Seq<char>,
    verb: Seq<char>,
    id: MemeId,
    outcome: Result<(), SdkFailureView>,
)
    ensures
        write_result(table, verb, id, outcome) is Ok <==> outcome is Ok,
        outcome matches Err(failure) ==> write_result(table, verb, id, outcome) matches Err(
            RepoErrorView::BackendError(fault),
        ) && fault.cause == failure,
{
}

/// Queued transient failures are retried until the table is there: on a
/// backend that answers with transient failures before it serves, and with a
/// schedule that allows a wait after each of them, provisioning ends well,
/// and the attempt that ends it follows the last failure.
pub proof fn lemma_transient_failures_are_outlasted(
    model: TableModel,
    name: Seq<char>,
    delays: Seq<Option<Duration>>,
)
    requires
        model.name == name,
        delays.len() > model.faults.len(),
        forall|i: int|
            0 <= i < model.faults.len() ==> disposition(
                ResourceKind::Table,
                #[trigger] model.faults[i],
            ) == Disposition::Transient,
        forall|i: int| 0 <= i < model.faults.len() ==> (#[trigger] delays[i]) is Some,
    ensures
        run(ResourceKind::Table, name, table_answers(model, name), delays) == (RunView {
            result: Some(Ok(())),
            attempts: model.faults.len() + 1,
        }),
{
    lemma_rejections_are_final();
    let answers = table_answers(model, name);
    let retries: nat = model.faults.len();
    assert forall|i: int| 0 <= i < retries implies is_transient(
        ResourceKind::Table,
        #[trigger] answers[i],
    ) && delays[i] is Some by {
        assert(answers[i] == Err::<(), SdkFailureView>(model.faults[i]));
    }
    lemma_run_ends_after_retries(ResourceKind::Table, name, answers, delays, retries);
}

/// A queued permanent failure ends provisioning at its attempt: on a backend
/// whose oldest queued failure is permanent, provisioning fails after one
/// attempt with that failure, whatever the schedule allows.
pub proof fn lemma_permanent_failure_is_not_outlasted(
    model: TableModel,
    name: Seq<char>,
    delays: Seq<Option<Duration>>,
)
    requires
        model.pending(),
        delays.len() > 0,
        disposition(ResourceKind::Table, model.faults[0]) == Disposition::Permanent,
    ensures
        run(ResourceKind::Table, name, table_answers(model, name), delays) == (RunView {
            result: Some(
                Err(
                    InitErrorView {
                        kind: ResourceKind::Table,
                        resource: name,
                        cause: model.faults[0],
                    },
                ),
            ),
            attempts: 1,
        }),
{
    let answers = table_answers(model, name);
    assert(answers[0] == Err::<(), SdkFailureView>(model.faults[0]));
    lemma_permanent_failure_ends_at_once(ResourceKind::Table, name, answers, delays);
}

/// Queued transient failures are retried until the bucket is there: on a
/// backend that answers with transient failures before it serves, and with a
/// schedule that allows a wait after each of them, provisioning ends well,
/// and the attempt that ends it follows the last failure.
pub proof fn lemma_bucket_transient_failures_are_outlasted(
    model: BucketModel,
    name: Seq<char>,
    region: Seq<char>,
    delays: Seq<Option<Duration>>,
)
    requires
        model.name == name,
        delays.len() > model.faults.len(),
        forall|i: int|
            0 <= i < model.faults.len() ==> disposition(
                ResourceKind::Bucket,
                #[trigger] model.faults[i],
            ) == Disposition::Transient,
        forall|i: int| 0 <= i < model.faults.len() ==> (#[trigger] delays[i]) is Some,
    ensures
        run(ResourceKind::Bucket, name, bucket_answers(model, name, region), delays) == (RunView {
            result: Some(Ok(())),
            attempts: model.faults.len() + 1,
        }),
{
    lemma_rejections_are_final();
    let answers = bucket_answers(model, name, region);
    let retries: nat = model.faults.len();
    assert forall|i: int| 0 <= i < retries implies is_transient(
        ResourceKind::Bucket,
        #[trigger] answers[i],
    ) && delays[i] is Some by {
        assert(answers[i] == Err::<(), SdkFailureView>(model.faults[i]));
    }
    lemma_run_ends_after_retries(ResourceKind::Bucket, name, answers, delays, retries);
}

/// The provisioner never names the default locality: the request that it
/// makes for a bucket is never answered with an invalid locality.
pub proof fn lemma_default_locality_is_omitted(
    model: BucketModel,
    name: Seq<char>,
    region: Seq<char>,
)
    requires
        !model.pending(),
    ensures
        model.create_answer(name, location_for(region)) != Err::<(), SdkFailureView>(
            invalid_location(),
        ),
{
    reveal_strlit("InvalidLocationConstraint");
    reveal_strlit("InvalidBucketName");
    reveal_strlit("BucketAlreadyOwnedByYou");
    assert("InvalidLocationConstraint"@.len() == 25);
    assert("InvalidBucketName"@.len() == 17);
    assert("BucketAlreadyOwnedByYou"@.len() == 23);
}

} // verus!
