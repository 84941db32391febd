//! The storage layer run against the in-memory backends.
//!
//! The repository and the blob store of this module send each request of the
//! `repositories` and `storage` modules to a backend of the `memory` module
//! and read its answer, as a driver does with the real service.

use vstd::prelude::*;
use vstd::arithmetic::div_mod::lemma_fundamental_div_mod_converse;
use std::time::Duration;
use crate::backend::{done_view, AttributeView, SdkFailureView};
use crate::domain::{FileStorage, MemeRepository};
use crate::errors::{
    FaultView, InitError, InitErrorView, RepoError, RepoErrorView, ResourceKind, StorageError,
    StorageErrorView,
};
use crate::memory::{
    key_item, lemma_key_item_lookup, lemma_position_holds, lemma_position_of_row,
    lemma_rejections_are_final, lemma_upsert_stores, lemma_with_object_stores,
    lemma_without_object_removes, lemma_without_removes, no_such_table, object_at, position,
    rows_wf, stored, stored_content_type, upsert, without, BucketModel, MemoryBucket, MemoryTable,
    RowView, StoredObjectView, TableModel,
};
use crate::models::{lemma_texts_differ, Meme, MemeId, MemeView};
use crate::repositories::{
    after_page, corrupt_item_text, decode, decode_all, encode, first_corrupt, found_view,
    get_result, items_of, key_of, lemma_first_corrupt, lemma_first_corrupt_is_first,
    lemma_lookup_encoded, listed_view, scan_context, scan_start, unit_view, write_result,
    DynamoDbMemeRepository, ScanStep, ScanStepView, ScanView,
};
use crate::startup::{
    create_bucket_request, create_table_request, is_transient, lemma_run_ends_after_retries,
    location_for, next_step, result_view, run, Action, ActionView,
    Provisioning, RetryPolicy,
};
use crate::storage::{
    delete_result, download_result, stored_view, upload_result, S3FileStorage,
};

verus! {

/// Rows in which every record stands under the text of its own identifier.
pub open spec fn rows_canonical(rows: Seq<RowView>) -> bool {
    forall|i: int|
        0 <= i < rows.len() ==> (decode((#[trigger] rows[i]).item) matches Some(meme)
            ==> rows[i].key == meme.meme_id.text())
}

/// The record that the rows of a table hold under an identifier.
pub open spec fn record_in(rows: Seq<RowView>, id: MemeId) -> Option<MemeView> {
    match stored(rows, id.text()) {
        Some(item) => decode(item),
        None => None,
    }
}

/// Storing a record under the text of its identifier keeps every record
/// under the text of its own identifier.
pub proof fn lemma_upsert_keeps_canonical(rows: Seq<RowView>, meme: MemeView)
    requires
        rows_canonical(rows),
        meme.meme_id.reads_back(),
    ensures
        rows_canonical(upsert(rows, meme.meme_id.text(), encode(meme))),
{
    let key = meme.meme_id.text();
    let after = upsert(rows, key, encode(meme));
    lemma_lookup_encoded(meme);
    lemma_position_holds(rows, key);
    let place: int = match position(rows, key) {
        Some(place) => place,
        None => rows.len() as int,
    };
    assert forall|i: int| 0 <= i < after.len() implies (decode(
        (#[trigger] after[i]).item,
    ) matches Some(held) ==> after[i].key == held.meme_id.text()) by {
        if i != place {
            assert(after[i] == rows[i]);
        }
    }
}

/// Removing a row keeps every record under the text of its own identifier.
pub proof fn lemma_without_keeps_canonical(rows: Seq<RowView>, key: Seq<char>)
    requires
        rows_canonical(rows),
    ensures
        rows_canonical(without(rows, key)),
{
    let after = without(rows, key);
    lemma_position_holds(rows, key);
    if let Some(place) = position(rows, key) {
        assert forall|i: int| 0 <= i < after.len() implies (decode(
            (#[trigger] after[i]).item,
        ) matches Some(held) ==> after[i].key == held.meme_id.text()) by {
            let from: int = if i < place {
                i
            } else {
                i + 1
            };
            assert(after[i] == rows[from]);
        }
    }
}

/// The records of a table all of whose rows store records, listed row by
/// row, are each record that the table holds, exactly once.
pub proof fn lemma_rows_list_each_record_once(rows: Seq<RowView>)
    requires
        rows_wf(rows),
        rows_canonical(rows),
        first_corrupt(all_items(rows)) is None,
    ensures
        ({
            let memes = decode_all(all_items(rows));
            &&& forall|i: int|
                0 <= i < memes.len() ==> record_in(rows, (#[trigger] memes[i]).meme_id) == Some(
                    memes[i],
                )
            &&& forall|i: int, j: int|
                0 <= i < j < memes.len() ==> (#[trigger] memes[i]).meme_id != (
                #[trigger] memes[j]).meme_id
            &&& forall|id: MemeId|
                (#[trigger] record_in(rows, id)) is Some ==> exists|i: int|
                    0 <= i < memes.len() && (#[trigger] memes[i]).meme_id == id
        }),
{
    let items = all_items(rows);
    let memes = decode_all(items);
    lemma_first_corrupt_is_first(items);
    assert forall|i: int| 0 <= i < memes.len() implies record_in(
        rows,
        (#[trigger] memes[i]).meme_id,
    ) == Some(memes[i]) by {
        assert(decode(items[i]) is Some);
        assert(items[i] == rows[i].item);
        lemma_position_of_row(rows, i);
    }
    assert forall|i: int, j: int| 0 <= i < j < memes.len() implies (#[trigger] memes[i]).meme_id != (
    #[trigger] memes[j]).meme_id by {
        assert(decode(items[i]) is Some);
        assert(decode(items[j]) is Some);
        assert(items[i] == rows[i].item);
        assert(items[j] == rows[j].item);
        assert(rows[i].key != rows[j].key);
    }
    assert forall|id: MemeId| (#[trigger] record_in(rows, id)) is Some implies exists|i: int|
        0 <= i < memes.len() && (#[trigger] memes[i]).meme_id == id by {
        lemma_position_holds(rows, id.text());
        let place: int = position(rows, id.text())->0;
        assert(items[place] == rows[place].item);
        assert(decode(items[place]) is Some);
        let held = decode(rows[place].item)->0;
        assert(rows[place].key == held.meme_id.text());
        if held.meme_id != id {
            lemma_texts_differ(held.meme_id, id);
        }
        assert(memes[place].meme_id == id);
    }
}

/// A metadata repository over a table in memory.
#[derive(Clone, Debug, PartialEq, Eq)]
pub struct InMemoryMemeRepository {
    pub repository: DynamoDbMemeRepository,
    pub table: MemoryTable,
}

/// The items of the rows of a table, in the order of the rows.
pub open spec fn all_items(rows: Seq<RowView>) -> Seq<Seq<AttributeView>> {
    Seq::new(rows.len(), |i: int| rows[i].item)
}

/// The error for a failure of the backend during a scan.
pub open spec fn scan_failure(table: Seq<char>, failure: SdkFailureView) -> RepoErrorView {
    RepoErrorView::BackendError(FaultView { context: scan_context(table), cause: failure })
}

/// The result of an enumeration of the table called `table` on a backend.
///
/// A queued failure, or a backend that does not hold the table, ends it with
/// a backend error. Otherwise it returns the record of every row, each once
/// and in the order of the rows, unless a row stores no record: then it
/// reports the first such row as corruption.
pub open spec fn list_result(model: TableModel, table: Seq<char>) -> Result<
    Seq<MemeView>,
    RepoErrorView,
> {
    if model.pending() {
        Err(scan_failure(table, model.faults[0]))
    } else if !model.serves(table) {
        Err(scan_failure(table, no_such_table()))
    } else {
        match first_corrupt(all_items(model.rows)) {
            Some(place) => Err(
                RepoErrorView::DataCorruption(
                    corrupt_item_text(table, all_items(model.rows)[place]),
                ),
            ),
            None => Ok(decode_all(all_items(model.rows))),
        }
    }
}

/// A count of requests after `more` further requests; it stays at the
/// largest countable value once there.
pub open spec fn counted(requests: u64, more: nat) -> u64 {
    if requests + more <= u64::MAX {
        (requests + more) as u64
    } else {
        u64::MAX
    }
}

/// The number of pages that an enumeration of the table called `table` asks
/// of a backend: one where the first request fails, else the pages up to the
/// one that holds the first row without a record, or all pages of the table,
/// of which an empty table has one.
pub open spec fn pages_read(model: TableModel, table: Seq<char>) -> nat {
    if model.pending() || !model.serves(table) {
        1
    } else {
        match first_corrupt(all_items(model.rows)) {
            Some(place) => (place / (model.page_size as int) + 1) as nat,
            None => if model.rows.len() == 0 {
                1
            } else {
                ((model.rows.len() - 1) / (model.page_size as int) + 1) as nat
            },
        }
    }
}

/// Where the page behind the first `place` rows is asked to start.
pub open spec fn start_key_at(rows: Seq<RowView>, place: int) -> Option<Seq<AttributeView>> {
    if place == 0 {
        None
    } else {
        Some(key_item(rows[place - 1].key))
    }
}

/// A scan that has taken the first `place` rows of a table, all of which
/// store records.
pub open spec fn scan_at(scan: ScanView, table: Seq<char>, rows: Seq<RowView>, place: int) -> bool {
    &&& 0 <= place <= rows.len()
    &&& place > 0 ==> place < rows.len()
    &&& scan.table_name == table
    &&& scan.start_key == start_key_at(rows, place)
    &&& scan.memes == decode_all(all_items(rows).take(place))
    &&& forall|j: int| 0 <= j < place ==> decode(#[trigger] all_items(rows)[j]) is Some
}

/// One page of an enumeration on a backend that holds the table and has no
/// failure queued: the page either ends the enumeration with the result for
/// the whole table, or takes the scan further along the rows.
pub proof fn lemma_page_step(model: TableModel, table: Seq<char>, scan: ScanView, place: int)
    requires
        model.wf(),
        model.serves(table),
        !model.pending(),
        scan_at(scan, table, model.rows, place),
    ensures
        match after_page(scan, model.scan_answer(table, scan.start_key)) {
            ScanStepView::Done(result) => {
                &&& result == list_result(model, table)
                &&& match first_corrupt(all_items(model.rows)) {
                    Some(bad) => place <= bad < place + model.page_size,
                    None => place <= model.rows.len() <= place + model.page_size,
                }
            },
            ScanStepView::Continue(next) => {
                &&& model.page_end(place) == place + model.page_size
                &&& scan_at(next, table, model.rows, model.page_end(place))
            },
        },
{
    let rows = model.rows;
    let items = all_items(rows);
    if place > 0 {
        lemma_key_item_lookup(rows[place - 1].key);
        lemma_position_of_row(rows, place - 1);
    }
    assert(model.page_start(scan.start_key) == Some(place));
    let end = model.page_end(place);
    let page = model.page_at(place);
    assert(model.scan_answer(table, scan.start_key) == Ok::<_, SdkFailureView>(page));
    let page_items = items_of(page);
    assert(page_items.len() == end - place);
    assert forall|i: int| 0 <= i < page_items.len() implies page_items[i] == items[place + i] by {}
    lemma_first_corrupt_is_first(page_items);
    match first_corrupt(page_items) {
        Some(bad) => {
            assert(page_items[bad] == items[place + bad]);
            assert forall|j: int| 0 <= j < place + bad implies decode(
                #[trigger] items[j],
            ) is Some by {
                if j >= place {
                    assert(page_items[j - place] == items[j]);
                }
            }
            lemma_first_corrupt(items, place + bad);
        },
        None => {
            let gathered = scan.memes + decode_all(page_items);
            assert(gathered =~= decode_all(items.take(end))) by {
                assert forall|i: int| 0 <= i < end implies gathered[i] == decode_all(
                    items.take(end),
                )[i] by {
                    if i >= place {
                        assert(page_items[i - place] == items[i]);
                    }
                }
            }
            assert forall|j: int| 0 <= j < end implies decode(#[trigger] items[j]) is Some by {
                if j >= place {
                    assert(page_items[j - place] == items[j]);
                }
            }
            if end < rows.len() {
                assert(page.last_evaluated_key == Some(key_item(rows[end - 1].key)));
            } else {
                assert(items.take(end) =~= items);
                lemma_first_corrupt(items, end);
            }
        },
    }
}

/// Model of the result of a download of bytes.
pub open spec fn downloaded_view(result: Result<(Vec<u8>, Option<String>), StorageError>) -> Result<
    (Seq<u8>, Option<Seq<char>>),
    StorageErrorView,
> {
    match result {
        Ok((body, content_type)) => Ok((body@, content_type.deep_view())),
        Err(error) => Err(error@),
    }
}

impl InMemoryMemeRepository {
    /// A repository that keeps its records in `table`, under the table name
    /// `table_name`. It is valid where the table is well-formed and holds
    /// every record under the text of its own identifier, as an empty table
    /// does.
    pub fn new(table: MemoryTable, table_name: String) -> (repository: InMemoryMemeRepository)
        ensures
            repository.table == table,
            repository.repository.table_name@ == table_name@,
            repository.valid() == (table.wf() && rows_canonical(table@.rows)),
    {
        InMemoryMemeRepository { repository: DynamoDbMemeRepository::new(table_name), table }
    }

    /// The name of the table that requests go to.
    pub open spec fn table_name(&self) -> Seq<char> {
        self.repository.table_name@
    }
}

impl MemeRepository for InMemoryMemeRepository {
    open spec fn valid(&self) -> bool {
        self.table.wf() && rows_canonical(self.table@.rows)
    }

    open spec fn record(&self, id: MemeId) -> Option<MemeView> {
        record_in(self.table@.rows, id)
    }

    fn create(&mut self, meme: &Meme) -> (result: Result<(), RepoError>)
        ensures
            final(self).repository == old(self).repository,
            final(self).table@ == old(self).table@.after_put(old(self).table_name(), encode(meme@)),
            unit_view(result) == write_result(
                old(self).table_name(),
                "put"@,
                meme.meme_id,
                old(self).table@.put_answer(old(self).table_name(), encode(meme@)),
            ),
            old(self).table@.serves(old(self).table_name()) && !old(self).table@.pending() ==> {
                &&& result is Ok
                &&& get_result(
                    old(self).table_name(),
                    meme.meme_id,
                    final(self).table@.get_answer(old(self).table_name(), key_of(meme.meme_id)),
                ) == Ok::<Option<MemeView>, RepoErrorView>(Some(meme@))
            },
    {
        let request = self.repository.create_request(meme);
        proof {
            let rows = self.table@.rows;
            let key = meme.meme_id.text();
            lemma_lookup_encoded(meme@);
            assert(meme.meme_id.reads_back());
            lemma_key_item_lookup(key);
            assert(key_of(meme.meme_id) =~= key_item(key));
            lemma_upsert_stores(rows, key, encode(meme@));
            lemma_upsert_keeps_canonical(rows, meme@);
            assert forall|other: MemeId| other != meme.meme_id implies #[trigger] record_in(
                upsert(rows, key, encode(meme@)),
                other,
            ) == record_in(rows, other) by {
                lemma_texts_differ(other, meme.meme_id);
            }
        }
        let answer = self.table.put_item(request);
        self.repository.create_result(meme.meme_id, answer)
    }

    fn get_by_id(&mut self, id: MemeId) -> (result: Result<Option<Meme>, RepoError>)
        ensures
            final(self).repository == old(self).repository,
            final(self).table@ == old(self).table@.received(),
            found_view(result) == get_result(
                old(self).table_name(),
                id,
                old(self).table@.get_answer(old(self).table_name(), key_of(id)),
            ),
    {
        let request = self.repository.get_request(id);
        proof {
            lemma_key_item_lookup(id.text());
            assert(key_of(id) =~= key_item(id.text()));
        }
        let answer = self.table.get_item(&request);
        self.repository.get_result(id, answer)
    }

    fn list_all(&mut self) -> (result: Result<Vec<Meme>, RepoError>)
        ensures
            final(self).repository == old(self).repository,
            final(self).table@ == (TableModel {
                requests: counted(
                    old(self).table@.requests,
                    pages_read(old(self).table@, old(self).table_name()),
                ),
                ..old(self).table@.received()
            }),
            listed_view(result) == list_result(old(self).table@, old(self).table_name()),
    {
        let ghost table = self.repository.table_name@;
        let ghost start = self.table@;
        let ghost rows = self.table@.rows;
        let ghost place: int = 0;
        let ghost pages: int = 0;
        let mut scan = self.repository.begin_scan();
        assert(all_items(rows).take(0) =~= Seq::<Seq<AttributeView>>::empty());
        assert(decode_all(all_items(rows).take(0)) =~= Seq::<MemeView>::empty());
        loop
            invariant
                self.table.wf(),
                rows_canonical(rows),
                self.repository == old(self).repository,
                table == old(self).table_name(),
                start == old(self).table@,
                rows == start.rows,
                self.table@.rows == rows,
                place == 0 ==> self.table@ == start && scan@ == scan_start(table),
                place > 0 ==> start.serves(table) && !start.pending() && self.table@ == (
                TableModel { requests: self.table@.requests, ..start }),
                place > 0 || (start.serves(table) && !start.pending()) ==> scan_at(
                    scan@,
                    table,
                    rows,
                    place,
                ),
                0 <= place <= rows.len(),
                0 <= pages,
                place == pages * start.page_size,
                place == 0 ==> pages == 0,
                self.table@.requests == counted(start.requests, pages as nat),
            decreases rows.len() - place,
        {
            let ghost model = self.table@;
            let request = scan.request();
            let answer = self.table.scan(&request);
            proof {
                if start.serves(table) && !start.pending() {
                    lemma_page_step(model, table, scan@, place);
                    assert(list_result(model, table) == list_result(start, table));
                }
            }
            match scan.absorb(answer) {
                ScanStep::Done(result) => {
                    proof {
                        if start.serves(table) && !start.pending() {
                            let size = start.page_size as int;
                            match first_corrupt(all_items(rows)) {
                                Some(bad) => {
                                    lemma_fundamental_div_mod_converse(
                                        bad,
                                        size,
                                        pages,
                                        bad - place,
                                    );
                                },
                                None => {
                                    if rows.len() > 0 {
                                        lemma_fundamental_div_mod_converse(
                                            rows.len() - 1,
                                            size,
                                            pages,
                                            rows.len() - 1 - place,
                                        );
                                    }
                                },
                            }
                        }
                        assert(pages_read(start, table) == pages + 1);
                        if result is Ok {
                            assert(start.serves(table) && !start.pending());
                            assert(listed_view(result) == list_result(start, table));
                            assert(first_corrupt(all_items(rows)) is None);
                            lemma_rows_list_each_record_once(rows);
                            let listed = result->Ok_0;
                            let memes = decode_all(all_items(rows));
                            assert(listed.deep_view() == memes);
                            assert forall|i: int| 0 <= i < listed.len() implies (
                            #[trigger] listed[i])@ == memes[i] by {
                                assert(listed.deep_view()[i] == listed[i]@);
                            }
                            assert forall|id: MemeId|
                                (#[trigger] record_in(rows, id)) is Some implies exists|i: int|
                                0 <= i < listed.len() && (#[trigger] listed[i]).meme_id == id by {
                                let i: int = choose|i: int|
                                    0 <= i < memes.len() && (#[trigger] memes[i]).meme_id == id;
                                assert(listed[i]@ == memes[i]);
                            }
                        }
                    }
                    return result;
                },
                ScanStep::Continue(next) => {
                    proof {
                        let size = start.page_size as int;
                        assert((pages + 1) * size == pages * size + size) by (nonlinear_arith);
                        place = model.page_end(place);
                        pages = pages + 1;
                    }
                    scan = next;
                },
            }
        }
    }

    fn delete(&mut self, id: MemeId) -> (result: Result<(), RepoError>)
        ensures
            final(self).repository == old(self).repository,
            final(self).table@ == old(self).table@.after_delete(
                old(self).table_name(),
                key_of(id),
            ),
            unit_view(result) == write_result(
                old(self).table_name(),
                "delete"@,
                id,
                old(self).table@.delete_answer(old(self).table_name(), key_of(id)),
            ),
    {
        let request = self.repository.delete_request(id);
        proof {
            let rows = self.table@.rows;
            lemma_key_item_lookup(id.text());
            assert(key_of(id) =~= key_item(id.text()));
            lemma_without_removes(rows, id.text());
            lemma_without_keeps_canonical(rows, id.text());
            assert forall|other: MemeId| other != id implies #[trigger] record_in(
                without(rows, id.text()),
                other,
            ) == record_in(rows, other) by {
                lemma_texts_differ(other, id);
            }
        }
        let answer = self.table.delete_item(&request);
        self.repository.delete_result(id, answer)
    }
}

/// A blob store over a bucket in memory.
#[derive(Clone, Debug, PartialEq, Eq)]
pub struct InMemoryFileStorage {
    pub storage: S3FileStorage,
    pub bucket: MemoryBucket,
}

impl InMemoryFileStorage {
    /// A store that keeps its objects in `bucket`, under the bucket name
    /// `bucket_name`.
    pub fn new(bucket: MemoryBucket, bucket_name: String) -> (storage: InMemoryFileStorage)
        ensures
            storage.bucket == bucket,
            storage.storage.bucket_name@ == bucket_name@,
            storage.valid() == bucket.wf(),
    {
        InMemoryFileStorage { storage: S3FileStorage::new(bucket_name), bucket }
    }

    /// The name of the bucket that requests go to.
    pub open spec fn bucket_name(&self) -> Seq<char> {
        self.storage.bucket_name@
    }
}

impl FileStorage for InMemoryFileStorage {
    open spec fn valid(&self) -> bool {
        self.bucket.wf()
    }

    open spec fn object(&self, key: Seq<char>) -> Option<(Seq<u8>, Option<Seq<char>>)> {
        match object_at(self.bucket@.objects, key) {
            Some(held) => Some((held.body, Some(held.content_type))),
            None => None,
        }
    }

    fn upload(&mut self, key: &str, data: Vec<u8>, content_type: Option<String>) -> (result: Result<
        (),
        StorageError,
    >)
        ensures
            final(self).storage == old(self).storage,
            final(self).bucket@ == old(self).bucket@.after_put(
                old(self).bucket_name(),
                StoredObjectView {
                    key: key@,
                    body: data@,
                    content_type: stored_content_type(content_type.deep_view()),
                },
            ),
            stored_view(result) == upload_result(
                key@,
                old(self).bucket@.write_answer(old(self).bucket_name()),
            ),
    {
        let request = self.storage.upload_request(key, data, content_type);
        proof {
            lemma_with_object_stores(
                self.bucket@.objects,
                StoredObjectView {
                    key: key@,
                    body: data@,
                    content_type: stored_content_type(content_type.deep_view()),
                },
            );
        }
        let answer = self.bucket.put_object(request);
        self.storage.upload_result(key, answer)
    }

    fn download(&mut self, key: &str) -> (result: Result<(Vec<u8>, Option<String>), StorageError>)
        ensures
            final(self).storage == old(self).storage,
            final(self).bucket@ == old(self).bucket@.received(),
            downloaded_view(result) == download_result(
                key@,
                old(self).bucket@.get_answer(old(self).bucket_name(), key@),
            ),
    {
        let request = self.storage.download_request(key);
        let answer = self.bucket.get_object(&request);
        self.storage.download_result(key, answer)
    }

    fn delete(&mut self, key: &str) -> (result: Result<(), StorageError>)
        ensures
            final(self).storage == old(self).storage,
            final(self).bucket@ == old(self).bucket@.after_delete(old(self).bucket_name(), key@),
            stored_view(result) == delete_result(
                key@,
                old(self).bucket@.write_answer(old(self).bucket_name()),
            ),
    {
        let request = self.storage.delete_request(key);
        proof {
            lemma_without_object_removes(self.bucket@.objects, key@);
        }
        let answer = self.bucket.delete_object(&request);
        self.storage.delete_result(key, answer)
    }
}

/// What the table backend answers to successive requests to create the table
/// called `name`: its queued failures, then its answer as such.
pub open spec fn table_answers(model: TableModel, name: Seq<char>) -> Seq<
    Result<(), SdkFailureView>,
> {
    Seq::new(
        model.faults.len() + 1,
        |i: int|
            if i < model.faults.len() {
                Err(model.faults[i])
            } else {
                (TableModel { faults: Seq::empty(), ..model }).create_answer(name)
            },
    )
}

/// The table backend after `attempts` requests to create the table called
/// `name`.
pub open spec fn after_table_attempts(model: TableModel, name: Seq<char>, attempts: nat)
    -> TableModel
    decreases attempts,
{
    if attempts == 0 {
        model
    } else {
        after_table_attempts(model, name, (attempts - 1) as nat).after_create(name)
    }
}

/// Tells whether provisioning the table called `name` on the backend `before`
/// can end with `result` and leave the backend as `after`: for some waits
/// that the schedule allows, the attempts played through end so.
pub open spec fn table_provisioned(
    before: TableModel,
    name: Seq<char>,
    result: Result<(), InitErrorView>,
    after: TableModel,
) -> bool {
    exists|delays: Seq<Option<Duration>>|
        {
            let played = #[trigger] run(
                ResourceKind::Table,
                name,
                table_answers(before, name),
                delays,
            );
            &&& played.result == Some(result)
            &&& after == after_table_attempts(before, name, played.attempts)
        }
}

/// Brings the table called `name` into existence on the backend.
///
/// The creation is attempted until an attempt ends provisioning, as `run`
/// says for the backend's answers and for what the schedule made from
/// `policy` allowed after each of them. The backend answers at once, so no
/// wait is kept. Where no failure is queued, the first attempt ends
/// provisioning: well when the table is created or exists already, so that on
/// a backend that can hold the table provisioning succeeds however often it
/// is repeated.
pub fn ensure_metadata_store(table: &mut MemoryTable, name: &str, policy: RetryPolicy) -> (result:
    Result<(), InitError>)
    requires
        old(table).wf(),
    ensures
        final(table).wf(),
        table_provisioned(old(table)@, name@, result_view(result), final(table)@),
        !old(table)@.pending() ==> {
            &&& ActionView::Finish(result_view(result)) == next_step(
                ResourceKind::Table,
                name@,
                old(table)@.create_answer(name@),
                None,
            )
            &&& final(table)@ == old(table)@.after_create(name@)
        },
        !old(table)@.pending() && old(table)@.name == name@ ==> result is Ok
            && final(table)@.serves(name@),
{
    let request = create_table_request(name);
    let mut provisioning = Provisioning::begin(ResourceKind::Table, name, policy);
    let ghost start = table@;
    let ghost answers = table_answers(start, name@);
    let ghost waits: Seq<Option<Duration>> = Seq::empty();
    let ghost made: nat = 0;
    loop
        invariant
            table.wf(),
            start == old(table)@,
            answers == table_answers(start, name@),
            request.table_name@ == name@,
            provisioning.kind == ResourceKind::Table,
            provisioning.name@ == name@,
            made <= start.faults.len(),
            waits.len() == made,
            forall|i: int|
                0 <= i < made ==> is_transient(ResourceKind::Table, #[trigger] answers[i]),
            forall|i: int| 0 <= i < made ==> (#[trigger] waits[i]) is Some,
            table@ == after_table_attempts(start, name@, made),
            table@.faults == start.faults.skip(made as int),
            table@.created == start.created,
            table@.name == start.name,
        decreases start.faults.len() - made,
    {
        let ghost model = table@;
        let answer = table.create_table(&request);
        proof {
            lemma_rejections_are_final();
            if made < start.faults.len() {
                assert(model.faults[0] == start.faults[made as int]);
            } else {
                assert(model.faults =~= Seq::<SdkFailureView>::empty());
            }
            assert(done_view(answer) == answers[made as int]);
        }
        let action = provisioning.on_attempt(answer);
        let ghost wait = choose|delay: Option<Duration>|
            action@ == next_step(ResourceKind::Table, name@, answers[made as int], delay);
        match action {
            Action::Finish(result) => {
                proof {
                    let rest = Seq::new(
                        (answers.len() - made - 1) as nat,
                        |i: int| None::<Duration>,
                    );
                    let delays = waits.push(wait) + rest;
                    assert(delays.len() == answers.len());
                    assert(delays[made as int] == wait);
                    assert forall|i: int| 0 <= i < made implies is_transient(
                        ResourceKind::Table,
                        #[trigger] answers[i],
                    ) && delays[i] is Some by {
                        assert(waits[i] is Some);
                        assert(waits.push(wait)[i] == waits[i]);
                        assert(delays[i] == waits.push(wait)[i]);
                    }
                    lemma_run_ends_after_retries(
                        ResourceKind::Table,
                        name@,
                        answers,
                        delays,
                        made,
                    );
                    let played = run(ResourceKind::Table, name@, answers, delays);
                    assert(played.attempts == made + 1);
                    assert(table@ == after_table_attempts(start, name@, made + 1));
                }
                return result;
            },
            Action::RetryAfter(_) => {
                proof {
                    assert(is_transient(ResourceKind::Table, answers[made as int]));
                    assert(made < start.faults.len());
                    assert(table@.faults =~= start.faults.skip(made as int + 1));
                    waits = waits.push(wait);
                    made = made + 1;
                }
            },
        }
    }
}

/// What the blob backend answers to successive requests to create the
/// bucket called `name` in the locality `region`: its queued failures, then
/// its answer as such.
pub open spec fn bucket_answers(model: BucketModel, name: Seq<char>, region: Seq<char>) -> Seq<
    Result<(), SdkFailureView>,
> {
    Seq::new(
        model.faults.len() + 1,
        |i: int|
            if i < model.faults.len() {
                Err(model.faults[i])
            } else {
                (BucketModel { faults: Seq::empty(), ..model }).create_answer(
                    name,
                    location_for(region),
                )
            },
    )
}

/// The blob backend after `attempts` requests to create the bucket called
/// `name` in the locality `region`.
pub open spec fn after_bucket_attempts(
    model: BucketModel,
    name: Seq<char>,
    region: Seq<char>,
    attempts: nat,
) -> BucketModel
    decreases attempts,
{
    if attempts == 0 {
        model
    } else {
        after_bucket_attempts(model, name, region, (attempts - 1) as nat).after_create(
            name,
            location_for(region),
        )
    }
}

/// Tells whether provisioning the bucket called `name` in the locality
/// `region` on the backend `before` can end with `result` and leave the
/// backend as `after`: for some waits that the schedule allows, the attempts
/// played through end so.
pub open spec fn bucket_provisioned(
    before: BucketModel,
    name: Seq<char>,
    region: Seq<char>,
    result: Result<(), InitErrorView>,
    after: BucketModel,
) -> bool {
    exists|delays: Seq<Option<Duration>>|
        {
            let played = #[trigger] run(
                ResourceKind::Bucket,
                name,
                bucket_answers(before, name, region),
                delays,
            );
            &&& played.result == Some(result)
            &&& after == after_bucket_attempts(before, name, region, played.attempts)
        }
}

/// Brings the bucket called `name` into existence on the backend, in the
/// locality `region`.
///
/// The creation is attempted until an attempt ends provisioning, as `run`
/// says for the backend's answers and for what the schedule made from
/// `policy` allowed after each of them. The backend answers at once, so no
/// wait is kept. Where no failure is queued, the first attempt ends
/// provisioning: well when the bucket is created or exists already, so that
/// on a backend that can hold the bucket provisioning succeeds however often
/// it is repeated.
pub fn ensure_blob_store(
    bucket: &mut MemoryBucket,
    name: &str,
    region: &str,
    policy: RetryPolicy,
) -> (result: Result<(), InitError>)
    requires
        old(bucket).wf(),
    ensures
        final(bucket).wf(),
        bucket_provisioned(old(bucket)@, name@, region@, result_view(result), final(bucket)@),
        !old(bucket)@.pending() ==> {
            &&& ActionView::Finish(result_view(result)) == next_step(
                ResourceKind::Bucket,
                name@,
                old(bucket)@.create_answer(name@, location_for(region@)),
                None,
            )
            &&& final(bucket)@ == old(bucket)@.after_create(name@, location_for(region@))
        },
        !old(bucket)@.pending() && old(bucket)@.name == name@ ==> result is Ok
            && final(bucket)@.serves(name@),
{
    let request = create_bucket_request(name, region);
    let mut provisioning = Provisioning::begin(ResourceKind::Bucket, name, policy);
    let ghost start = bucket@;
    let ghost answers = bucket_answers(start, name@, region@);
    let ghost waits: Seq<Option<Duration>> = Seq::empty();
    let ghost made: nat = 0;
    loop
        invariant
            bucket.wf(),
            start == old(bucket)@,
            answers == bucket_answers(start, name@, region@),
            request.bucket@ == name@,
            request.location_constraint.deep_view() == location_for(region@),
            provisioning.kind == ResourceKind::Bucket,
            provisioning.name@ == name@,
            made <= start.faults.len(),
            waits.len() == made,
            forall|i: int|
                0 <= i < made ==> is_transient(ResourceKind::Bucket, #[trigger] answers[i]),
            forall|i: int| 0 <= i < made ==> (#[trigger] waits[i]) is Some,
            bucket@ == after_bucket_attempts(start, name@, region@, made),
            bucket@.faults == start.faults.skip(made as int),
            bucket@.created == start.created,
            bucket@.name == start.name,
        decreases start.faults.len() - made,
    {
        let ghost model = bucket@;
        let answer = bucket.create_bucket(&request);
        proof {
            lemma_rejections_are_final();
            if made < start.faults.len() {
                assert(model.faults[0] == start.faults[made as int]);
            } else {
                assert(model.faults =~= Seq::<SdkFailureView>::empty());
            }
            assert(done_view(answer) == answers[made as int]);
        }
        let action = provisioning.on_attempt(answer);
        let ghost wait = choose|delay: Option<Duration>|
            action@ == next_step(ResourceKind::Bucket, name@, answers[made as int], delay);
        match action {
            Action::Finish(result) => {
                proof {
                    let rest = Seq::new(
                        (answers.len() - made - 1) as nat,
                        |i: int| None::<Duration>,
                    );
                    let delays = waits.push(wait) + rest;
                    assert(delays.len() == answers.len());
                    assert(delays[made as int] == wait);
                    assert forall|i: int| 0 <= i < made implies is_transient(
                        ResourceKind::Bucket,
                        #[trigger] answers[i],
                    ) && delays[i] is Some by {
                        assert(waits[i] is Some);
                        assert(waits.push(wait)[i] == waits[i]);
                        assert(delays[i] == waits.push(wait)[i]);
                    }
                    lemma_run_ends_after_retries(
                        ResourceKind::Bucket,
                        name@,
                        answers,
                        delays,
                        made,
                    );
                    let played = run(ResourceKind::Bucket, name@, answers, delays);
                    assert(played.attempts == made + 1);
                    assert(bucket@ == after_bucket_attempts(start, name@, region@, made + 1));
                }
                return result;
            },
            Action::RetryAfter(_) => {
                proof {
                    assert(is_transient(ResourceKind::Bucket, answers[made as int]));
                    assert(made < start.faults.len());
                    assert(bucket@.faults =~= start.faults.skip(made as int + 1));
                    waits = waits.push(wait);
                    made = made + 1;
                }
            },
        }
    }
}

/// Tells whether startup on the two backends can end with `result` and
/// leave them as `table_after` and `bucket_after`: the table is provisioned
/// first; where that ends well, the bucket is provisioned and gives the
/// result; where it fails, its error is the result and the bucket is left as
/// it was.
pub open spec fn resources_initialized(
    table_before: TableModel,
    bucket_before: BucketModel,
    table_name: Seq<char>,
    bucket_name: Seq<char>,
    region: Seq<char>,
    result: Result<(), InitErrorView>,
    table_after: TableModel,
    bucket_after: BucketModel,
) -> bool {
    exists|table_result: Result<(), InitErrorView>|
        {
            &&& #[trigger] table_provisioned(table_before, table_name, table_result, table_after)
            &&& match table_result {
                Ok(()) => bucket_provisioned(
                    bucket_before,
                    bucket_name,
                    region,
                    result,
                    bucket_after,
                ),
                Err(error) => result == Err::<(), InitErrorView>(error) && bucket_after
                    == bucket_before,
            }
        }
}

/// Prepares both backends before the service takes requests: the table
/// first, then the bucket, each with a schedule of its own made from
/// `policy`. A failure of the table ends startup at once, and the bucket is
/// not touched.
pub fn init_resources(
    table: &mut MemoryTable,
    bucket: &mut MemoryBucket,
    table_name: &str,
    bucket_name: &str,
    region: &str,
    policy: RetryPolicy,
) -> (result: Result<(), InitError>)
    requires
        old(table).wf(),
        old(bucket).wf(),
    ensures
        final(table).wf(),
        final(bucket).wf(),
        resources_initialized(
            old(table)@,
            old(bucket)@,
            table_name@,
            bucket_name@,
            region@,
            result_view(result),
            final(table)@,
            final(bucket)@,
        ),
        !old(table)@.pending() && !old(bucket)@.pending() ==> {
            let table_step = next_step(
                ResourceKind::Table,
                table_name@,
                old(table)@.create_answer(table_name@),
                None,
            );
            let bucket_step = next_step(
                ResourceKind::Bucket,
                bucket_name@,
                old(bucket)@.create_answer(bucket_name@, location_for(region@)),
                None,
            );
            &&& final(table)@ == old(table)@.after_create(table_name@)
            &&& if table_step == ActionView::Finish(Ok(())) {
                &&& ActionView::Finish(result_view(result)) == bucket_step
                &&& final(bucket)@ == old(bucket)@.after_create(
                    bucket_name@,
                    location_for(region@),
                )
            } else {
                &&& ActionView::Finish(result_view(result)) == table_step
                &&& *final(bucket) == *old(bucket)
            }
        },
{
    let table_result = ensure_metadata_store(table, table_name, policy);
    match table_result {
        Ok(()) => {
            let result = ensure_blob_store(bucket, bucket_name, region, policy);
            assert(table_provisioned(
                old(table)@,
                table_name@,
                Ok::<(), InitErrorView>(()),
                table@,
            ));
            result
        },
        Err(error) => {
            assert(table_provisioned(
                old(table)@,
                table_name@,
                Err::<(), InitErrorView>(error@),
                table@,
            ));
            Err(error)
        },
    }
}

} // verus!
