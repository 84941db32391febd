//! In-memory stand-ins for the two backends.
//!
//! Each holds its data in a vector and answers the requests of the `backend`
//! module as the real service would, so that the repository, the blob store
//! and provisioning can be run, and reasoned about, without a network.
//! Failures can be queued: each request is answered with the oldest queued
//! failure, if there is one, instead of being served.

use vstd::prelude::*;
use vstd::string::*;
use crate::backend::{
    copy_bytes, done_view, lookup, lookup_text, Attribute, AttributeValue, AttributeView,
    DeleteItemRequest, DeleteObjectRequest, GetItemRequest, GetObjectRequest, Item,
    PutItemRequest, PutObjectRequest, ScanPage, ScanPageView, ScanRequest, SdkFailure,
    SdkFailureView, ServiceFault, ServiceFaultView,
};
use crate::errors::ResourceKind;
use crate::repositories::{got_view, page_view, text_attribute};
use crate::startup::{
    disposition, one_more, CreateBucketRequest, CreateTableRequest, Disposition,
};
use crate::text::{holds_text, same_text};

verus! {

/// A failure with which a service answers a request that it refuses: a
/// status and a code.
pub open spec fn refusal(status: u16, code: Seq<char>, message: Seq<char>) -> SdkFailureView {
    SdkFailureView::ServiceError(ServiceFaultView { status, code: Some(code), message })
}

/// What the table backend answers to the creation of a table that exists.
pub open spec fn table_in_use() -> SdkFailureView {
    refusal(400, "ResourceInUseException"@, "Table already exists"@)
}

/// What the table backend answers to a request on a table that it does not
/// hold.
pub open spec fn no_such_table() -> SdkFailureView {
    refusal(400, "ResourceNotFoundException"@, "Requested resource not found"@)
}

/// What the table backend answers to a request that does not fit the table.
pub open spec fn invalid_request() -> SdkFailureView {
    refusal(400, "ValidationException"@, "The request does not match the schema"@)
}

/// Makes a refusal.
fn refuse(status: u16, code: &str, message: &str) -> (failure: SdkFailure)
    ensures
        failure@ == refusal(status, code@, message@),
{
    SdkFailure::ServiceError(
        ServiceFault {
            status,
            code: Some(String::from_str(code)),
            message: String::from_str(message),
        },
    )
}

/// One stored item with the text of its key.
#[derive(Clone, Debug, PartialEq, Eq)]
pub struct Row {
    pub key: String,
    pub item: Item,
}

/// Mathematical model of a `Row`.
pub struct RowView {
    pub key: Seq<char>,
    pub item: Seq<AttributeView>,
}

impl View for Row {
    type V = RowView;

    open spec fn view(&self) -> RowView {
        RowView { key: self.key@, item: self.item@ }
    }
}

impl DeepView for Row {
    type V = RowView;

    open spec fn deep_view(&self) -> RowView {
        self@
    }
}

/// Tells whether the row at `place` has the key.
pub open spec fn holds_key(rows: Seq<RowView>, key: Seq<char>, place: int) -> bool {
    0 <= place < rows.len() && rows[place].key == key
}

/// The place of the row with a key, if there is one.
pub open spec fn position(rows: Seq<RowView>, key: Seq<char>) -> Option<int> {
    if exists|place: int| holds_key(rows, key, place) {
        Some(choose|place: int| holds_key(rows, key, place))
    } else {
        None
    }
}

/// The rows after an item is stored under a key: in the place of the row with
/// that key, or behind all rows where there is none.
pub open spec fn upsert(rows: Seq<RowView>, key: Seq<char>, item: Seq<AttributeView>) -> Seq<
    RowView,
> {
    match position(rows, key) {
        Some(place) => rows.update(place, RowView { key, item }),
        None => rows.push(RowView { key, item }),
    }
}

/// The rows without the row that has a key.
pub open spec fn without(rows: Seq<RowView>, key: Seq<char>) -> Seq<RowView> {
    match position(rows, key) {
        Some(place) => rows.remove(place),
        None => rows,
    }
}

/// The item stored under a key, if there is one.
pub open spec fn stored(rows: Seq<RowView>, key: Seq<char>) -> Option<Seq<AttributeView>> {
    match position(rows, key) {
        Some(place) => Some(rows[place].item),
        None => None,
    }
}

/// Rows as a table holds them: each under the text of its item's `meme_id`,
/// no key twice.
pub open spec fn rows_wf(rows: Seq<RowView>) -> bool {
    &&& forall|i: int|
        0 <= i < rows.len() ==> lookup_text((#[trigger] rows[i]).item, "meme_id"@) == Some(
            rows[i].key,
        )
    &&& forall|i: int, j: int|
        0 <= i < j < rows.len() ==> (#[trigger] rows[i]).key != (#[trigger] rows[j]).key
}

/// Mathematical model of a `MemoryTable`.
pub struct TableModel {
    pub name: Seq<char>,
    pub created: bool,
    pub rows: Seq<RowView>,
    pub page_size: usize,
    pub faults: Seq<SdkFailureView>,
    pub requests: u64,
}

/// A metadata backend in memory: one table, keyed by the string attribute
/// `meme_id`, which does not exist until it is created.
#[derive(Clone, Debug, PartialEq, Eq)]
pub struct MemoryTable {
    /// Name of the one table that this backend can hold.
    pub name: String,
    /// Whether the table has been created.
    pub created: bool,
    /// The items of the table, oldest key first.
    pub rows: Vec<Row>,
    /// Largest number of items in one page of a scan; at least one.
    pub page_size: usize,
    /// Failures to answer with, oldest first, before any request is served.
    pub faults: Vec<SdkFailure>,
    /// Requests received so far.
    pub requests: u64,
}

impl View for MemoryTable {
    type V = TableModel;

    open spec fn view(&self) -> TableModel {
        TableModel {
            name: self.name@,
            created: self.created,
            rows: self.rows.deep_view(),
            page_size: self.page_size,
            faults: self.faults.deep_view(),
            requests: self.requests,
        }
    }
}

impl TableModel {
    /// Well-formedness: a page holds at least one item, and the rows are
    /// those of a table.
    pub open spec fn wf(self) -> bool {
        self.page_size > 0 && rows_wf(self.rows)
    }

    /// Tells whether a failure is queued.
    pub open spec fn pending(self) -> bool {
        self.faults.len() > 0
    }

    /// The backend after it received a request: the request is counted, and
    /// the oldest queued failure is gone.
    pub open spec fn received(self) -> TableModel {
        TableModel {
            requests: one_more(self.requests),
            faults: if self.pending() {
                self.faults.drop_first()
            } else {
                self.faults
            },
            ..self
        }
    }

    /// Tells whether the backend holds the table called `table`.
    pub open spec fn serves(self, table: Seq<char>) -> bool {
        self.created && self.name == table
    }
}

impl MemoryTable {
    /// Well-formedness of the backend.
    pub open spec fn wf(&self) -> bool {
        self@.wf()
    }

    /// A backend that can hold the table called `name` and serves a scan in
    /// pages of `page_size` items; a page size of zero counts as one.
    pub fn new(name: &str, page_size: usize) -> (table: MemoryTable)
        ensures
            table.wf(),
            table@ == (TableModel {
                name: name@,
                created: false,
                rows: Seq::empty(),
                page_size: if page_size == 0 {
                    1usize
                } else {
                    page_size
                },
                faults: Seq::empty(),
                requests: 0,
            }),
    {
        let table = MemoryTable {
            name: String::from_str(name),
            created: false,
            rows: Vec::new(),
            page_size: if page_size == 0 {
                1
            } else {
                page_size
            },
            faults: Vec::new(),
            requests: 0,
        };
        assert(table.rows.deep_view() =~= Seq::<RowView>::empty());
        assert(table.faults.deep_view() =~= Seq::<SdkFailureView>::empty());
        table
    }

    /// Queues a failure, behind those queued before.
    pub fn inject_fault(&mut self, fault: SdkFailure)
        requires
            old(self).wf(),
        ensures
            final(self).wf(),
            final(self)@ == (TableModel {
                faults: old(self)@.faults.push(fault@),
                ..old(self)@
            }),
    {
        let ghost before = self.faults.deep_view();
        self.faults.push(fault);
        assert(self.faults.deep_view() =~= before.push(fault@));
    }

    /// Counts a request and takes the oldest queued failure, if there is
    /// one.
    fn receive(&mut self) -> (fault: Option<SdkFailure>)
        requires
            old(self).wf(),
        ensures
            final(self).wf(),
            final(self)@ == old(self)@.received(),
            fault.deep_view() == (if old(self)@.pending() {
                Some(old(self)@.faults[0])
            } else {
                None
            }),
    {
        if self.requests < u64::MAX {
            self.requests = self.requests + 1;
        }
        if self.faults.len() > 0 {
            let ghost before = self.faults.deep_view();
            let fault = self.faults.remove(0);
            assert(self.faults.deep_view() =~= before.drop_first());
            Some(fault)
        } else {
            None
        }
    }

    /// The place of the row with a key, if there is one.
    fn find(&self, key: &str) -> (place: Option<usize>)
        requires
            self.wf(),
        ensures
            place matches Some(p) ==> position(self@.rows, key@) == Some(p as int) && p
                < self.rows.len(),
            place is None ==> position(self@.rows, key@) is None,
    {
        let mut i: usize = 0;
        while i < self.rows.len()
            invariant
                i <= self.rows.len(),
                self.wf(),
                forall|j: int| 0 <= j < i ==> !holds_key(self@.rows, key@, j),
            decreases self.rows.len() - i,
        {
            if same_text(self.rows[i].key.as_str(), key) {
                proof {
                    let rows = self@.rows;
                    assert(holds_key(rows, key@, i as int));
                    let chosen = choose|place: int| holds_key(rows, key@, place);
                    assert(holds_key(rows, key@, chosen));
                    if chosen < i {
                        assert(rows[chosen].key != rows[i as int].key);
                    }
                    if chosen > i {
                        assert(rows[i as int].key != rows[chosen].key);
                    }
                }
                return Some(i);
            }
            i += 1;
        }
        None
    }
}

/// The key of the row with the given key text.
pub open spec fn key_item(key: Seq<char>) -> Seq<AttributeView> {
    seq![text_attribute("meme_id"@, key)]
}

impl TableModel {
    /// The answer to the creation of the table called `table`.
    pub open spec fn create_answer(self, table: Seq<char>) -> Result<(), SdkFailureView> {
        if self.pending() {
            Err(self.faults[0])
        } else if table != self.name {
            Err(invalid_request())
        } else if self.created {
            Err(table_in_use())
        } else {
            Ok(())
        }
    }

    /// The backend after the creation of the table called `table` was asked
    /// for.
    pub open spec fn after_create(self, table: Seq<char>) -> TableModel {
        if self.create_answer(table) is Ok {
            TableModel { created: true, ..self.received() }
        } else {
            self.received()
        }
    }

    /// The answer to a request to store an item.
    pub open spec fn put_answer(self, table: Seq<char>, item: Seq<AttributeView>) -> Result<
        (),
        SdkFailureView,
    > {
        if self.pending() {
            Err(self.faults[0])
        } else if !self.serves(table) {
            Err(no_such_table())
        } else if lookup_text(item, "meme_id"@) is None {
            Err(invalid_request())
        } else {
            Ok(())
        }
    }

    /// The backend after a request to store an item.
    pub open spec fn after_put(self, table: Seq<char>, item: Seq<AttributeView>) -> TableModel {
        if self.put_answer(table, item) is Ok {
            TableModel {
                rows: upsert(self.rows, lookup_text(item, "meme_id"@)->0, item),
                ..self.received()
            }
        } else {
            self.received()
        }
    }

    /// The answer to a request to read the item with a key.
    pub open spec fn get_answer(self, table: Seq<char>, key: Seq<AttributeView>) -> Result<
        Option<Seq<AttributeView>>,
        SdkFailureView,
    > {
        if self.pending() {
            Err(self.faults[0])
        } else if !self.serves(table) {
            Err(no_such_table())
        } else {
            match lookup_text(key, "meme_id"@) {
                None => Err(invalid_request()),
                Some(key_text) => Ok(stored(self.rows, key_text)),
            }
        }
    }

    /// The answer to a request to remove the item with a key: success
    /// whether or not there is such an item.
    pub open spec fn delete_answer(self, table: Seq<char>, key: Seq<AttributeView>) -> Result<
        (),
        SdkFailureView,
    > {
        if self.pending() {
            Err(self.faults[0])
        } else if !self.serves(table) {
            Err(no_such_table())
        } else if lookup_text(key, "meme_id"@) is None {
            Err(invalid_request())
        } else {
            Ok(())
        }
    }

    /// The backend after a request to remove the item with a key.
    pub open spec fn after_delete(self, table: Seq<char>, key: Seq<AttributeView>) -> TableModel {
        if self.delete_answer(table, key) is Ok {
            TableModel {
                rows: without(self.rows, lookup_text(key, "meme_id"@)->0),
                ..self.received()
            }
        } else {
            self.received()
        }
    }

    /// The place of the first row of the page that a scan request asks for:
    /// the first row of the table, or the row behind the one whose key the
    /// request names. `None` where the request names no key of the table.
    pub open spec fn page_start(self, start: Option<Seq<AttributeView>>) -> Option<int> {
        match start {
            None => Some(0),
            Some(key) => match lookup_text(key, "meme_id"@) {
                None => None,
                Some(key_text) => match position(self.rows, key_text) {
                    Some(place) => Some(place + 1),
                    None => None,
                },
            },
        }
    }

    /// The place behind the last row of the page that starts at `start`.
    pub open spec fn page_end(self, start: int) -> int {
        if self.rows.len() - start > self.page_size {
            start + self.page_size
        } else {
            self.rows.len() as int
        }
    }

    /// The page that starts at `start`: the items of its rows, and the key of
    /// its last row where rows follow.
    pub open spec fn page_at(self, start: int) -> ScanPageView {
        let end = self.page_end(start);
        ScanPageView {
            items: Some(Seq::new((end - start) as nat, |i: int| self.rows[start + i].item)),
            last_evaluated_key: if end < self.rows.len() {
                Some(key_item(self.rows[end - 1].key))
            } else {
                None
            },
        }
    }

    /// The answer to a request for a page.
    pub open spec fn scan_answer(self, table: Seq<char>, start: Option<Seq<AttributeView>>)
        -> Result<ScanPageView, SdkFailureView> {
        if self.pending() {
            Err(self.faults[0])
        } else if !self.serves(table) {
            Err(no_such_table())
        } else {
            match self.page_start(start) {
                None => Err(invalid_request()),
                Some(place) => Ok(self.page_at(place)),
            }
        }
    }
}

impl MemoryTable {
    /// Tells whether the backend holds the table called `table`.
    fn holds_table(&self, table: &str) -> (holds: bool)
        ensures
            holds == self@.serves(table@),
    {
        self.created && same_text(self.name.as_str(), table)
    }

    /// Answers a request to create the table.
    pub fn create_table(&mut self, request: &CreateTableRequest) -> (answer: Result<
        (),
        SdkFailure,
    >)
        requires
            old(self).wf(),
        ensures
            final(self).wf(),
            done_view(answer) == old(self)@.create_answer(request.table_name@),
            final(self)@ == old(self)@.after_create(request.table_name@),
    {
        if let Some(fault) = self.receive() {
            return Err(fault);
        }
        if !same_text(request.table_name.as_str(), self.name.as_str()) {
            return Err(refuse(400, "ValidationException", "The request does not match the schema"));
        }
        if self.created {
            return Err(refuse(400, "ResourceInUseException", "Table already exists"));
        }
        self.created = true;
        Ok(())
    }

    /// Answers a request to store an item.
    pub fn put_item(&mut self, request: PutItemRequest) -> (answer: Result<(), SdkFailure>)
        requires
            old(self).wf(),
        ensures
            final(self).wf(),
            done_view(answer) == old(self)@.put_answer(request.table_name@, request.item@),
            final(self)@ == old(self)@.after_put(request.table_name@, request.item@),
    {
        if let Some(fault) = self.receive() {
            return Err(fault);
        }
        if !self.holds_table(request.table_name.as_str()) {
            return Err(refuse(400, "ResourceNotFoundException", "Requested resource not found"));
        }
        let PutItemRequest { table_name: _, item } = request;
        let key = match item.get_text("meme_id") {
            Some(text) => text.clone(),
            None => {
                return Err(
                    refuse(400, "ValidationException", "The request does not match the schema"),
                );
            },
        };
        let ghost before = self@.rows;
        let ghost row = RowView { key: key@, item: item@ };
        match self.find(key.as_str()) {
            Some(place) => {
                self.rows.remove(place);
                self.rows.insert(place, Row { key, item });
                assert(self@.rows =~= before.update(place as int, row));
            },
            None => {
                self.rows.push(Row { key, item });
                assert(self@.rows =~= before.push(row));
                assert forall|i: int| 0 <= i < before.len() implies before[i].key != row.key by {
                    assert(!holds_key(before, row.key, i));
                }
            },
        }
        Ok(())
    }

    /// Answers a request to read the item with a key.
    pub fn get_item(&mut self, request: &GetItemRequest) -> (answer: Result<
        Option<Item>,
        SdkFailure,
    >)
        requires
            old(self).wf(),
        ensures
            final(self).wf(),
            got_view(answer) == old(self)@.get_answer(request.table_name@, request.key@),
            final(self)@ == old(self)@.received(),
    {
        if let Some(fault) = self.receive() {
            return Err(fault);
        }
        if !self.holds_table(request.table_name.as_str()) {
            return Err(refuse(400, "ResourceNotFoundException", "Requested resource not found"));
        }
        let key = match request.key.get_text("meme_id") {
            Some(text) => text,
            None => {
                return Err(
                    refuse(400, "ValidationException", "The request does not match the schema"),
                );
            },
        };
        match self.find(key.as_str()) {
            Some(place) => Ok(Some(self.rows[place].item.duplicate())),
            None => Ok(None),
        }
    }

    /// Answers a request to remove the item with a key.
    pub fn delete_item(&mut self, request: &DeleteItemRequest) -> (answer: Result<
        (),
        SdkFailure,
    >)
        requires
            old(self).wf(),
        ensures
            final(self).wf(),
            done_view(answer) == old(self)@.delete_answer(request.table_name@, request.key@),
            final(self)@ == old(self)@.after_delete(request.table_name@, request.key@),
    {
        if let Some(fault) = self.receive() {
            return Err(fault);
        }
        if !self.holds_table(request.table_name.as_str()) {
            return Err(refuse(400, "ResourceNotFoundException", "Requested resource not found"));
        }
        let key = match request.key.get_text("meme_id") {
            Some(text) => text,
            None => {
                return Err(
                    refuse(400, "ValidationException", "The request does not match the schema"),
                );
            },
        };
        let ghost before = self@.rows;
        match self.find(key.as_str()) {
            Some(place) => {
                self.rows.remove(place);
                assert(self@.rows =~= before.remove(place as int));
            },
            None => {},
        }
        Ok(())
    }
}

/// Makes the key of the row with the given key text.
fn make_key_item(key: &str) -> (item: Item)
    ensures
        item@ == key_item(key@),
{
    let mut attributes: Vec<Attribute> = Vec::new();
    attributes.push(
        Attribute {
            name: String::from_str("meme_id"),
            value: AttributeValue::S(String::from_str(key)),
        },
    );
    let item = Item { attributes };
    assert(item@ =~= key_item(key@));
    item
}

impl MemoryTable {
    /// Answers a request for a page of a scan.
    pub fn scan(&mut self, request: &ScanRequest) -> (answer: Result<ScanPage, SdkFailure>)
        requires
            old(self).wf(),
        ensures
            final(self).wf(),
            page_view(answer) == old(self)@.scan_answer(
                request.table_name@,
                request.exclusive_start_key.deep_view(),
            ),
            final(self)@ == old(self)@.received(),
    {
        if let Some(fault) = self.receive() {
            return Err(fault);
        }
        if !self.holds_table(request.table_name.as_str()) {
            return Err(refuse(400, "ResourceNotFoundException", "Requested resource not found"));
        }
        let start: usize = match &request.exclusive_start_key {
            None => 0,
            Some(key) => match key.get_text("meme_id") {
                None => {
                    return Err(
                        refuse(400, "ValidationException", "The request does not match the schema"),
                    );
                },
                Some(key_text) => match self.find(key_text.as_str()) {
                    Some(place) => place + 1,
                    None => {
                        return Err(
                            refuse(
                                400,
                                "ValidationException",
                                "The request does not match the schema",
                            ),
                        );
                    },
                },
            },
        };
        let len: usize = self.rows.len();
        let end: usize = if len - start > self.page_size {
            start + self.page_size
        } else {
            len
        };
        let ghost rows = self@.rows;
        let mut items: Vec<Item> = Vec::new();
        let mut i: usize = start;
        assert(items.deep_view() =~= Seq::new(0, |k: int| rows[start + k].item));
        while i < end
            invariant
                start <= i <= end <= self.rows.len(),
                rows == self@.rows,
                items.deep_view() == Seq::new((i - start) as nat, |k: int| rows[start + k].item),
            decreases end - i,
        {
            let ghost before = items.deep_view();
            let item = self.rows[i].item.duplicate();
            items.push(item);
            assert(items.deep_view() =~= before.push(item@));
            assert(before.push(item@) =~= Seq::new(
                (i + 1 - start) as nat,
                |k: int| rows[start + k].item,
            ));
            i += 1;
        }
        let last_evaluated_key = if end < len {
            Some(make_key_item(self.rows[end - 1].key.as_str()))
        } else {
            None
        };
        Ok(ScanPage { items: Some(items), last_evaluated_key })
    }
}

/// What the blob backend answers to the creation of a bucket that exists.
pub open spec fn bucket_owned() -> SdkFailureView {
    refusal(409, "BucketAlreadyOwnedByYou"@, "The bucket is already owned by you"@)
}

/// What the blob backend answers to a request on a bucket that it does not
/// hold.
pub open spec fn no_such_bucket() -> SdkFailureView {
    refusal(404, "NoSuchBucket"@, "The specified bucket does not exist"@)
}

/// What the blob backend answers to a read of a key without an object.
pub open spec fn no_such_key() -> SdkFailureView {
    refusal(404, "NoSuchKey"@, "The specified key does not exist"@)
}

/// What the blob backend answers to the creation of a bucket whose request
/// names a locality that it must not name.
pub open spec fn invalid_location() -> SdkFailureView {
    refusal(400, "InvalidLocationConstraint"@, "The specified location constraint is not valid"@)
}

/// What the blob backend answers to the creation of a bucket that it cannot
/// hold.
pub open spec fn invalid_bucket_name() -> SdkFailureView {
    refusal(400, "InvalidBucketName"@, "The specified bucket is not valid"@)
}

/// One stored object.
#[derive(Clone, Debug, PartialEq, Eq)]
pub struct StoredObject {
    pub key: String,
    pub body: Vec<u8>,
    /// The media type stored with the object.
    pub content_type: String,
}

/// Mathematical model of a `StoredObject`.
pub struct StoredObjectView {
    pub key: Seq<char>,
    pub body: Seq<u8>,
    pub content_type: Seq<char>,
}

impl View for StoredObject {
    type V = StoredObjectView;

    open spec fn view(&self) -> StoredObjectView {
        StoredObjectView { key: self.key@, body: self.body@, content_type: self.content_type@ }
    }
}

impl DeepView for StoredObject {
    type V = StoredObjectView;

    open spec fn deep_view(&self) -> StoredObjectView {
        self@
    }
}

/// The media type that the blob backend stores with an object that comes
/// without one.
pub open spec fn default_content_type() -> Seq<char> {
    "binary/octet-stream"@
}

/// The media type stored with an object that was uploaded with the given
/// one.
pub open spec fn stored_content_type(given: Option<Seq<char>>) -> Seq<char> {
    match given {
        Some(content_type) => content_type,
        None => default_content_type(),
    }
}

/// Tells whether the object at `place` is stored under the key.
pub open spec fn holds_object(objects: Seq<StoredObjectView>, key: Seq<char>, place: int) -> bool {
    0 <= place < objects.len() && objects[place].key == key
}

/// The place of the object under a key, if there is one.
pub open spec fn slot(objects: Seq<StoredObjectView>, key: Seq<char>) -> Option<int> {
    if exists|place: int| holds_object(objects, key, place) {
        Some(choose|place: int| holds_object(objects, key, place))
    } else {
        None
    }
}

/// The objects after one is stored: in the place of the object under its
/// key, or behind all objects where there is none.
pub open spec fn with_object(objects: Seq<StoredObjectView>, object: StoredObjectView) -> Seq<
    StoredObjectView,
> {
    match slot(objects, object.key) {
        Some(place) => objects.update(place, object),
        None => objects.push(object),
    }
}

/// The objects without the one under a key.
pub open spec fn without_object(objects: Seq<StoredObjectView>, key: Seq<char>) -> Seq<
    StoredObjectView,
> {
    match slot(objects, key) {
        Some(place) => objects.remove(place),
        None => objects,
    }
}

/// Objects as a bucket holds them: no key twice.
pub open spec fn objects_wf(objects: Seq<StoredObjectView>) -> bool {
    forall|i: int, j: int|
        0 <= i < j < objects.len() ==> (#[trigger] objects[i]).key != (#[trigger] objects[j]).key
}

/// Mathematical model of a `MemoryBucket`.
pub struct BucketModel {
    pub name: Seq<char>,
    pub created: bool,
    pub objects: Seq<StoredObjectView>,
    pub faults: Seq<SdkFailureView>,
    pub requests: u64,
}

/// A blob backend in memory: one bucket, which does not exist until it is
/// created.
#[derive(Clone, Debug, PartialEq, Eq)]
pub struct MemoryBucket {
    /// Name of the one bucket that this backend can hold.
    pub name: String,
    /// Whether the bucket has been created.
    pub created: bool,
    /// The objects of the bucket, oldest key first.
    pub objects: Vec<StoredObject>,
    /// Failures to answer with, oldest first, before any request is served.
    pub faults: Vec<SdkFailure>,
    /// Requests received so far.
    pub requests: u64,
}

impl View for MemoryBucket {
    type V = BucketModel;

    open spec fn view(&self) -> BucketModel {
        BucketModel {
            name: self.name@,
            created: self.created,
            objects: self.objects.deep_view(),
            faults: self.faults.deep_view(),
            requests: self.requests,
        }
    }
}

impl BucketModel {
    /// Well-formedness: the objects are those of a bucket.
    pub open spec fn wf(self) -> bool {
        objects_wf(self.objects)
    }

    /// Tells whether a failure is queued.
    pub open spec fn pending(self) -> bool {
        self.faults.len() > 0
    }

    /// The backend after it received a request: the request is counted, and
    /// the oldest queued failure is gone.
    pub open spec fn received(self) -> BucketModel {
        BucketModel {
            requests: one_more(self.requests),
            faults: if self.pending() {
                self.faults.drop_first()
            } else {
                self.faults
            },
            ..self
        }
    }

    /// Tells whether the backend holds the bucket called `bucket`.
    pub open spec fn serves(self, bucket: Seq<char>) -> bool {
        self.created && self.name == bucket
    }

    /// The answer to the creation of the bucket called `bucket` with the
    /// given locality in the request. The default locality, `us-east-1`, must
    /// not be named.
    pub open spec fn create_answer(self, bucket: Seq<char>, location: Option<Seq<char>>) -> Result<
        (),
        SdkFailureView,
    > {
        if self.pending() {
            Err(self.faults[0])
        } else if location == Some("us-east-1"@) {
            Err(invalid_location())
        } else if bucket != self.name {
            Err(invalid_bucket_name())
        } else if self.created {
            Err(bucket_owned())
        } else {
            Ok(())
        }
    }

    /// The backend after the creation of a bucket was asked for.
    pub open spec fn after_create(self, bucket: Seq<char>, location: Option<Seq<char>>)
        -> BucketModel {
        if self.create_answer(bucket, location) is Ok {
            BucketModel { created: true, ..self.received() }
        } else {
            self.received()
        }
    }

    /// The answer to a request on the object under a key that needs the
    /// bucket only: a write or a removal.
    pub open spec fn write_answer(self, bucket: Seq<char>) -> Result<(), SdkFailureView> {
        if self.pending() {
            Err(self.faults[0])
        } else if !self.serves(bucket) {
            Err(no_such_bucket())
        } else {
            Ok(())
        }
    }

    /// The backend after a request to store an object.
    pub open spec fn after_put(self, bucket: Seq<char>, object: StoredObjectView) -> BucketModel {
        if self.write_answer(bucket) is Ok {
            BucketModel { objects: with_object(self.objects, object), ..self.received() }
        } else {
            self.received()
        }
    }

    /// The answer to a request to read the object under a key: its body and
    /// media type.
    pub open spec fn get_answer(self, bucket: Seq<char>, key: Seq<char>) -> Result<
        (Seq<u8>, Option<Seq<char>>),
        SdkFailureView,
    > {
        if self.pending() {
            Err(self.faults[0])
        } else if !self.serves(bucket) {
            Err(no_such_bucket())
        } else {
            match slot(self.objects, key) {
                Some(place) => Ok(
                    (self.objects[place].body, Some(self.objects[place].content_type)),
                ),
                None => Err(no_such_key()),
            }
        }
    }

    /// The backend after a request to remove the object under a key.
    pub open spec fn after_delete(self, bucket: Seq<char>, key: Seq<char>) -> BucketModel {
        if self.write_answer(bucket) is Ok {
            BucketModel { objects: without_object(self.objects, key), ..self.received() }
        } else {
            self.received()
        }
    }
}

impl MemoryBucket {
    /// Well-formedness of the backend.
    pub open spec fn wf(&self) -> bool {
        self@.wf()
    }

    /// A backend that can hold the bucket called `name`.
    pub fn new(name: &str) -> (bucket: MemoryBucket)
        ensures
            bucket.wf(),
            bucket@ == (BucketModel {
                name: name@,
                created: false,
                objects: Seq::empty(),
                faults: Seq::empty(),
                requests: 0,
            }),
    {
        let bucket = MemoryBucket {
            name: String::from_str(name),
            created: false,
            objects: Vec::new(),
            faults: Vec::new(),
            requests: 0,
        };
        assert(bucket.objects.deep_view() =~= Seq::<StoredObjectView>::empty());
        assert(bucket.faults.deep_view() =~= Seq::<SdkFailureView>::empty());
        bucket
    }

    /// Queues a failure, behind those queued before.
    pub fn inject_fault(&mut self, fault: SdkFailure)
        requires
            old(self).wf(),
        ensures
            final(self).wf(),
            final(self)@ == (BucketModel {
                faults: old(self)@.faults.push(fault@),
                ..old(self)@
            }),
    {
        let ghost before = self.faults.deep_view();
        self.faults.push(fault);
        assert(self.faults.deep_view() =~= before.push(fault@));
    }

    /// Counts a request and takes the oldest queued failure, if there is
    /// one.
    fn receive(&mut self) -> (fault: Option<SdkFailure>)
        requires
            old(self).wf(),
        ensures
            final(self).wf(),
            final(self)@ == old(self)@.received(),
            fault.deep_view() == (if old(self)@.pending() {
                Some(old(self)@.faults[0])
            } else {
                None
            }),
    {
        if self.requests < u64::MAX {
            self.requests = self.requests + 1;
        }
        if self.faults.len() > 0 {
            let ghost before = self.faults.deep_view();
            let fault = self.faults.remove(0);
            assert(self.faults.deep_view() =~= before.drop_first());
            Some(fault)
        } else {
            None
        }
    }

    /// The place of the object under a key, if there is one.
    fn find(&self, key: &str) -> (place: Option<usize>)
        requires
            self.wf(),
        ensures
            place matches Some(p) ==> slot(self@.objects, key@) == Some(p as int) && p
                < self.objects.len(),
            place is None ==> slot(self@.objects, key@) is None,
    {
        let mut i: usize = 0;
        while i < self.objects.len()
            invariant
                i <= self.objects.len(),
                self.wf(),
                forall|j: int| 0 <= j < i ==> !holds_object(self@.objects, key@, j),
            decreases self.objects.len() - i,
        {
            if same_text(self.objects[i].key.as_str(), key) {
                proof {
                    let objects = self@.objects;
                    assert(holds_object(objects, key@, i as int));
                    let chosen = choose|place: int| holds_object(objects, key@, place);
                    assert(holds_object(objects, key@, chosen));
                    if chosen < i {
                        assert(objects[chosen].key != objects[i as int].key);
                    }
                    if chosen > i {
                        assert(objects[i as int].key != objects[chosen].key);
                    }
                }
                return Some(i);
            }
            i += 1;
        }
        None
    }

    /// Tells whether the backend holds the bucket called `bucket`.
    fn holds_bucket(&self, bucket: &str) -> (holds: bool)
        ensures
            holds == self@.serves(bucket@),
    {
        self.created && same_text(self.name.as_str(), bucket)
    }

    /// Answers a request to create the bucket.
    pub fn create_bucket(&mut self, request: &CreateBucketRequest) -> (answer: Result<
        (),
        SdkFailure,
    >)
        requires
            old(self).wf(),
        ensures
            final(self).wf(),
            done_view(answer) == old(self)@.create_answer(
                request.bucket@,
                request.location_constraint.deep_view(),
            ),
            final(self)@ == old(self)@.after_create(
                request.bucket@,
                request.location_constraint.deep_view(),
            ),
    {
        if let Some(fault) = self.receive() {
            return Err(fault);
        }
        if holds_text(&request.location_constraint, "us-east-1") {
            return Err(
                refuse(
                    400,
                    "InvalidLocationConstraint",
                    "The specified location constraint is not valid",
                ),
            );
        }
        if !same_text(request.bucket.as_str(), self.name.as_str()) {
            return Err(refuse(400, "InvalidBucketName", "The specified bucket is not valid"));
        }
        if self.created {
            return Err(
                refuse(409, "BucketAlreadyOwnedByYou", "The bucket is already owned by you"),
            );
        }
        self.created = true;
        Ok(())
    }

    /// Answers a request to store an object; an object that comes without a
    /// media type is stored with the backend's default.
    pub fn put_object(&mut self, request: PutObjectRequest) -> (answer: Result<(), SdkFailure>)
        requires
            old(self).wf(),
        ensures
            final(self).wf(),
            done_view(answer) == old(self)@.write_answer(request.bucket@),
            final(self)@ == old(self)@.after_put(
                request.bucket@,
                StoredObjectView {
                    key: request.key@,
                    body: request.body@,
                    content_type: stored_content_type(request.content_type.deep_view()),
                },
            ),
    {
        if let Some(fault) = self.receive() {
            return Err(fault);
        }
        if !self.holds_bucket(request.bucket.as_str()) {
            return Err(refuse(404, "NoSuchBucket", "The specified bucket does not exist"));
        }
        let PutObjectRequest { bucket: _, key, body, content_type } = request;
        let content_type = match content_type {
            Some(given) => given,
            None => String::from_str("binary/octet-stream"),
        };
        let ghost before = self@.objects;
        let place = self.find(key.as_str());
        let object = StoredObject { key, body, content_type };
        let ghost view = object@;
        match place {
            Some(place) => {
                self.objects.remove(place);
                self.objects.insert(place, object);
                assert(self@.objects =~= before.update(place as int, view));
            },
            None => {
                self.objects.push(object);
                assert(self@.objects =~= before.push(view));
                assert forall|i: int| 0 <= i < before.len() implies before[i].key != view.key by {
                    assert(!holds_object(before, view.key, i));
                }
            },
        }
        Ok(())
    }

    /// Answers a request to read the object under a key.
    pub fn get_object(&mut self, request: &GetObjectRequest) -> (answer: Result<
        (Vec<u8>, Option<String>),
        SdkFailure,
    >)
        requires
            old(self).wf(),
        ensures
            final(self).wf(),
            bytes_view(answer) == old(self)@.get_answer(request.bucket@, request.key@),
            final(self)@ == old(self)@.received(),
    {
        if let Some(fault) = self.receive() {
            return Err(fault);
        }
        if !self.holds_bucket(request.bucket.as_str()) {
            return Err(refuse(404, "NoSuchBucket", "The specified bucket does not exist"));
        }
        match self.find(request.key.as_str()) {
            Some(place) => {
                let object = &self.objects[place];
                Ok((copy_bytes(&object.body), Some(object.content_type.clone())))
            },
            None => Err(refuse(404, "NoSuchKey", "The specified key does not exist")),
        }
    }

    /// Answers a request to remove the object under a key.
    pub fn delete_object(&mut self, request: &DeleteObjectRequest) -> (answer: Result<
        (),
        SdkFailure,
    >)
        requires
            old(self).wf(),
        ensures
            final(self).wf(),
            done_view(answer) == old(self)@.write_answer(request.bucket@),
            final(self)@ == old(self)@.after_delete(request.bucket@, request.key@),
    {
        if let Some(fault) = self.receive() {
            return Err(fault);
        }
        if !self.holds_bucket(request.bucket.as_str()) {
            return Err(refuse(404, "NoSuchBucket", "The specified bucket does not exist"));
        }
        let ghost before = self@.objects;
        match self.find(request.key.as_str()) {
            Some(place) => {
                self.objects.remove(place);
                assert(self@.objects =~= before.remove(place as int));
            },
            None => {},
        }
        Ok(())
    }
}

/// Model of the blob backend's answer to a read.
pub open spec fn bytes_view(answer: Result<(Vec<u8>, Option<String>), SdkFailure>) -> Result<
    (Seq<u8>, Option<Seq<char>>),
    SdkFailureView,
> {
    match answer {
        Ok((body, content_type)) => Ok((body@, content_type.deep_view())),
        Err(failure) => Err(failure@),
    }
}

/// The key of a row names that row: looking up `meme_id` in it gives the key
/// text.
pub proof fn lemma_key_item_lookup(key: Seq<char>)
    ensures
        lookup_text(key_item(key), "meme_id"@) == Some(key),
{
    reveal_with_fuel(lookup, 2);
}

/// In the rows of a table each row is found under its own key.
pub proof fn lemma_position_of_row(rows: Seq<RowView>, place: int)
    requires
        rows_wf(rows),
        0 <= place < rows.len(),
    ensures
        position(rows, rows[place].key) == Some(place),
{
    let key = rows[place].key;
    assert(holds_key(rows, key, place));
    let chosen = choose|p: int| holds_key(rows, key, p);
    assert(holds_key(rows, key, chosen));
    if chosen < place {
        assert(rows[chosen].key != rows[place].key);
    }
    if chosen > place {
        assert(rows[place].key != rows[chosen].key);
    }
}

/// What `position` says: the row it points to has the key; where it points
/// to none, no row has the key.
pub proof fn lemma_position_holds(rows: Seq<RowView>, key: Seq<char>)
    ensures
        position(rows, key) matches Some(place) ==> holds_key(rows, key, place),
        position(rows, key) is None ==> forall|place: int| !holds_key(rows, key, place),
{
}

/// Storing an item keeps the rows those of a table, puts the item under its
/// key, and leaves what is stored under every other key as it was.
pub proof fn lemma_upsert_stores(rows: Seq<RowView>, key: Seq<char>, item: Seq<AttributeView>)
    requires
        rows_wf(rows),
        lookup_text(item, "meme_id"@) == Some(key),
    ensures
        rows_wf(upsert(rows, key, item)),
        stored(upsert(rows, key, item), key) == Some(item),
        forall|other: Seq<char>|
            other != key ==> #[trigger] stored(upsert(rows, key, item), other) == stored(
                rows,
                other,
            ),
{
    let after = upsert(rows, key, item);
    lemma_position_holds(rows, key);
    let place: int = match position(rows, key) {
        Some(place) => place,
        None => rows.len() as int,
    };
    assert(after.len() > place && after[place] == (RowView { key, item }));
    assert forall|i: int| 0 <= i < after.len() && i != place implies after[i] == rows[i] by {}
    assert(rows_wf(after)) by {
        assert forall|i: int, j: int| 0 <= i < j < after.len() implies (#[trigger] after[i]).key != (
        #[trigger] after[j]).key by {
            if position(rows, key) is None {
                if j == place {
                    assert(!holds_key(rows, key, i));
                }
            } else {
                assert(after[i].key == rows[i].key);
                assert(after[j].key == rows[j].key);
            }
        }
    }
    lemma_position_of_row(after, place);
    assert forall|other: Seq<char>| other != key implies #[trigger] stored(after, other) == stored(
        rows,
        other,
    ) by {
        lemma_position_holds(rows, other);
        lemma_position_holds(after, other);
        match position(rows, other) {
            Some(found) => {
                assert(after[found] == rows[found]);
                lemma_position_of_row(after, found);
            },
            None => {
                if let Some(found) = position(after, other) {
                    assert(found != place);
                    assert(holds_key(rows, other, found));
                }
            },
        }
    }
}

/// Removing the item under a key keeps the rows those of a table, leaves
/// nothing under that key, and leaves what is stored under every other key
/// as it was. Where nothing was under the key, the rows stay as they were.
pub proof fn lemma_without_removes(rows: Seq<RowView>, key: Seq<char>)
    requires
        rows_wf(rows),
    ensures
        rows_wf(without(rows, key)),
        stored(without(rows, key), key) is None,
        stored(rows, key) is None ==> without(rows, key) == rows,
        forall|other: Seq<char>|
            other != key ==> #[trigger] stored(without(rows, key), other) == stored(rows, other),
{
    let after = without(rows, key);
    lemma_position_holds(rows, key);
    lemma_position_holds(after, key);
    match position(rows, key) {
        None => {},
        Some(place) => {
            assert forall|i: int| 0 <= i < after.len() implies after[i] == rows[if i < place {
                i
            } else {
                i + 1
            }] by {}
            assert(rows_wf(after)) by {
                assert forall|i: int, j: int| 0 <= i < j < after.len() implies (
                #[trigger] after[i]).key != (#[trigger] after[j]).key by {
                    let from_i: int = if i < place {
                        i
                    } else {
                        i + 1
                    };
                    let from_j: int = if j < place {
                        j
                    } else {
                        j + 1
                    };
                    assert(after[i] == rows[from_i]);
                    assert(after[j] == rows[from_j]);
                    assert(rows[from_i].key != rows[from_j].key);
                }
                assert forall|i: int| 0 <= i < after.len() implies lookup_text(
                    (#[trigger] after[i]).item,
                    "meme_id"@,
                ) == Some(after[i].key) by {
                    let from_i: int = if i < place {
                        i
                    } else {
                        i + 1
                    };
                    assert(after[i] == rows[from_i]);
                }
            }
            if let Some(found) = position(after, key) {
                let from: int = if found < place {
                    found
                } else {
                    found + 1
                };
                assert(after[found] == rows[from]);
                assert(rows[from].key == rows[place].key);
                if from < place {
                    assert(rows[from].key != rows[place].key);
                } else {
                    assert(rows[place].key != rows[from].key);
                }
            }
            assert forall|other: Seq<char>| other != key implies #[trigger] stored(
                after,
                other,
            ) == stored(rows, other) by {
                lemma_position_holds(rows, other);
                lemma_position_holds(after, other);
                match position(rows, other) {
                    Some(found) => {
                        let to: int = if found < place {
                            found
                        } else {
                            found - 1
                        };
                        assert(found != place);
                        assert(after[to] == rows[found]);
                        lemma_position_of_row(after, to);
                    },
                    None => {
                        if let Some(found) = position(after, other) {
                            let from: int = if found < place {
                                found
                            } else {
                                found + 1
                            };
                            assert(after[found] == rows[from]);
                            assert(holds_key(rows, other, from));
                        }
                    },
                }
            }
        },
    }
}

/// In the objects of a bucket each object is found under its own key.
pub proof fn lemma_slot_of_object(objects: Seq<StoredObjectView>, place: int)
    requires
        objects_wf(objects),
        0 <= place < objects.len(),
    ensures
        slot(objects, objects[place].key) == Some(place),
{
    let key = objects[place].key;
    assert(holds_object(objects, key, place));
    let chosen = choose|p: int| holds_object(objects, key, p);
    assert(holds_object(objects, key, chosen));
    if chosen < place {
        assert(objects[chosen].key != objects[place].key);
    }
    if chosen > place {
        assert(objects[place].key != objects[chosen].key);
    }
}

/// The object stored under a key, if there is one.
pub open spec fn object_at(objects: Seq<StoredObjectView>, key: Seq<char>) -> Option<
    StoredObjectView,
> {
    match slot(objects, key) {
        Some(place) => Some(objects[place]),
        None => None,
    }
}

/// What `slot` says: the object it points to is stored under the key; where
/// it points to none, no object is.
pub proof fn lemma_slot_holds(objects: Seq<StoredObjectView>, key: Seq<char>)
    ensures
        slot(objects, key) matches Some(place) ==> holds_object(objects, key, place),
        slot(objects, key) is None ==> forall|place: int| !holds_object(objects, key, place),
{
}

/// Storing an object keeps the objects those of a bucket, puts the object
/// under its key, and leaves what is stored under every other key as it was.
pub proof fn lemma_with_object_stores(objects: Seq<StoredObjectView>, object: StoredObjectView)
    requires
        objects_wf(objects),
    ensures
        objects_wf(with_object(objects, object)),
        object_at(with_object(objects, object), object.key) == Some(object),
        forall|other: Seq<char>|
            other != object.key ==> #[trigger] object_at(with_object(objects, object), other)
                == object_at(objects, other),
{
    let after = with_object(objects, object);
    lemma_slot_holds(objects, object.key);
    let place: int = match slot(objects, object.key) {
        Some(place) => place,
        None => objects.len() as int,
    };
    assert(after.len() > place && after[place] == object);
    assert forall|i: int| 0 <= i < after.len() && i != place implies after[i] == objects[i] by {}
    assert(objects_wf(after)) by {
        assert forall|i: int, j: int| 0 <= i < j < after.len() implies (#[trigger] after[i]).key != (
        #[trigger] after[j]).key by {
            if slot(objects, object.key) is None {
                if j == place {
                    assert(!holds_object(objects, object.key, i));
                }
            } else {
                assert(after[i].key == objects[i].key);
                assert(after[j].key == objects[j].key);
            }
        }
    }
    lemma_slot_of_object(after, place);
    assert forall|other: Seq<char>| other != object.key implies #[trigger] object_at(
        after,
        other,
    ) == object_at(objects, other) by {
        lemma_slot_holds(objects, other);
        lemma_slot_holds(after, other);
        match slot(objects, other) {
            Some(found) => {
                assert(after[found] == objects[found]);
                lemma_slot_of_object(after, found);
            },
            None => {
                if let Some(found) = slot(after, other) {
                    assert(found != place);
                    assert(holds_object(objects, other, found));
                }
            },
        }
    }
}

/// Removing the object under a key keeps the objects those of a bucket,
/// leaves nothing under that key, and leaves what is stored under every other
/// key as it was.
pub proof fn lemma_without_object_removes(objects: Seq<StoredObjectView>, key: Seq<char>)
    requires
        objects_wf(objects),
    ensures
        objects_wf(without_object(objects, key)),
        object_at(without_object(objects, key), key) is None,
        forall|other: Seq<char>|
            other != key ==> #[trigger] object_at(without_object(objects, key), other)
                == object_at(objects, other),
{
    let after = without_object(objects, key);
    lemma_slot_holds(objects, key);
    lemma_slot_holds(after, key);
    match slot(objects, key) {
        None => {},
        Some(place) => {
            assert forall|i: int| 0 <= i < after.len() implies after[i] == objects[if i < place {
                i
            } else {
                i + 1
            }] by {}
            assert(objects_wf(after)) by {
                assert forall|i: int, j: int| 0 <= i < j < after.len() implies (
                #[trigger] after[i]).key != (#[trigger] after[j]).key by {
                    let from_i: int = if i < place {
                        i
                    } else {
                        i + 1
                    };
                    let from_j: int = if j < place {
                        j
                    } else {
                        j + 1
                    };
                    assert(after[i] == objects[from_i]);
                    assert(after[j] == objects[from_j]);
                    assert(objects[from_i].key != objects[from_j].key);
                }
            }
            if let Some(found) = slot(after, key) {
                let from: int = if found < place {
                    found
                } else {
                    found + 1
                };
                assert(after[found] == objects[from]);
                if from < place {
                    assert(objects[from].key != objects[place].key);
                } else {
                    assert(objects[place].key != objects[from].key);
                }
            }
            assert forall|other: Seq<char>| other != key implies #[trigger] object_at(
                after,
                other,
            ) == object_at(objects, other) by {
                lemma_slot_holds(objects, other);
                lemma_slot_holds(after, other);
                match slot(objects, other) {
                    Some(found) => {
                        let to: int = if found < place {
                            found
                        } else {
                            found - 1
                        };
                        assert(found != place);
                        assert(after[to] == objects[found]);
                        lemma_slot_of_object(after, to);
                    },
                    None => {
                        if let Some(found) = slot(after, other) {
                            let from: int = if found < place {
                                found
                            } else {
                                found + 1
                            };
                            assert(after[found] == objects[from]);
                            assert(holds_object(objects, other, from));
                        }
                    },
                }
            }
        },
    }
}

/// The answers of the in-memory backends to a creation request are final:
/// none of them is a transient failure.
pub proof fn lemma_rejections_are_final()
    ensures
        disposition(ResourceKind::Table, invalid_request()) == Disposition::Permanent,
        disposition(ResourceKind::Table, table_in_use()) == Disposition::AlreadyExists,
        disposition(ResourceKind::Bucket, invalid_location()) == Disposition::Permanent,
        disposition(ResourceKind::Bucket, invalid_bucket_name()) == Disposition::Permanent,
        disposition(ResourceKind::Bucket, bucket_owned()) == Disposition::AlreadyExists,
{
    reveal_strlit("ValidationException");
    reveal_strlit("ResourceInUseException");
    reveal_strlit("InvalidLocationConstraint");
    reveal_strlit("InvalidBucketName");
    reveal_strlit("BucketAlreadyOwnedByYou");
    reveal_strlit("BucketAlreadyExists");
    reveal_strlit("Throttling");
    reveal_strlit("ThrottlingException");
    reveal_strlit("TooManyRequestsException");
    reveal_strlit("RequestLimitExceeded");
    reveal_strlit("ProvisionedThroughputExceededException");
    reveal_strlit("LimitExceededException");
    reveal_strlit("SlowDown");
    assert("ValidationException"@[0] == 'V');
    assert("ThrottlingException"@[0] == 'T');
    assert("InvalidLocationConstraint"@.len() == 25);
    assert("InvalidBucketName"@.len() == 17);
    assert("BucketAlreadyOwnedByYou"@.len() == 23);
    assert("BucketAlreadyExists"@.len() == 19);
    assert("Throttling"@.len() == 10);
    assert("ThrottlingException"@.len() == 19);
    assert("TooManyRequestsException"@.len() == 24);
    assert("RequestLimitExceeded"@.len() == 20);
    assert("ProvisionedThroughputExceededException"@.len() == 38);
    assert("LimitExceededException"@.len() == 22);
    assert("SlowDown"@.len() == 8);
}

} // verus!
