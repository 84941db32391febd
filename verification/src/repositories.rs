//! The metadata repository: records in a table keyed by their identifier.
//!
//! Each operation is a request to the table and a reading of its answer. The
//! functions here build the requests and read the answers; a scan over the
//! whole table is a value that takes one page after the other.

use vstd::prelude::*;
use vstd::string::*;
use crate::backend::{
    done_view, lookup, lookup_text, Attribute, AttributeValue, AttributeValueView, AttributeView,
    DeleteItemRequest, GetItemRequest, Item, PutItemRequest, ScanPage, ScanPageView, ScanRequest,
    SdkFailure, SdkFailureView,
};
use crate::errors::{Fault, FaultView, RepoError, RepoErrorView};
use crate::models::{Meme, MemeId, MemeView};
use crate::text::{join3, join5};

verus! {

/// A string attribute.
pub open spec fn text_attribute(name: Seq<char>, text: Seq<char>) -> AttributeView {
    AttributeView { name, value: AttributeValueView::S(text) }
}

/// The key under which the record with an identifier is stored: the one
/// attribute `meme_id`, holding the identifier's canonical text.
pub open spec fn key_of(id: MemeId) -> Seq<AttributeView> {
    seq![text_attribute("meme_id"@, id.text())]
}

/// The item that stores a record: its four fields as string attributes.
pub open spec fn encode(meme: MemeView) -> Seq<AttributeView> {
    seq![
        text_attribute("meme_id"@, meme.meme_id.text()),
        text_attribute("title"@, meme.title),
        text_attribute("description"@, meme.description),
        text_attribute("image_key"@, meme.image_key),
    ]
}

/// The record that an item stores. An item stores one when it has the four
/// attributes `meme_id`, `title`, `description` and `image_key`, all of them
/// strings, and `meme_id` reads as an identifier.
pub open spec fn decode(item: Seq<AttributeView>) -> Option<MemeView> {
    match (
        lookup_text(item, "meme_id"@),
        lookup_text(item, "title"@),
        lookup_text(item, "description"@),
        lookup_text(item, "image_key"@),
    ) {
        (Some(id_text), Some(title), Some(description), Some(image_key)) => match MemeId::parsed(
            id_text,
        ) {
            Some(meme_id) => Some(MemeView { meme_id, title, description, image_key }),
            None => None,
        },
        _ => None,
    }
}

/// Makes a string attribute.
fn string_attribute(name: &str, text: String) -> (attribute: Attribute)
    ensures
        attribute@ == text_attribute(name@, text@),
{
    Attribute { name: String::from_str(name), value: AttributeValue::S(text) }
}

/// Looking up the four attribute names in the item of a record finds the
/// four fields.
pub proof fn lemma_lookup_encoded(meme: MemeView)
    ensures
        lookup_text(encode(meme), "meme_id"@) == Some(meme.meme_id.text()),
        lookup_text(encode(meme), "title"@) == Some(meme.title),
        lookup_text(encode(meme), "description"@) == Some(meme.description),
        lookup_text(encode(meme), "image_key"@) == Some(meme.image_key),
{
    reveal_strlit("meme_id");
    reveal_strlit("title");
    reveal_strlit("description");
    reveal_strlit("image_key");
    let item = encode(meme);
    let rest1 = item.drop_first();
    let rest2 = rest1.drop_first();
    let rest3 = rest2.drop_first();
    assert(item[0].name == "meme_id"@);
    assert(rest1[0] == item[1]);
    assert(rest2[0] == item[2]);
    assert(rest3[0] == item[3]);
    assert("meme_id"@.len() == 7);
    assert("title"@.len() == 5);
    assert("description"@.len() == 11);
    assert("image_key"@.len() == 9);
    reveal_with_fuel(lookup, 5);
}

/// The key under which the record with an identifier is stored.
pub fn key_for(id: MemeId) -> (key: Item)
    ensures
        key@ == key_of(id),
{
    let mut attributes: Vec<Attribute> = Vec::new();
    attributes.push(string_attribute("meme_id", id.to_string()));
    let key = Item { attributes };
    assert(key@ =~= key_of(id));
    key
}

/// Writes a record as an item. Reading the item gives the record back.
pub fn meme_to_item(meme: &Meme) -> (item: Item)
    ensures
        item@ == encode(meme@),
        decode(item@) == Some(meme@),
{
    let mut attributes: Vec<Attribute> = Vec::new();
    attributes.push(string_attribute("meme_id", meme.meme_id.to_string()));
    attributes.push(string_attribute("title", meme.title.clone()));
    attributes.push(string_attribute("description", meme.description.clone()));
    attributes.push(string_attribute("image_key", meme.image_key.clone()));
    let item = Item { attributes };
    assert(item@ =~= encode(meme@));
    proof {
        lemma_lookup_encoded(meme@);
    }
    item
}

/// Reads the record that an item stores; `None` when it stores none.
pub fn item_to_meme(item: &Item) -> (meme: Option<Meme>)
    ensures
        meme.deep_view() == decode(item@),
{
    let meme_id = match item.get_text("meme_id") {
        Some(text) => match MemeId::parse_str(text.as_str()) {
            Some(id) => id,
            None => { return None; },
        },
        None => { return None; },
    };
    let title = match item.get_text("title") {
        Some(text) => text.clone(),
        None => { return None; },
    };
    let description = match item.get_text("description") {
        Some(text) => text.clone(),
        None => { return None; },
    };
    let image_key = match item.get_text("image_key") {
        Some(text) => text.clone(),
        None => { return None; },
    };
    Some(Meme { meme_id, title, description, image_key })
}

/// Model of the result of an operation that returns nothing.
pub open spec fn unit_view(result: Result<(), RepoError>) -> Result<(), RepoErrorView> {
    match result {
        Ok(()) => Ok(()),
        Err(error) => Err(error@),
    }
}

/// Model of the result of a lookup.
pub open spec fn found_view(result: Result<Option<Meme>, RepoError>) -> Result<
    Option<MemeView>,
    RepoErrorView,
> {
    match result {
        Ok(found) => Ok(found.deep_view()),
        Err(error) => Err(error@),
    }
}

/// Model of the result of an enumeration.
pub open spec fn listed_view(result: Result<Vec<Meme>, RepoError>) -> Result<
    Seq<MemeView>,
    RepoErrorView,
> {
    match result {
        Ok(memes) => Ok(memes.deep_view()),
        Err(error) => Err(error@),
    }
}

/// Model of the backend's answer to a point read.
pub open spec fn got_view(outcome: Result<Option<Item>, SdkFailure>) -> Result<
    Option<Seq<AttributeView>>,
    SdkFailureView,
> {
    match outcome {
        Ok(item) => Ok(item.deep_view()),
        Err(failure) => Err(failure@),
    }
}

/// Model of the backend's answer to a request for a page.
pub open spec fn page_view(outcome: Result<ScanPage, SdkFailure>) -> Result<
    ScanPageView,
    SdkFailureView,
> {
    match outcome {
        Ok(page) => Ok(page@),
        Err(failure) => Err(failure@),
    }
}

/// What the repository was doing on a record when the backend failed;
/// `verb` is `put`, `get` or `delete`.
pub open spec fn record_context(table: Seq<char>, verb: Seq<char>, id: MemeId) -> Seq<char> {
    "DynamoDB (table: "@ + table + "): Failed to "@ + verb + " meme (id: "@ + id.text() + ")"@
}

/// What the repository was doing when a scan failed.
pub open spec fn scan_context(table: Seq<char>) -> Seq<char> {
    "DynamoDB: Failed to scan table '"@ + table + "'"@
}

/// What is reported of an item that a point read returned and that stores no
/// record.
pub open spec fn corrupt_record_text(table: Seq<char>, id: MemeId) -> Seq<char> {
    "Failed to parse meme data retrieved from DynamoDB table '"@ + table + "' for id "@
        + id.text()
}

/// How a report names an item: by the text of its `meme_id` where it has
/// one.
pub open spec fn item_label(item: Seq<AttributeView>) -> Seq<char> {
    match lookup_text(item, "meme_id"@) {
        Some(id_text) => "'"@ + id_text + "'"@,
        None => "without id"@,
    }
}

/// What is reported of an item that a scan returned and that stores no
/// record.
pub open spec fn corrupt_item_text(table: Seq<char>, item: Seq<AttributeView>) -> Seq<char> {
    "DynamoDB: Failed to parse item "@ + item_label(item) + " during scan of table '"@ + table
        + "'"@
}

/// The error for a failure of the backend while working on a record.
pub open spec fn record_failure(
    table: Seq<char>,
    verb: Seq<char>,
    id: MemeId,
    failure: SdkFailureView,
) -> RepoErrorView {
    RepoErrorView::BackendError(
        FaultView { context: record_context(table, verb, id), cause: failure },
    )
}

/// The result of an upsert or a removal, given the backend's answer: success
/// exactly when the backend reports success.
pub open spec fn write_result(
    table: Seq<char>,
    verb: Seq<char>,
    id: MemeId,
    outcome: Result<(), SdkFailureView>,
) -> Result<(), RepoErrorView> {
    match outcome {
        Ok(()) => Ok(()),
        Err(failure) => Err(record_failure(table, verb, id, failure)),
    }
}

/// The result of a lookup, given the backend's answer. No item is no record
/// and no error; an item that stores no record is corruption.
pub open spec fn get_result(
    table: Seq<char>,
    id: MemeId,
    outcome: Result<Option<Seq<AttributeView>>, SdkFailureView>,
) -> Result<Option<MemeView>, RepoErrorView> {
    match outcome {
        Err(failure) => Err(record_failure(table, "get"@, id, failure)),
        Ok(None) => Ok(None),
        Ok(Some(item)) => match decode(item) {
            Some(meme) => Ok(Some(meme)),
            None => Err(RepoErrorView::DataCorruption(corrupt_record_text(table, id))),
        },
    }
}

/// Builds the context of a failure on a record.
fn record_context_text(table_name: &str, verb: &str, id: MemeId) -> (context: String)
    ensures
        context@ == record_context(table_name@, verb@, id),
{
    let id_text = id.to_string();
    let mut context = join5(
        "DynamoDB (table: ",
        table_name,
        "): Failed to ",
        verb,
        " meme (id: ",
    );
    context.append(id_text.as_str());
    context.append(")");
    context
}

/// Reads the backend's answer to an upsert or a removal.
fn read_write_outcome(table_name: &str, verb: &str, id: MemeId, outcome: Result<(), SdkFailure>)
    -> (result: Result<(), RepoError>)
    ensures
        unit_view(result) == write_result(table_name@, verb@, id, done_view(outcome)),
{
    match outcome {
        Ok(()) => Ok(()),
        Err(cause) => Err(
            RepoError::BackendError(
                Fault { context: record_context_text(table_name, verb, id), cause },
            ),
        ),
    }
}

/// The metadata repository over one table.
#[derive(Clone, Debug, PartialEq, Eq)]
pub struct DynamoDbMemeRepository {
    pub table_name: String,
}

impl DynamoDbMemeRepository {
    /// A repository over the table called `table_name`.
    pub fn new(table_name: String) -> (repository: DynamoDbMemeRepository)
        ensures
            repository.table_name@ == table_name@,
    {
        DynamoDbMemeRepository { table_name }
    }

    /// The request that stores a record, in place of any record with the
    /// same identifier.
    pub fn create_request(&self, meme: &Meme) -> (request: PutItemRequest)
        ensures
            request.table_name@ == self.table_name@,
            request.item@ == encode(meme@),
            decode(request.item@) == Some(meme@),
    {
        PutItemRequest { table_name: self.table_name.clone(), item: meme_to_item(meme) }
    }

    /// Reads the backend's answer to the storing of the record `id`.
    pub fn create_result(&self, id: MemeId, outcome: Result<(), SdkFailure>) -> (result: Result<
        (),
        RepoError,
    >)
        ensures
            unit_view(result) == write_result(self.table_name@, "put"@, id, done_view(outcome)),
    {
        read_write_outcome(self.table_name.as_str(), "put", id, outcome)
    }

    /// The request that reads the record `id`.
    pub fn get_request(&self, id: MemeId) -> (request: GetItemRequest)
        ensures
            request.table_name@ == self.table_name@,
            request.key@ == key_of(id),
    {
        GetItemRequest { table_name: self.table_name.clone(), key: key_for(id) }
    }

    /// Reads the backend's answer to the reading of the record `id`.
    pub fn get_result(&self, id: MemeId, outcome: Result<Option<Item>, SdkFailure>) -> (result:
        Result<Option<Meme>, RepoError>)
        ensures
            found_view(result) == get_result(self.table_name@, id, got_view(outcome)),
    {
        match outcome {
            Err(cause) => Err(
                RepoError::BackendError(
                    Fault {
                        context: record_context_text(self.table_name.as_str(), "get", id),
                        cause,
                    },
                ),
            ),
            Ok(None) => Ok(None),
            Ok(Some(item)) => match item_to_meme(&item) {
                Some(meme) => Ok(Some(meme)),
                None => {
                    let id_text = id.to_string();
                    let mut detail = join3(
                        "Failed to parse meme data retrieved from DynamoDB table '",
                        self.table_name.as_str(),
                        "' for id ",
                    );
                    detail.append(id_text.as_str());
                    Err(RepoError::DataCorruption(detail))
                },
            },
        }
    }

    /// The request that removes the record `id`.
    pub fn delete_request(&self, id: MemeId) -> (request: DeleteItemRequest)
        ensures
            request.table_name@ == self.table_name@,
            request.key@ == key_of(id),
    {
        DeleteItemRequest { table_name: self.table_name.clone(), key: key_for(id) }
    }

    /// Reads the backend's answer to the removal of the record `id`. The
    /// backend reports success whether or not the record was there, and so
    /// does the repository.
    pub fn delete_result(&self, id: MemeId, outcome: Result<(), SdkFailure>) -> (result: Result<
        (),
        RepoError,
    >)
        ensures
            unit_view(result) == write_result(
                self.table_name@,
                "delete"@,
                id,
                done_view(outcome),
            ),
    {
        read_write_outcome(self.table_name.as_str(), "delete", id, outcome)
    }
}

/// The place of the first item of a page that stores no record.
pub open spec fn first_corrupt(items: Seq<Seq<AttributeView>>) -> Option<int>
    decreases items.len(),
{
    if items.len() == 0 {
        None
    } else if decode(items[0]) is None {
        Some(0)
    } else {
        match first_corrupt(items.drop_first()) {
            Some(place) => Some(place + 1),
            None => None,
        }
    }
}

/// The records of a page, item by item; meant for a page all of whose items
/// store records.
pub open spec fn decode_all(items: Seq<Seq<AttributeView>>) -> Seq<MemeView> {
    Seq::new(items.len(), |i: int| decode(items[i])->0)
}

/// The items of a page; a page that names none has none.
pub open spec fn items_of(page: ScanPageView) -> Seq<Seq<AttributeView>> {
    match page.items {
        Some(items) => items,
        None => Seq::empty(),
    }
}

/// Where `first_corrupt` points, given that every item before `place` stores
/// a record.
pub proof fn lemma_first_corrupt(items: Seq<Seq<AttributeView>>, place: int)
    requires
        0 <= place <= items.len(),
        forall|j: int| 0 <= j < place ==> decode(#[trigger] items[j]) is Some,
    ensures
        place < items.len() && decode(items[place]) is None ==> first_corrupt(items) == Some(
            place,
        ),
        place == items.len() ==> first_corrupt(items) is None,
    decreases place,
{
    if place > 0 {
        let rest = items.drop_first();
        assert forall|j: int| 0 <= j < place - 1 implies decode(#[trigger] rest[j]) is Some by {
            assert(rest[j] == items[j + 1]);
        }
        lemma_first_corrupt(rest, place - 1);
        if place < items.len() {
            assert(rest[place - 1] == items[place]);
        }
        assert(decode(items[0]) is Some);
    }
}

/// What `first_corrupt` says of a page: the item it points to stores no
/// record and every item before it stores one; where it points to none,
/// every item stores a record.
pub proof fn lemma_first_corrupt_is_first(items: Seq<Seq<AttributeView>>)
    ensures
        first_corrupt(items) matches Some(place) ==> {
            &&& 0 <= place < items.len()
            &&& decode(items[place]) is None
            &&& forall|j: int| 0 <= j < place ==> decode(#[trigger] items[j]) is Some
        },
        first_corrupt(items) is None ==> forall|j: int|
            0 <= j < items.len() ==> decode(#[trigger] items[j]) is Some,
    decreases items.len(),
{
    if items.len() > 0 && decode(items[0]) is Some {
        let rest = items.drop_first();
        lemma_first_corrupt_is_first(rest);
        match first_corrupt(rest) {
            Some(place) => {
                assert(rest[place] == items[place + 1]);
                assert forall|j: int| 0 <= j < place + 1 implies decode(
                    #[trigger] items[j],
                ) is Some by {
                    if j > 0 {
                        assert(rest[j - 1] == items[j]);
                    }
                }
            },
            None => {
                assert forall|j: int| 0 <= j < items.len() implies decode(
                    #[trigger] items[j],
                ) is Some by {
                    if j > 0 {
                        assert(rest[j - 1] == items[j]);
                    }
                }
            },
        }
    }
}

/// An enumeration of the table in progress: the records gathered from the
/// pages read so far, and where the next page starts.
#[derive(Clone, Debug, PartialEq, Eq)]
pub struct Scan {
    pub table_name: String,
    /// The records of the pages read so far, in the order they came.
    pub memes: Vec<Meme>,
    /// What the last page gave as its continuation; `None` before the first
    /// page.
    pub start_key: Option<Item>,
}

/// Mathematical model of a `Scan`.
pub struct ScanView {
    pub table_name: Seq<char>,
    pub memes: Seq<MemeView>,
    pub start_key: Option<Seq<AttributeView>>,
}

impl View for Scan {
    type V = ScanView;

    open spec fn view(&self) -> ScanView {
        ScanView {
            table_name: self.table_name@,
            memes: self.memes.deep_view(),
            start_key: self.start_key.deep_view(),
        }
    }
}

/// What follows a page of a scan.
#[derive(Debug, PartialEq, Eq)]
pub enum ScanStep {
    /// More pages follow: ask for the next with the scan as it is now.
    Continue(Scan),
    /// The enumeration is over, with this result.
    Done(Result<Vec<Meme>, RepoError>),
}

/// Mathematical model of a `ScanStep`.
pub enum ScanStepView {
    Continue(ScanView),
    Done(Result<Seq<MemeView>, RepoErrorView>),
}

impl View for ScanStep {
    type V = ScanStepView;

    open spec fn view(&self) -> ScanStepView {
        match self {
            ScanStep::Continue(scan) => ScanStepView::Continue(scan@),
            ScanStep::Done(result) => ScanStepView::Done(listed_view(*result)),
        }
    }
}

/// The scan before its first page.
pub open spec fn scan_start(table: Seq<char>) -> ScanView {
    ScanView { table_name: table, memes: Seq::empty(), start_key: None }
}

/// What follows when a scan is given the backend's answer to its request.
///
/// A failure of the backend ends the scan with that failure. So does the
/// first item of the page that stores no record: the scan reports corruption
/// and what it had gathered is dropped. Otherwise the records of the page are
/// added, in order, to those gathered; the scan is over when the page names
/// no continuation, and goes on from the continuation when it names one.
pub open spec fn after_page(scan: ScanView, outcome: Result<ScanPageView, SdkFailureView>)
    -> ScanStepView {
    match outcome {
        Err(failure) => ScanStepView::Done(
            Err(
                RepoErrorView::BackendError(
                    FaultView { context: scan_context(scan.table_name), cause: failure },
                ),
            ),
        ),
        Ok(page) => match first_corrupt(items_of(page)) {
            Some(place) => ScanStepView::Done(
                Err(
                    RepoErrorView::DataCorruption(
                        corrupt_item_text(scan.table_name, items_of(page)[place]),
                    ),
                ),
            ),
            None => {
                let memes = scan.memes + decode_all(items_of(page));
                match page.last_evaluated_key {
                    None => ScanStepView::Done(Ok(memes)),
                    Some(key) => ScanStepView::Continue(
                        ScanView { table_name: scan.table_name, memes, start_key: Some(key) },
                    ),
                }
            },
        },
    }
}

/// Builds the report of an item that stores no record.
fn corrupt_item_report(table_name: &str, item: &Item) -> (detail: String)
    ensures
        detail@ == corrupt_item_text(table_name@, item@),
{
    let label = match item.get_text("meme_id") {
        Some(id_text) => join3("'", id_text.as_str(), "'"),
        None => String::from_str("without id"),
    };
    join5(
        "DynamoDB: Failed to parse item ",
        label.as_str(),
        " during scan of table '",
        table_name,
        "'",
    )
}

impl Scan {
    /// The request for the next page.
    pub fn request(&self) -> (request: ScanRequest)
        ensures
            request.table_name@ == self.table_name@,
            request.exclusive_start_key.deep_view() == self.start_key.deep_view(),
    {
        let exclusive_start_key = match &self.start_key {
            Some(key) => Some(key.duplicate()),
            None => None,
        };
        ScanRequest { table_name: self.table_name.clone(), exclusive_start_key }
    }

    /// Takes the backend's answer to the request for the next page.
    pub fn absorb(self, outcome: Result<ScanPage, SdkFailure>) -> (step: ScanStep)
        ensures
            step@ == after_page(self@, page_view(outcome)),
    {
        let Scan { table_name, memes, start_key: _ } = self;
        let mut memes = memes;
        let page = match outcome {
            Ok(page) => page,
            Err(cause) => {
                let context = join3("DynamoDB: Failed to scan table '", table_name.as_str(), "'");
                return ScanStep::Done(Err(RepoError::BackendError(Fault { context, cause })));
            },
        };
        let ScanPage { items, last_evaluated_key } = page;
        let ghost base = memes.deep_view();
        let ghost views = items_of(page@);
        match items {
            Some(items) => {
                assert(items.deep_view() == views);
                let mut i: usize = 0;
                assert(decode_all(views.take(0)) =~= Seq::<MemeView>::empty());
                assert(base + Seq::<MemeView>::empty() =~= base);
                while i < items.len()
                    invariant
                        i <= items.len(),
                        items.deep_view() == views,
                        views == items_of(page@),
                        page_view(outcome) == Ok::<ScanPageView, SdkFailureView>(page@),
                        self@.table_name == table_name@,
                        forall|j: int| 0 <= j < i ==> decode(#[trigger] views[j]) is Some,
                        memes.deep_view() == base + decode_all(views.take(i as int)),
                    decreases items.len() - i,
                {
                    assert(views[i as int] == items[i as int]@);
                    match item_to_meme(&items[i]) {
                        Some(meme) => {
                            let ghost before = memes.deep_view();
                            memes.push(meme);
                            assert(memes.deep_view() =~= before.push(meme@));
                            assert(decode_all(views.take(i as int + 1)) =~= decode_all(
                                views.take(i as int),
                            ).push(decode(views[i as int])->0));
                            assert(before.push(meme@) =~= base + decode_all(
                                views.take(i as int + 1),
                            ));
                        },
                        None => {
                            proof {
                                lemma_first_corrupt(views, i as int);
                            }
                            let detail = corrupt_item_report(table_name.as_str(), &items[i]);
                            return ScanStep::Done(Err(RepoError::DataCorruption(detail)));
                        },
                    }
                    i += 1;
                }
                proof {
                    lemma_first_corrupt(views, views.len() as int);
                    assert(views.take(views.len() as int) =~= views);
                }
            },
            None => {
                assert(decode_all(views) =~= Seq::<MemeView>::empty());
                assert(base + Seq::<MemeView>::empty() =~= base);
            },
        }
        match last_evaluated_key {
            None => ScanStep::Done(Ok(memes)),
            Some(key) => ScanStep::Continue(Scan { table_name, memes, start_key: Some(key) }),
        }
    }
}

impl DynamoDbMemeRepository {
    /// Starts an enumeration of the table.
    pub fn begin_scan(&self) -> (scan: Scan)
        ensures
            scan@ == scan_start(self.table_name@),
    {
        let scan = Scan { table_name: self.table_name.clone(), memes: Vec::new(), start_key: None };
        assert(scan.memes.deep_view() =~= Seq::<MemeView>::empty());
        scan
    }
}

/// An enumeration played through on paper: `answers[i]` is what the backend
/// answers to the request number `i`. Pages are taken until a step ends the
/// scan; `None` means that the answers ran out before it ended.
pub open spec fn scan_run(scan: ScanView, answers: Seq<Result<ScanPageView, SdkFailureView>>)
    -> Option<Result<Seq<MemeView>, RepoErrorView>>
    decreases answers.len(),
{
    if answers.len() == 0 {
        None
    } else {
        match after_page(scan, answers[0]) {
            ScanStepView::Done(result) => Some(result),
            ScanStepView::Continue(next) => scan_run(next, answers.drop_first()),
        }
    }
}

/// The records of a series of pages, page after page.
pub open spec fn records_of(pages: Seq<ScanPageView>) -> Seq<MemeView>
    decreases pages.len(),
{
    if pages.len() == 0 {
        Seq::empty()
    } else {
        decode_all(items_of(pages[0])) + records_of(pages.drop_first())
    }
}

/// The number of items in a series of pages.
pub open spec fn item_count(pages: Seq<ScanPageView>) -> nat
    decreases pages.len(),
{
    if pages.len() == 0 {
        0
    } else {
        items_of(pages[0]).len() + item_count(pages.drop_first())
    }
}

/// The backend's answers when it serves the given pages without failure.
pub open spec fn served(pages: Seq<ScanPageView>) -> Seq<Result<ScanPageView, SdkFailureView>> {
    Seq::new(pages.len(), |i: int| Ok(pages[i]))
}

/// A series of pages as a table is served in full: every item stores a
/// record, every page but the last names a continuation, the last none.
pub open spec fn well_paged(pages: Seq<ScanPageView>) -> bool {
    &&& pages.len() > 0
    &&& forall|i: int|
        0 <= i < pages.len() ==> first_corrupt(items_of(#[trigger] pages[i])) is None
    &&& forall|i: int|
        0 <= i < pages.len() - 1 ==> (#[trigger] pages[i]).last_evaluated_key is Some
    &&& pages[pages.len() - 1].last_evaluated_key is None
}

/// Pagination is followed to the end: when the backend serves a table in
/// pages, the enumeration returns the records of all pages, each item's
/// record once and in the order served, after those gathered before.
pub proof fn lemma_scan_gathers_every_page(scan: ScanView, pages: Seq<ScanPageView>)
    requires
        well_paged(pages),
    ensures
        scan_run(scan, served(pages)) == Some(
            Ok::<Seq<MemeView>, RepoErrorView>(scan.memes + records_of(pages)),
        ),
        records_of(pages).len() == item_count(pages),
    decreases pages.len(),
{
    let answers = served(pages);
    let rest = pages.drop_first();
    let gathered = scan.memes + decode_all(items_of(pages[0]));
    assert(answers[0] == Ok::<ScanPageView, SdkFailureView>(pages[0]));
    if pages.len() == 1 {
        assert(records_of(rest) =~= Seq::<MemeView>::empty());
        assert(item_count(rest) == 0);
        assert(scan.memes + records_of(pages) =~= gathered);
    } else {
        assert(pages[0].last_evaluated_key is Some);
        let next = ScanView {
            table_name: scan.table_name,
            memes: gathered,
            start_key: pages[0].last_evaluated_key,
        };
        assert(after_page(scan, answers[0]) == ScanStepView::Continue(next));
        assert(answers.drop_first() =~= served(rest));
        assert forall|i: int| 0 <= i < rest.len() implies first_corrupt(
            items_of(#[trigger] rest[i]),
        ) is None by {
            assert(rest[i] == pages[i + 1]);
        }
        assert forall|i: int| 0 <= i < rest.len() - 1 implies (
        #[trigger] rest[i]).last_evaluated_key is Some by {
            assert(rest[i] == pages[i + 1]);
        }
        assert(rest[rest.len() - 1] == pages[pages.len() - 1]);
        lemma_scan_gathers_every_page(next, rest);
        assert(gathered + records_of(rest) =~= scan.memes + records_of(pages));
    }
}

/// Each request resumes where the page before ended: the scan that follows
/// a page starts at the continuation which that page named.
pub proof fn lemma_scan_resumes_at_continuation(scan: ScanView, page: ScanPageView)
    requires
        after_page(scan, Ok(page)) is Continue,
    ensures
        after_page(scan, Ok(page))->Continue_0.start_key == page.last_evaluated_key,
        page.last_evaluated_key is Some,
{
}

/// An enumeration fails fast: an item that stores no record ends it with
/// corruption, whatever was gathered and whatever pages would follow.
pub proof fn lemma_scan_fails_fast(
    scan: ScanView,
    answers: Seq<Result<ScanPageView, SdkFailureView>>,
)
    requires
        answers.len() > 0,
        answers[0] matches Ok(page) && first_corrupt(items_of(page)) is Some,
    ensures
        scan_run(scan, answers) matches Some(Err(RepoErrorView::DataCorruption(_))),
{
}

} // verus!
