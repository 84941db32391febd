//! Plain-value model of what the two backends are asked and what they answer.
//!
//! The metadata backend is a table keyed by one string attribute; the blob
//! backend is a bucket keyed by strings. A driver turns each request of this
//! module into a call on the real service and each answer, or failure, into
//! the values defined here.

use vstd::prelude::*;
use crate::text::{join2, same_text};

verus! {

/// What a service said when it answered a request with an error.
#[derive(Clone, Debug, PartialEq, Eq)]
pub struct ServiceFault {
    /// HTTP status of the answer.
    pub status: u16,
    /// Error code of the answer, where it carried one.
    pub code: Option<String>,
    /// Text describing the error, for the logs.
    pub message: String,
}

/// Mathematical model of a `ServiceFault`.
pub struct ServiceFaultView {
    pub status: u16,
    pub code: Option<Seq<char>>,
    pub message: Seq<char>,
}

impl View for ServiceFault {
    type V = ServiceFaultView;

    open spec fn view(&self) -> ServiceFaultView {
        ServiceFaultView {
            status: self.status,
            code: self.code.deep_view(),
            message: self.message@,
        }
    }
}

/// Why a request to a backend failed. Each variant but the last carries a
/// description of the failure.
#[derive(Clone, Debug, PartialEq, Eq)]
pub enum SdkFailure {
    /// The request could not be built.
    ConstructionFailure(String),
    /// No answer arrived in time.
    TimeoutError(String),
    /// The request could not be sent.
    DispatchFailure(String),
    /// An answer arrived that could not be read.
    ResponseError(String),
    /// The service answered with an error.
    ServiceError(ServiceFault),
}

/// Mathematical model of an `SdkFailure`.
pub enum SdkFailureView {
    ConstructionFailure(Seq<char>),
    TimeoutError(Seq<char>),
    DispatchFailure(Seq<char>),
    ResponseError(Seq<char>),
    ServiceError(ServiceFaultView),
}

impl View for SdkFailure {
    type V = SdkFailureView;

    open spec fn view(&self) -> SdkFailureView {
        match self {
            SdkFailure::ConstructionFailure(m) => SdkFailureView::ConstructionFailure(m@),
            SdkFailure::TimeoutError(m) => SdkFailureView::TimeoutError(m@),
            SdkFailure::DispatchFailure(m) => SdkFailureView::DispatchFailure(m@),
            SdkFailure::ResponseError(m) => SdkFailureView::ResponseError(m@),
            SdkFailure::ServiceError(fault) => SdkFailureView::ServiceError(fault@),
        }
    }
}

impl DeepView for SdkFailure {
    type V = SdkFailureView;

    open spec fn deep_view(&self) -> SdkFailureView {
        self@
    }
}

impl SdkFailureView {
    /// The error code of a service error; `None` for every other failure and
    /// for a service error without a code.
    pub open spec fn code(self) -> Option<Seq<char>> {
        match self {
            SdkFailureView::ServiceError(fault) => fault.code,
            _ => None,
        }
    }

    /// Tells whether the failure is a service error with the given code.
    pub open spec fn has_code(self, code: Seq<char>) -> bool {
        self.code() == Some(code)
    }

    /// The text that describes the failure.
    pub open spec fn message(self) -> Seq<char> {
        match self {
            SdkFailureView::ConstructionFailure(m) => m,
            SdkFailureView::TimeoutError(m) => m,
            SdkFailureView::DispatchFailure(m) => m,
            SdkFailureView::ResponseError(m) => m,
            SdkFailureView::ServiceError(fault) => fault.message,
        }
    }
}

impl SdkFailure {
    /// The failure of a request that holds a value which cannot be sent;
    /// `what` names the part of the request.
    pub fn unsendable(what: &str) -> (failure: SdkFailure)
        ensures
            failure@ == SdkFailureView::ConstructionFailure(
                what@ + " holds a value that cannot be sent"@,
            ),
    {
        SdkFailure::ConstructionFailure(join2(what, " holds a value that cannot be sent"))
    }

    /// Tells whether the failure is a service error with the given code.
    pub fn has_code(&self, code: &str) -> (has: bool)
        ensures
            has == self@.has_code(code@),
    {
        match self {
            SdkFailure::ServiceError(fault) => match &fault.code {
                Some(own) => same_text(own.as_str(), code),
                None => false,
            },
            _ => false,
        }
    }

    /// The text that describes the failure.
    pub fn message(&self) -> (text: &String)
        ensures
            text@ == self@.message(),
    {
        match self {
            SdkFailure::ConstructionFailure(m) => m,
            SdkFailure::TimeoutError(m) => m,
            SdkFailure::DispatchFailure(m) => m,
            SdkFailure::ResponseError(m) => m,
            SdkFailure::ServiceError(fault) => &fault.message,
        }
    }
}

/// Model of a backend's answer to a request that returns nothing.
pub open spec fn done_view(outcome: Result<(), SdkFailure>) -> Result<(), SdkFailureView> {
    match outcome {
        Ok(()) => Ok(()),
        Err(failure) => Err(failure@),
    }
}

/// Value of one attribute of a stored item.
#[derive(Clone, Debug, PartialEq, Eq)]
pub enum AttributeValue {
    /// A string.
    S(String),
    /// A number, in its decimal notation.
    N(String),
    /// Binary data.
    B(Vec<u8>),
    /// A boolean.
    Bool(bool),
    /// The null value.
    Null,
    /// A list, map or set, whose content the service never reads.
    Composite,
}

/// Mathematical model of an `AttributeValue`.
pub enum AttributeValueView {
    S(Seq<char>),
    N(Seq<char>),
    B(Seq<u8>),
    Bool(bool),
    Null,
    Composite,
}

impl View for AttributeValue {
    type V = AttributeValueView;

    open spec fn view(&self) -> AttributeValueView {
        match self {
            AttributeValue::S(s) => AttributeValueView::S(s@),
            AttributeValue::N(n) => AttributeValueView::N(n@),
            AttributeValue::B(b) => AttributeValueView::B(b@),
            AttributeValue::Bool(b) => AttributeValueView::Bool(*b),
            AttributeValue::Null => AttributeValueView::Null,
            AttributeValue::Composite => AttributeValueView::Composite,
        }
    }
}

impl AttributeValueView {
    /// The text of a string value; `None` for a value of any other type.
    pub open spec fn as_s(self) -> Option<Seq<char>> {
        match self {
            AttributeValueView::S(s) => Some(s),
            _ => None,
        }
    }
}

impl AttributeValue {
    /// The text of a string value; `None` for a value of any other type.
    pub fn as_s(&self) -> (text: Option<&String>)
        ensures
            text.deep_view() == self@.as_s(),
    {
        match self {
            AttributeValue::S(s) => Some(s),
            _ => None,
        }
    }
}

/// One named attribute of an item.
#[derive(Clone, Debug, PartialEq, Eq)]
pub struct Attribute {
    pub name: String,
    pub value: AttributeValue,
}

/// Mathematical model of an `Attribute`.
pub struct AttributeView {
    pub name: Seq<char>,
    pub value: AttributeValueView,
}

impl View for Attribute {
    type V = AttributeView;

    open spec fn view(&self) -> AttributeView {
        AttributeView { name: self.name@, value: self.value@ }
    }
}

impl DeepView for Attribute {
    type V = AttributeView;

    open spec fn deep_view(&self) -> AttributeView {
        self@
    }
}

/// The value that a list of attributes gives to a name: that of the first
/// attribute so named.
pub open spec fn lookup(attributes: Seq<AttributeView>, name: Seq<char>) -> Option<
    AttributeValueView,
>
    decreases attributes.len(),
{
    if attributes.len() == 0 {
        None
    } else if attributes[0].name == name {
        Some(attributes[0].value)
    } else {
        lookup(attributes.drop_first(), name)
    }
}

/// The text that a list of attributes gives to a name, where the name is
/// present and its value is a string.
pub open spec fn lookup_text(attributes: Seq<AttributeView>, name: Seq<char>) -> Option<
    Seq<char>,
> {
    match lookup(attributes, name) {
        Some(value) => value.as_s(),
        None => None,
    }
}

/// A stored item, or a key into the table: named attributes. A name is
/// expected once; of several attributes with one name the first counts.
#[derive(Clone, Debug, PartialEq, Eq)]
pub struct Item {
    pub attributes: Vec<Attribute>,
}

impl View for Item {
    type V = Seq<AttributeView>;

    open spec fn view(&self) -> Seq<AttributeView> {
        self.attributes.deep_view()
    }
}

impl DeepView for Item {
    type V = Seq<AttributeView>;

    open spec fn deep_view(&self) -> Seq<AttributeView> {
        self@
    }
}

/// Copies a sequence of bytes.
pub fn copy_bytes(source: &Vec<u8>) -> (copy: Vec<u8>)
    ensures
        copy@ == source@,
{
    let mut copy: Vec<u8> = Vec::new();
    let mut i: usize = 0;
    while i < source.len()
        invariant
            i <= source.len(),
            copy@ == source@.take(i as int),
        decreases source.len() - i,
    {
        copy.push(source[i]);
        assert(copy@ =~= source@.take(i as int + 1));
        i += 1;
    }
    assert(source@.take(source.len() as int) =~= source@);
    copy
}

impl AttributeValue {
    /// Copies the value.
    pub fn duplicate(&self) -> (copy: AttributeValue)
        ensures
            copy@ == self@,
    {
        match self {
            AttributeValue::S(s) => AttributeValue::S(s.clone()),
            AttributeValue::N(n) => AttributeValue::N(n.clone()),
            AttributeValue::B(b) => AttributeValue::B(copy_bytes(b)),
            AttributeValue::Bool(b) => AttributeValue::Bool(*b),
            AttributeValue::Null => AttributeValue::Null,
            AttributeValue::Composite => AttributeValue::Composite,
        }
    }
}

impl Item {
    /// Copies the item, attribute by attribute.
    pub fn duplicate(&self) -> (copy: Item)
        ensures
            copy@ == self@,
    {
        let mut attributes: Vec<Attribute> = Vec::new();
        let mut i: usize = 0;
        while i < self.attributes.len()
            invariant
                i <= self.attributes.len(),
                attributes.deep_view() == self@.take(i as int),
            decreases self.attributes.len() - i,
        {
            let source = &self.attributes[i];
            let attribute = Attribute {
                name: source.name.clone(),
                value: source.value.duplicate(),
            };
            assert(attribute@ == self@[i as int]);
            let ghost before = attributes.deep_view();
            attributes.push(attribute);
            assert(attributes.deep_view() =~= before.push(attribute@));
            assert(before.push(attribute@) =~= self@.take(i as int + 1));
            i += 1;
        }
        assert(self@.take(self@.len() as int) =~= self@);
        Item { attributes }
    }

    /// The value of the attribute called `name`, if the item has one.
    pub fn get(&self, name: &str) -> (value: Option<&AttributeValue>)
        ensures
            value.is_some() == lookup(self@, name@).is_some(),
            value matches Some(v) ==> lookup(self@, name@) == Some(v@),
    {
        let mut i: usize = 0;
        assert(self@.subrange(0, self@.len() as int) =~= self@);
        while i < self.attributes.len()
            invariant
                i <= self.attributes.len(),
                lookup(self@, name@) == lookup(self@.subrange(i as int, self@.len() as int), name@),
            decreases self.attributes.len() - i,
        {
            let ghost rest = self@.subrange(i as int, self@.len() as int);
            assert(rest[0] == self.attributes[i as int]@);
            assert(rest.drop_first() =~= self@.subrange(i as int + 1, self@.len() as int));
            if same_text(self.attributes[i].name.as_str(), name) {
                return Some(&self.attributes[i].value);
            }
            i += 1;
        }
        assert(self@.subrange(i as int, self@.len() as int).len() == 0);
        None
    }

    /// The text of the attribute called `name`, where the item has one and
    /// its value is a string.
    pub fn get_text(&self, name: &str) -> (text: Option<&String>)
        ensures
            text.deep_view() == lookup_text(self@, name@),
    {
        match self.get(name) {
            Some(value) => value.as_s(),
            None => None,
        }
    }
}

/// One page of a scan over the table.
#[derive(Clone, Debug, PartialEq, Eq)]
pub struct ScanPage {
    /// The items of the page; a page may come without any.
    pub items: Option<Vec<Item>>,
    /// Where the next page resumes; `None` on the last page.
    pub last_evaluated_key: Option<Item>,
}

/// Mathematical model of a `ScanPage`.
pub struct ScanPageView {
    pub items: Option<Seq<Seq<AttributeView>>>,
    pub last_evaluated_key: Option<Seq<AttributeView>>,
}

impl View for ScanPage {
    type V = ScanPageView;

    open spec fn view(&self) -> ScanPageView {
        ScanPageView {
            items: self.items.deep_view(),
            last_evaluated_key: self.last_evaluated_key.deep_view(),
        }
    }
}

/// Request to store an item, in place of any item with the same key.
#[derive(Clone, Debug, PartialEq, Eq)]
pub struct PutItemRequest {
    pub table_name: String,
    pub item: Item,
}

/// Request to read the item with a key.
#[derive(Clone, Debug, PartialEq, Eq)]
pub struct GetItemRequest {
    pub table_name: String,
    pub key: Item,
}

/// Request to remove the item with a key.
#[derive(Clone, Debug, PartialEq, Eq)]
pub struct DeleteItemRequest {
    pub table_name: String,
    pub key: Item,
}

/// Request for one page of a scan over the table.
#[derive(Clone, Debug, PartialEq, Eq)]
pub struct ScanRequest {
    pub table_name: String,
    /// Where the page starts: what the page before gave as its
    /// `last_evaluated_key`, or `None` for the first page.
    pub exclusive_start_key: Option<Item>,
}

/// Request to store an object under a key, in place of any object there.
#[derive(Clone, Debug, PartialEq, Eq)]
pub struct PutObjectRequest {
    pub bucket: String,
    pub key: String,
    pub body: Vec<u8>,
    /// Media type to store with the object; `None` leaves it to the backend.
    pub content_type: Option<String>,
}

/// Request to read the object under a key.
#[derive(Clone, Debug, PartialEq, Eq)]
pub struct GetObjectRequest {
    pub bucket: String,
    pub key: String,
}

/// Request to remove the object under a key.
#[derive(Clone, Debug, PartialEq, Eq)]
pub struct DeleteObjectRequest {
    pub bucket: String,
    pub key: String,
}

} // verus!
