//! The persisted metadata record and its identifier.

use vstd::prelude::*;

verus! {

/// The 128-bit value that a piece of text denotes when read as a UUID, in any
/// of the notations the `uuid` crate accepts; `None` when it denotes none.
pub uninterp spec fn uuid_parse(text: Seq<char>) -> Option<u128>;

/// The hexadecimal digit, in lower case, of a value below sixteen.
pub open spec fn hex_digit(value: int) -> char {
    if value < 10 {
        ('0' as int + value) as char
    } else {
        ('a' as int + value - 10) as char
    }
}

/// The value of the hexadecimal digit of an identifier at `place`, counted
/// from the most significant digit, at place 0, to the least, at place 31.
pub open spec fn digit_value(value: u128, place: int) -> int {
    ((value >> (((31 - place) * 4) as u128)) & 0xf) as int
}

/// The place of the digit that stands at position `i` of the canonical text,
/// whose 32 digits come in groups of 8, 4, 4, 4 and 12 with a hyphen between
/// two groups.
pub open spec fn digit_place(i: int) -> int {
    if i < 8 {
        i
    } else if i < 13 {
        i - 1
    } else if i < 18 {
        i - 2
    } else if i < 23 {
        i - 3
    } else {
        i - 4
    }
}

/// The canonical text of a 128-bit identifier: its 32 hexadecimal digits in
/// lower case, most significant first, with hyphens behind the digits 8, 12,
/// 16 and 20.
pub open spec fn uuid_text(value: u128) -> Seq<char> {
    Seq::new(
        36,
        |i: int|
            if i == 8 || i == 13 || i == 18 || i == 23 {
                '-'
            } else {
                hex_digit(digit_value(value, digit_place(i)))
            },
    )
}

/// Identifiers with the same canonical text have the same digit at every
/// place.
proof fn lemma_digits_agree(a: u128, b: u128, place: int)
    requires
        uuid_text(a) == uuid_text(b),
        0 <= place < 32,
    ensures
        digit_value(a, place) == digit_value(b, place),
{
    let i: int = if place < 8 {
        place
    } else if place < 12 {
        place + 1
    } else if place < 16 {
        place + 2
    } else if place < 20 {
        place + 3
    } else {
        place + 4
    };
    assert(digit_place(i) == place);
    assert(uuid_text(a)[i] == hex_digit(digit_value(a, place)));
    assert(uuid_text(b)[i] == hex_digit(digit_value(b, place)));
    let shift: u128 = ((31 - place) * 4) as u128;
    let from_a = a >> shift;
    let from_b = b >> shift;
    assert(from_a & 0xf < 16) by (bit_vector);
    assert(from_b & 0xf < 16) by (bit_vector);
}

/// Different identifiers have different canonical texts.
pub proof fn lemma_text_tells_identifiers_apart(a: u128, b: u128)
    requires
        uuid_text(a) == uuid_text(b),
    ensures
        a == b,
{
    lemma_digits_agree(a, b, 0);
    lemma_digits_agree(a, b, 1);
    lemma_digits_agree(a, b, 2);
    lemma_digits_agree(a, b, 3);
    lemma_digits_agree(a, b, 4);
    lemma_digits_agree(a, b, 5);
    lemma_digits_agree(a, b, 6);
    lemma_digits_agree(a, b, 7);
    lemma_digits_agree(a, b, 8);
    lemma_digits_agree(a, b, 9);
    lemma_digits_agree(a, b, 10);
    lemma_digits_agree(a, b, 11);
    lemma_digits_agree(a, b, 12);
    lemma_digits_agree(a, b, 13);
    lemma_digits_agree(a, b, 14);
    lemma_digits_agree(a, b, 15);
    lemma_digits_agree(a, b, 16);
    lemma_digits_agree(a, b, 17);
    lemma_digits_agree(a, b, 18);
    lemma_digits_agree(a, b, 19);
    lemma_digits_agree(a, b, 20);
    lemma_digits_agree(a, b, 21);
    lemma_digits_agree(a, b, 22);
    lemma_digits_agree(a, b, 23);
    lemma_digits_agree(a, b, 24);
    lemma_digits_agree(a, b, 25);
    lemma_digits_agree(a, b, 26);
    lemma_digits_agree(a, b, 27);
    lemma_digits_agree(a, b, 28);
    lemma_digits_agree(a, b, 29);
    lemma_digits_agree(a, b, 30);
    lemma_digits_agree(a, b, 31);
    assert(a == b) by (bit_vector)
        requires
            (a >> 0u128) & 0xf == (b >> 0u128) & 0xf,
            (a >> 4u128) & 0xf == (b >> 4u128) & 0xf,
            (a >> 8u128) & 0xf == (b >> 8u128) & 0xf,
            (a >> 12u128) & 0xf == (b >> 12u128) & 0xf,
            (a >> 16u128) & 0xf == (b >> 16u128) & 0xf,
            (a >> 20u128) & 0xf == (b >> 20u128) & 0xf,
            (a >> 24u128) & 0xf == (b >> 24u128) & 0xf,
            (a >> 28u128) & 0xf == (b >> 28u128) & 0xf,
            (a >> 32u128) & 0xf == (b >> 32u128) & 0xf,
            (a >> 36u128) & 0xf == (b >> 36u128) & 0xf,
            (a >> 40u128) & 0xf == (b >> 40u128) & 0xf,
            (a >> 44u128) & 0xf == (b >> 44u128) & 0xf,
            (a >> 48u128) & 0xf == (b >> 48u128) & 0xf,
            (a >> 52u128) & 0xf == (b >> 52u128) & 0xf,
            (a >> 56u128) & 0xf == (b >> 56u128) & 0xf,
            (a >> 60u128) & 0xf == (b >> 60u128) & 0xf,
            (a >> 64u128) & 0xf == (b >> 64u128) & 0xf,
            (a >> 68u128) & 0xf == (b >> 68u128) & 0xf,
            (a >> 72u128) & 0xf == (b >> 72u128) & 0xf,
            (a >> 76u128) & 0xf == (b >> 76u128) & 0xf,
            (a >> 80u128) & 0xf == (b >> 80u128) & 0xf,
            (a >> 84u128) & 0xf == (b >> 84u128) & 0xf,
            (a >> 88u128) & 0xf == (b >> 88u128) & 0xf,
            (a >> 92u128) & 0xf == (b >> 92u128) & 0xf,
            (a >> 96u128) & 0xf == (b >> 96u128) & 0xf,
            (a >> 100u128) & 0xf == (b >> 100u128) & 0xf,
            (a >> 104u128) & 0xf == (b >> 104u128) & 0xf,
            (a >> 108u128) & 0xf == (b >> 108u128) & 0xf,
            (a >> 112u128) & 0xf == (b >> 112u128) & 0xf,
            (a >> 116u128) & 0xf == (b >> 116u128) & 0xf,
            (a >> 120u128) & 0xf == (b >> 120u128) & 0xf,
            (a >> 124u128) & 0xf == (b >> 124u128) & 0xf,
    ;
}

/// Calls `uuid::Uuid::parse_str` and hands back the parsed value as a plain
/// integer. The result is `uuid_parse` of the text: the value on success,
/// `None` where the crate reports an error.
#[verifier::external_body]
fn parse_uuid(text: &str) -> (parsed: Option<u128>)
    ensures
        parsed == uuid_parse(text@),
{
    match uuid::Uuid::parse_str(text) {
        Ok(id) => Some(id.as_u128()),
        Err(_) => None,
    }
}

/// Prints the identifier through `uuid::Uuid`'s `Display`, which writes the
/// hyphenated lower-case notation. The contract states that text, and claims
/// that the crate's parser reads it back to the same value.
#[verifier::external_body]
fn format_uuid(value: u128) -> (text: String)
    ensures
        text@ == uuid_text(value),
        uuid_parse(text@) == Some(value),
{
    uuid::Uuid::from_u128(value).to_string()
}

/// Opaque unique identifier of a record: a UUID held as its 128-bit value.
#[derive(Clone, Copy, Debug, PartialEq, Eq, Structural, Hash)]
pub struct MemeId {
    pub value: u128,
}

impl MemeId {
    /// The identifier that a piece of text denotes, if any.
    pub open spec fn parsed(text: Seq<char>) -> Option<MemeId> {
        match uuid_parse(text) {
            Some(value) => Some(MemeId { value }),
            None => None,
        }
    }

    /// The canonical text of the identifier.
    pub open spec fn text(self) -> Seq<char> {
        uuid_text(self.value)
    }

    /// Tells whether the canonical text of the identifier reads back as the
    /// identifier. `to_string` shows that it does, for every identifier it
    /// prints.
    pub open spec fn reads_back(self) -> bool {
        MemeId::parsed(self.text()) == Some(self)
    }

    /// Wraps a 128-bit value.
    pub fn from_u128(value: u128) -> (id: MemeId)
        ensures
            id.value == value,
    {
        MemeId { value }
    }

    /// Reads an identifier from text; `None` when the text is no UUID.
    pub fn parse_str(input: &str) -> (id: Option<MemeId>)
        ensures
            id == MemeId::parsed(input@),
    {
        match parse_uuid(input) {
            Some(value) => Some(MemeId { value }),
            None => None,
        }
    }

    /// Prints the identifier in its canonical notation, which `parse_str`
    /// reads back to the same identifier.
    pub fn to_string(&self) -> (text: String)
        ensures
            text@ == self.text(),
            self.reads_back(),
    {
        format_uuid(self.value)
    }
}

/// Different identifiers have different texts.
pub proof fn lemma_texts_differ(a: MemeId, b: MemeId)
    requires
        a != b,
    ensures
        a.text() != b.text(),
{
    if a.text() == b.text() {
        lemma_text_tells_identifiers_apart(a.value, b.value);
    }
}

/// Metadata of one uploaded item.
#[derive(Clone, Debug, PartialEq, Eq)]
pub struct Meme {
    /// Sole lookup key, fixed for the record's lifetime.
    pub meme_id: MemeId,
    pub title: String,
    pub description: String,
    /// Key of the corresponding object in the blob store.
    pub image_key: String,
}

/// Mathematical model of a `Meme`.
pub struct MemeView {
    pub meme_id: MemeId,
    pub title: Seq<char>,
    pub description: Seq<char>,
    pub image_key: Seq<char>,
}

impl View for Meme {
    type V = MemeView;

    open spec fn view(&self) -> MemeView {
        MemeView {
            meme_id: self.meme_id,
            title: self.title@,
            description: self.description@,
            image_key: self.image_key@,
        }
    }
}

impl DeepView for Meme {
    type V = MemeView;

    open spec fn deep_view(&self) -> MemeView {
        self@
    }
}

impl Meme {
    /// Copies the record, field by field.
    pub fn duplicate(&self) -> (copy: Meme)
        ensures
            copy@ == self@,
    {
        Meme {
            meme_id: self.meme_id,
            title: self.title.clone(),
            description: self.description.clone(),
            image_key: self.image_key.clone(),
        }
    }
}

} // verus!
