use vstd::prelude::*;
use vstd::string::StringSliceAdditionalSpecFns;
use vstd::utf8::encode_utf8;
use crate::condition::PathStep;
use crate::error::ContractError;
use json_codec_wasm::Json;

verus! {

/// Declares `json_codec_wasm::Json`, a decoded document as the decoder hands
/// it out. It is turned into a `Document` at once.
#[verifier::external_type_specification]
#[verifier::external_body]
pub struct ExJson(Json);

/// A named part of an object.
#[derive(Debug, PartialEq, Eq)]
pub struct Member {
    pub key: String,
    pub value: Document,
}

/// A structured document: the answer to an external query, decoded.
#[derive(Debug, PartialEq, Eq)]
pub enum Document {
    Null,
    Bool(bool),
    Int(i128),
    Uint(u128),
    Text(String),
    Array(Vec<Document>),
    Object(Vec<Member>),
}

/// A document as a mathematical value: the members of an object form a map,
/// in which their order plays no part.
pub enum DocValue {
    Null,
    Bool(bool),
    Int(i128),
    Uint(u128),
    Text(Seq<char>),
    Array(Seq<DocValue>),
    Object(Map<Seq<char>, DocValue>),
}

impl DocValue {
    /// The member named `key` of an object; nothing for any other value.
    pub open spec fn member(self, key: Seq<char>) -> Option<DocValue> {
        match self {
            DocValue::Object(members) => if members.contains_key(key) {
                Some(members[key])
            } else {
                None
            },
            _ => None,
        }
    }

    /// The item at `index` of an array; nothing for any other value.
    pub open spec fn item(self, index: int) -> Option<DocValue> {
        match self {
            DocValue::Array(items) => if 0 <= index < items.len() {
                Some(items[index])
            } else {
                None
            },
            _ => None,
        }
    }

    /// The part that one step leads to.
    pub open spec fn step_into(self, step: PathStep) -> Option<DocValue> {
        match step {
            PathStep::Key(key) => self.member(key@),
            PathStep::Index(index) => self.item(index as int),
        }
    }

    /// The part that the steps of `path` lead to, taken from the left; nothing
    /// as soon as a step leads nowhere.
    pub open spec fn at_path(self, path: Seq<PathStep>) -> Option<DocValue>
        decreases path.len(),
    {
        if path.len() == 0 {
            Some(self)
        } else {
            match self.step_into(path[0]) {
                Some(part) => part.at_path(path.drop_first()),
                None => None,
            }
        }
    }

    pub open spec fn bool_value(self) -> Option<bool> {
        match self {
            DocValue::Bool(b) => Some(b),
            _ => None,
        }
    }

    pub open spec fn text_value(self) -> Option<Seq<char>> {
        match self {
            DocValue::Text(t) => Some(t),
            _ => None,
        }
    }

    pub open spec fn int_value(self) -> Option<i128> {
        match self {
            DocValue::Int(n) => Some(n),
            _ => None,
        }
    }
}

/// The first place from `from` on at which `members` holds a member named
/// `key`, if there is one.
pub open spec fn first_named(members: Seq<Member>, key: Seq<char>, from: int) -> Option<int>
    decreases members.len() - from,
{
    if from < 0 || from >= members.len() {
        None
    } else if members[from].key@ == key {
        Some(from)
    } else {
        first_named(members, key, from + 1)
    }
}

impl Document {
    /// What the document says. Of two members of an object with one name,
    /// the first counts.
    pub open spec fn value(self) -> DocValue
        decreases self,
    {
        match self {
            Document::Null => DocValue::Null,
            Document::Bool(b) => DocValue::Bool(b),
            Document::Int(n) => DocValue::Int(n),
            Document::Uint(n) => DocValue::Uint(n),
            Document::Text(t) => DocValue::Text(t@),
            Document::Array(items) => DocValue::Array(
                Seq::new(
                    items@.len(),
                    |i: int|
                        if 0 <= i < items@.len() {
                            items@[i].value()
                        } else {
                            DocValue::Null
                        },
                ),
            ),
            Document::Object(members) => DocValue::Object(
                Map::new(
                    |key: Seq<char>| first_named(members@, key, 0) is Some,
                    |key: Seq<char>|
                        match first_named(members@, key, 0) {
                            Some(place) => if 0 <= place < members@.len() {
                                members@[place].value.value()
                            } else {
                                DocValue::Null
                            },
                            None => DocValue::Null,
                        },
                ),
            ),
        }
    }

    /// The member named `key`, where this is an object that has one.
    pub fn get(&self, key: &String) -> (r: Option<&Document>)
        ensures
            r is Some == self.value().member(key@) is Some,
            r matches Some(part) ==> self.value().member(key@) == Some(part.value()),
    {
        match self {
            Document::Object(members) => {
                let mut i: usize = 0;
                while i < members.len()
                    invariant
                        i <= members.len(),
                        *self == Document::Object(*members),
                        first_named(members@, key@, 0) == first_named(members@, key@, i as int),
                    decreases members.len() - i,
                {
                    if members[i].key == *key {
                        return Some(&members[i].value);
                    }
                    i = i + 1;
                }
                None
            },
            _ => None,
        }
    }

    /// The item at `index`, where this is an array that has one.
    pub fn at(&self, index: u64) -> (r: Option<&Document>)
        ensures
            r is Some == self.value().item(index as int) is Some,
            r matches Some(part) ==> self.value().item(index as int) == Some(part.value()),
    {
        match self {
            Document::Array(items) => {
                if index < items.len() as u64 {
                    Some(&items[index as usize])
                } else {
                    None
                }
            },
            _ => None,
        }
    }

    /// The truth value that this document is, if it is one.
    pub fn bool(&self) -> (r: Option<bool>)
        ensures
            r == self.value().bool_value(),
    {
        match self {
            Document::Bool(b) => Some(*b),
            _ => None,
        }
    }

    /// The text that this document is, if it is one.
    pub fn string(&self) -> (r: Option<&String>)
        ensures
            r is Some == self.value().text_value() is Some,
            r matches Some(t) ==> self.value().text_value() == Some(t@),
    {
        match self {
            Document::Text(t) => Some(t),
            _ => None,
        }
    }

    /// The signed number that this document is, if it is one.
    pub fn i128(&self) -> (r: Option<i128>)
        ensures
            r == self.value().int_value(),
    {
        match self {
            Document::Int(n) => Some(*n),
            _ => None,
        }
    }
}

/// Two to the power 127: the one magnitude that a signed 128-bit number can
/// hold only with a minus sign.
pub open spec fn edge_magnitude() -> u128 {
    0x8000_0000_0000_0000_0000_0000_0000_0000u128
}

/// Where a scan of a text for number literals stands.
#[derive(Clone, Copy, Debug, PartialEq, Eq, Structural)]
pub struct LiteralScan {
    /// Inside a quoted string.
    pub quoted: bool,
    /// Inside a quoted string, right after a backslash.
    pub escaped: bool,
    /// Inside a run of digits outside any string.
    pub digits: bool,
    /// The current run of digits has a minus sign before it.
    pub negated: bool,
    /// The last byte was a minus sign outside any string.
    pub minus: bool,
    /// The current run's magnitude, or one more than `edge_magnitude` for
    /// any larger one.
    pub magnitude: u128,
    /// A run that has ended was unsigned and of magnitude `edge_magnitude`.
    pub found: bool,
}

pub open spec fn scan_start() -> LiteralScan {
    LiteralScan {
        quoted: false,
        escaped: false,
        digits: false,
        negated: false,
        minus: false,
        magnitude: 0,
        found: false,
    }
}

/// The magnitude of a run after one more digit.
pub open spec fn grown(magnitude: u128, digit: u8) -> u128 {
    if magnitude > edge_magnitude() || magnitude * 10 + digit > edge_magnitude() {
        (edge_magnitude() + 1) as u128
    } else {
        (magnitude * 10 + digit) as u128
    }
}

/// The current run is unsigned and of magnitude `edge_magnitude`.
pub open spec fn at_edge(scan: LiteralScan) -> bool {
    scan.digits && !scan.negated && scan.magnitude == edge_magnitude()
}

/// The scan after one more byte. Quotes open and close strings, a backslash
/// inside a string shields the byte after it, and outside strings digits
/// form runs.
pub open spec fn scan_step(scan: LiteralScan, byte: u8) -> LiteralScan {
    if scan.quoted {
        LiteralScan {
            quoted: scan.escaped || byte != 34,
            escaped: !scan.escaped && byte == 92,
            digits: false,
            negated: false,
            minus: false,
            magnitude: 0,
            found: scan.found,
        }
    } else if 48 <= byte <= 57 {
        LiteralScan {
            quoted: false,
            escaped: false,
            digits: true,
            negated: if scan.digits {
                scan.negated
            } else {
                scan.minus
            },
            minus: false,
            magnitude: if scan.digits {
                grown(scan.magnitude, (byte - 48) as u8)
            } else {
                (byte - 48) as u128
            },
            found: scan.found,
        }
    } else {
        LiteralScan {
            quoted: byte == 34,
            escaped: false,
            digits: false,
            negated: false,
            minus: byte == 45,
            magnitude: 0,
            found: scan.found || at_edge(scan),
        }
    }
}

/// The scan after all of `bytes`.
pub open spec fn scan_of(bytes: Seq<u8>) -> LiteralScan
    decreases bytes.len(),
{
    if bytes.len() == 0 {
        scan_start()
    } else {
        scan_step(scan_of(bytes.drop_last()), bytes.last())
    }
}

/// Outside its quoted strings the text holds a run of digits, without a minus
/// sign before it, that spells two to the power 127. The decoder cannot take
/// such a number in: it would have to negate the least signed number.
pub open spec fn holds_edge_literal(bytes: Seq<u8>) -> bool {
    scan_of(bytes).found || at_edge(scan_of(bytes))
}

fn step_scan(scan: LiteralScan, byte: u8) -> (r: LiteralScan)
    ensures
        r == scan_step(scan, byte),
{
    if scan.quoted {
        LiteralScan {
            quoted: scan.escaped || byte != 34,
            escaped: !scan.escaped && byte == 92,
            digits: false,
            negated: false,
            minus: false,
            magnitude: 0,
            found: scan.found,
        }
    } else if 48 <= byte && byte <= 57 {
        let digit: u8 = byte - 48;
        let limit: u128 = 0x8000_0000_0000_0000_0000_0000_0000_0000u128;
        let magnitude: u128 = if !scan.digits {
            digit as u128
        } else if scan.magnitude > (limit - digit as u128) / 10 {
            limit + 1
        } else {
            scan.magnitude * 10 + digit as u128
        };
        LiteralScan {
            quoted: false,
            escaped: false,
            digits: true,
            negated: if scan.digits {
                scan.negated
            } else {
                scan.minus
            },
            minus: false,
            magnitude,
            found: scan.found,
        }
    } else {
        let limit: u128 = 0x8000_0000_0000_0000_0000_0000_0000_0000u128;
        LiteralScan {
            quoted: byte == 34,
            escaped: false,
            digits: false,
            negated: false,
            minus: byte == 45,
            magnitude: 0,
            found: scan.found || (scan.digits && !scan.negated && scan.magnitude == limit),
        }
    }
}

/// Whether the decoder cannot take `text` in because of a number in it.
pub fn has_edge_literal(text: &str) -> (r: bool)
    ensures
        r == holds_edge_literal(text.spec_bytes()),
{
    let bytes = text.as_bytes();
    let mut scan = LiteralScan {
        quoted: false,
        escaped: false,
        digits: false,
        negated: false,
        minus: false,
        magnitude: 0,
        found: false,
    };
    let mut i: usize = 0;
    while i < bytes.len()
        invariant
            i <= bytes.len(),
            scan == scan_of(bytes@.take(i as int)),
        decreases bytes.len() - i,
    {
        proof {
            assert(bytes@.take(i + 1).drop_last() =~= bytes@.take(i as int));
        }
        scan = step_scan(scan, bytes[i]);
        i = i + 1;
    }
    proof {
        assert(bytes@.take(i as int) =~= bytes@);
    }
    scan.found || (scan.digits && !scan.negated && scan.magnitude
        == 0x8000_0000_0000_0000_0000_0000_0000_0000u128)
}

/// What `json_codec_wasm::Decoder::decode` makes of the characters of `text`:
/// the value of the document that the text begins with, or `None` where the
/// decoder reports an error.
pub uninterp spec fn decoded_value(text: Seq<char>) -> Option<DocValue>;

/// What decoding `text` comes to. A text that holds an edge literal is turned
/// down like one that the decoder turns down.
pub open spec fn decoding(text: Seq<char>) -> Result<DocValue, ContractError> {
    if holds_edge_literal(encode_utf8(text)) {
        Err(ContractError::DecodeError)
    } else {
        match decoded_value(text) {
            Some(value) => Ok(value),
            None => Err(ContractError::DecodeError),
        }
    }
}

/// Copies a `json_codec_wasm::Json` into a `Document`, variant by variant.
/// The members of an object come in the order in which its hash map hands
/// them out; no name comes twice.
#[verifier::external_body]
fn document_of(json: &Json) -> (r: Document)
{
    match json {
        Json::Null => Document::Null,
        Json::Bool(b) => Document::Bool(*b),
        Json::I128(n) => Document::Int(*n),
        Json::U128(n) => Document::Uint(*n),
        Json::String(t) => Document::Text(t.clone()),
        Json::Array(items) => Document::Array(items.iter().map(document_of).collect()),
        Json::Object(members) => Document::Object(
            members.iter().map(|(k, v)| Member { key: k.clone(), value: document_of(v) }).collect(),
        ),
    }
}

/// Calls `json_codec_wasm::Decoder::decode` on the characters of `text` and
/// copies what it hands back: a document whose value is `decoded_value` of
/// the text. The decoder reads a number without a minus sign by counting
/// down from zero and negating at the end; at the magnitude two to the power
/// 127 that negation leaves the range, so a text with such a number is kept
/// from it.
#[verifier::external_body]
fn decode_document(text: &str) -> (r: Option<Document>)
    requires
        !holds_edge_literal(text.spec_bytes()),
    ensures
        r is None <==> decoded_value(text@) is None,
        r matches Some(document) ==> decoded_value(text@) == Some(document.value()),
{
    match json_codec_wasm::Decoder::default(text.chars()).decode() {
        Ok(json) => Some(document_of(&json)),
        Err(_) => None,
    }
}

/// Decodes the document that `text` begins with.
pub fn decode(text: &str) -> (r: Result<Document, ContractError>)
    ensures
        match decoding(text@) {
            Ok(value) => r is Ok && r->Ok_0.value() == value,
            Err(e) => r is Err && r->Err_0 == e,
        },
{
    if has_edge_literal(text) {
        return Err(ContractError::DecodeError);
    }
    match decode_document(text) {
        Some(document) => Ok(document),
        None => Err(ContractError::DecodeError),
    }
}

/// Walks from `document` along `selector`.
pub fn resolve_path<'a>(document: &'a Document, selector: &Vec<PathStep>) -> (r: Option<
    &'a Document,
>)
    ensures
        r is Some == document.value().at_path(selector@) is Some,
        r matches Some(part) ==> document.value().at_path(selector@) == Some(part.value()),
{
    let mut here: &Document = document;
    let mut i: usize = 0;
    assert(selector@.skip(0) =~= selector@);
    while i < selector.len()
        invariant
            i <= selector.len(),
            document.value().at_path(selector@) == here.value().at_path(
                selector@.skip(i as int),
            ),
        decreases selector.len() - i,
    {
        proof {
            assert(selector@.skip(i as int).drop_first() =~= selector@.skip(i + 1));
            assert(selector@.skip(i as int)[0] == selector@[i as int]);
        }
        let next = match &selector[i] {
            PathStep::Key(key) => here.get(key),
            PathStep::Index(index) => here.at(*index),
        };
        match next {
            Some(part) => {
                here = part;
            },
            None => {
                return None;
            },
        }
        i = i + 1;
    }
    Some(here)
}

} // verus!
