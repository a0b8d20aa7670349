use vstd::prelude::*;
use vstd::utf8::{decode_utf8, valid_utf8};
use cosmwasm_std::QueryRequest;

verus! {

/// The host's side of a call: its storage, its address checks and its query
/// channel, as `cosmwasm_std::Deps` holds them. The library puts queries and
/// addresses before it and reads nothing of it.
#[verifier::external_body]
pub struct Deps<'a> {
    pub host: cosmwasm_std::Deps<'a>,
}

/// A point in time, in nanoseconds since the epoch.
#[derive(Clone, Copy, Debug, PartialEq, Eq, Structural)]
pub struct Timestamp {
    pub nanos: u64,
}

impl Timestamp {
    pub open spec fn spec_seconds(&self) -> u64 {
        (self.nanos / 1_000_000_000) as u64
    }

    /// The whole seconds since the epoch.
    #[verifier::when_used_as_spec(spec_seconds)]
    pub fn seconds(&self) -> (r: u64)
        ensures
            r == self.spec_seconds(),
    {
        self.nanos / 1_000_000_000
    }
}

/// The block in which a call runs.
#[derive(Debug, PartialEq, Eq)]
pub struct BlockInfo {
    pub height: u64,
    pub time: Timestamp,
    pub chain_id: String,
}

/// What a call knows of its surroundings.
#[derive(Debug, PartialEq, Eq)]
pub struct Env {
    pub block: BlockInfo,
}

/// The answer of the query channel to one request.
#[derive(Debug, PartialEq, Eq)]
pub enum QueryReply {
    /// The host could not route or run the query; its report.
    SystemFault(String),
    /// The queried contract answered with an error; its report.
    ContractFault(String),
    /// The answer.
    Payload(Vec<u8>),
}

/// The text by which `cosmwasm_std::Binary::to_base64` renders `bytes`.
pub uninterp spec fn base64_text(bytes: Seq<u8>) -> Seq<char>;

/// The bytes that `base64::decode` reads out of `text`, or `None` where it
/// reports an error.
pub uninterp spec fn base64_bytes(text: Seq<char>) -> Option<Seq<u8>>;

/// The bytes into which `cosmwasm_std::to_vec` serializes `query`, or `None`
/// where it reports an error.
pub uninterp spec fn serialized_query(query: QueryRequest<String>) -> Option<Seq<u8>>;

/// Calls `cosmwasm_std::to_vec` on a query descriptor: its serialized form,
/// which is `serialized_query` of the descriptor, or the serializer's report.
#[verifier::external_body]
pub(crate) fn serialize_query(query: &QueryRequest<String>) -> (r: Result<Vec<u8>, String>)
    ensures
        r is Err <==> serialized_query(*query) is None,
        r matches Ok(bytes) ==> serialized_query(*query) == Some(bytes@),
{
    match cosmwasm_std::to_vec(query) {
        Ok(bytes) => Ok(bytes),
        Err(fault) => Err(fault.to_string()),
    }
}

/// Calls `raw_query` on the querier of `cosmwasm_std::Deps` and sorts the
/// outcome into the three kinds of `QueryReply`. What comes back depends on
/// the state of the chain; nothing is claimed of it.
#[verifier::external_body]
pub(crate) fn raw_query(deps: &Deps<'_>, request: &Vec<u8>) -> (r: QueryReply)
{
    match deps.host.querier.raw_query(request.as_slice()) {
        cosmwasm_std::SystemResult::Err(fault) => QueryReply::SystemFault(fault.to_string()),
        cosmwasm_std::SystemResult::Ok(cosmwasm_std::ContractResult::Err(fault)) => {
            QueryReply::ContractFault(fault)
        },
        cosmwasm_std::SystemResult::Ok(cosmwasm_std::ContractResult::Ok(payload)) => {
            QueryReply::Payload(payload.0)
        },
    }
}

/// Calls `addr_validate` on the `api` of `cosmwasm_std::Deps`.
/// Which texts it accepts is for the host to say; an accepted address holds
/// the same text as the input.
#[verifier::external_body]
pub(crate) fn addr_validate(deps: &Deps<'_>, human: &str) -> (r: Option<String>)
    ensures
        r matches Some(address) ==> address@ == human@,
{
    match deps.host.api.addr_validate(human) {
        Ok(address) => Some(address.into_string()),
        Err(_) => None,
    }
}

/// Calls `cosmwasm_std::Binary::to_base64`; the result is `base64_text` of
/// the bytes.
#[verifier::external_body]
pub(crate) fn binary_to_base64(bytes: &Vec<u8>) -> (r: String)
    ensures
        r@ == base64_text(bytes@),
{
    cosmwasm_std::Binary::from(bytes.as_slice()).to_base64()
}

/// Calls `base64::decode`; the result is `base64_bytes` of the text.
#[verifier::external_body]
pub(crate) fn base64_decode(text: &str) -> (r: Option<Vec<u8>>)
    ensures
        r is None <==> base64_bytes(text@) is None,
        r matches Some(bytes) ==> base64_bytes(text@) == Some(bytes@),
{
    base64::decode(text).ok()
}

/// Calls `from_vec` of `cw_storage_plus::KeyDeserialize` for `String`, which
/// is `String::from_utf8`: the text that the bytes encode, or nothing where
/// they are not UTF-8.
#[verifier::external_body]
pub(crate) fn string_from_vec(bytes: Vec<u8>) -> (r: Option<String>)
    ensures
        r is Some <==> valid_utf8(bytes@),
        r matches Some(text) ==> text@ == decode_utf8(bytes@),
{
    <String as cw_storage_plus::KeyDeserialize>::from_vec(bytes).ok()
}

} // verus!
