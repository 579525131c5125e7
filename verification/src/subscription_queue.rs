//! The subscription queue extension: a vault numbers its subscription
//! requests and processes them in that order.
use vstd::prelude::*;

use crate::le_bytes::{le_u64, le_u64_bytes, lemma_le_u64_roundtrip, read_le_u64};
use crate::tlv::{
    entries_without, find_tlv_entry, get_extension_bytes, lemma_lookup_skips_entries,
    lemma_lookup_written_entry, tlv_entries, tlv_entry, tlv_lookup, ExtensionType,
    VAULT_TLV_START,
};

verus! {

/// Where the extension entries of a request account start: after the
/// 8-byte discriminator and the 171 bytes of fixed request fields.
pub const REQUEST_TLV_START: usize = 179;

/// The entry type of the subscription queue record of a request.
pub const SUBSCRIPTION_QUEUE_REQUEST_TYPE: u16 = 1;

/// State of the SubscriptionQueue vault extension.
#[derive(Clone, Copy, Debug, PartialEq, Eq, Structural)]
pub struct SubscriptionQueue {
    pub all_time_total_subscription_requests: u64,
    pub last_processed_subscription_request_index: u64,
}

/// The bytes a subscription queue state is stored as: its two counters,
/// each as eight little-endian bytes.
pub open spec fn encode_state(s: SubscriptionQueue) -> Seq<u8> {
    le_u64_bytes(s.all_time_total_subscription_requests) + le_u64_bytes(
        s.last_processed_subscription_request_index,
    )
}

/// The state that 16 bytes of extension value decode to; any other length
/// decodes to nothing.
pub open spec fn decode_state(bytes: Seq<u8>) -> Option<SubscriptionQueue> {
    if bytes.len() == 16 {
        Some(
            SubscriptionQueue {
                all_time_total_subscription_requests: le_u64(bytes.subrange(0, 8)) as u64,
                last_processed_subscription_request_index: le_u64(bytes.subrange(8, 16)) as u64,
            },
        )
    } else {
        None
    }
}

/// The subscription queue state held in raw vault account data.
pub open spec fn subscription_queue_state(vault_data: Seq<u8>) -> Option<SubscriptionQueue> {
    if vault_data.len() <= VAULT_TLV_START {
        None
    } else {
        match tlv_lookup(
            vault_data.subrange(VAULT_TLV_START as int, vault_data.len() as int),
            ExtensionType::SubscriptionQueue.type_code(),
        ) {
            Some(bytes) => decode_state(bytes),
            None => None,
        }
    }
}

/// The subscription id recorded in raw request account data.
pub open spec fn request_subscription_id(request_data: Seq<u8>) -> Option<u64> {
    if request_data.len() <= REQUEST_TLV_START {
        None
    } else {
        match tlv_lookup(
            request_data.subrange(REQUEST_TLV_START as int, request_data.len() as int),
            SUBSCRIPTION_QUEUE_REQUEST_TYPE,
        ) {
            Some(bytes) => if bytes.len() < 8 {
                None
            } else {
                Some(le_u64(bytes.subrange(0, 8)) as u64)
            },
            None => None,
        }
    }
}

#[verifier::external_type_specification]
#[verifier::external_body]
pub struct ExIoError(std::io::Error);

/// borsh's `BorshDeserialize::try_from_slice` for the pair `(u64, u64)`.
/// borsh reads each `u64` as eight little-endian bytes, in order, and
/// `try_from_slice` fails when bytes are missing or left over; so the call
/// succeeds exactly on 16 bytes and yields the two little-endian halves.
#[verifier::external_body]
fn borsh_u64_pair(bytes: &[u8]) -> (res: Result<(u64, u64), std::io::Error>)
    ensures
        res is Ok <==> bytes@.len() == 16,
        (res matches Ok(p) ==> p.0 == le_u64(bytes@.subrange(0, 8)) && p.1 == le_u64(
            bytes@.subrange(8, 16),
        )),
{
    <(u64, u64) as borsh::BorshDeserialize>::try_from_slice(bytes)
}

/// Returns the [`SubscriptionQueue`] extension state from raw vault account
/// data, or `None` if the extension is not present or its value is not
/// exactly two counters.
pub fn get_state(vault_data: &[u8]) -> (res: Option<SubscriptionQueue>)
    ensures
        res == subscription_queue_state(vault_data@),
{
    if vault_data.len() <= VAULT_TLV_START {
        return None;
    }
    let bytes = match get_extension_bytes(
        &vault_data[VAULT_TLV_START..vault_data.len()],
        ExtensionType::SubscriptionQueue,
    ) {
        Some(b) => b,
        None => return None,
    };
    match borsh_u64_pair(bytes) {
        Ok(pair) => Some(
            SubscriptionQueue {
                all_time_total_subscription_requests: pair.0,
                last_processed_subscription_request_index: pair.1,
            },
        ),
        Err(_) => None,
    }
}

/// The subscription id recorded in raw request account data, or `None`
/// when the request carries no subscription queue record of at least
/// eight bytes.
pub fn get_request_subscription_id(request_data: &[u8]) -> (res: Option<u64>)
    ensures
        res == request_subscription_id(request_data@),
{
    if request_data.len() <= REQUEST_TLV_START {
        return None;
    }
    let tlv = &request_data[REQUEST_TLV_START..request_data.len()];
    match find_tlv_entry(tlv, SUBSCRIPTION_QUEUE_REQUEST_TYPE) {
        Some(data) => {
            if data.len() < 8 {
                return None;
            }
            Some(read_le_u64(data))
        },
        None => None,
    }
}

/// A stored state decodes to itself.
pub proof fn lemma_decode_encoded_state(s: SubscriptionQueue)
    ensures
        decode_state(encode_state(s)) == Some(s),
{
    let e = encode_state(s);
    lemma_le_u64_roundtrip(s.all_time_total_subscription_requests);
    lemma_le_u64_roundtrip(s.last_processed_subscription_request_index);
    assert(e.subrange(0, 8) =~= le_u64_bytes(s.all_time_total_subscription_requests));
    assert(e.subrange(8, 16) =~= le_u64_bytes(s.last_processed_subscription_request_index));
}

/// Reading back a written state: vault data made of its fixed fields, any
/// entries of other extensions, the subscription queue entry holding `s`
/// and anything after it hold the state `s`.
pub proof fn lemma_state_read_back(
    fixed: Seq<u8>,
    others: Seq<(u16, Seq<u8>)>,
    s: SubscriptionQueue,
    rest: Seq<u8>,
)
    requires
        fixed.len() == VAULT_TLV_START,
        entries_without(others, ExtensionType::SubscriptionQueue.type_code()),
    ensures
        subscription_queue_state(
            fixed + tlv_entries(others) + tlv_entry(
                ExtensionType::SubscriptionQueue.type_code(),
                encode_state(s),
            ) + rest,
        ) == Some(s),
{
    let code = ExtensionType::SubscriptionQueue.type_code();
    let entry = tlv_entry(code, encode_state(s));
    let data = fixed + tlv_entries(others) + entry + rest;
    lemma_le_u64_roundtrip(s.all_time_total_subscription_requests);
    lemma_le_u64_roundtrip(s.last_processed_subscription_request_index);
    assert(data.subrange(VAULT_TLV_START as int, data.len() as int) =~= tlv_entries(others) + (
    entry + rest));
    lemma_lookup_skips_entries(others, entry + rest, code);
    lemma_lookup_written_entry(code, encode_state(s), rest);
    lemma_decode_encoded_state(s);
}

/// The state is read from the extension entries alone: the fixed fields of
/// the vault, the first `VAULT_TLV_START` bytes, never change it.
pub proof fn lemma_state_ignores_fixed_fields(fixed1: Seq<u8>, fixed2: Seq<u8>, entries: Seq<u8>)
    requires
        fixed1.len() == VAULT_TLV_START,
        fixed2.len() == VAULT_TLV_START,
    ensures
        subscription_queue_state(fixed1 + entries) == subscription_queue_state(fixed2 + entries),
{
    let d1 = fixed1 + entries;
    let d2 = fixed2 + entries;
    assert(d1.subrange(VAULT_TLV_START as int, d1.len() as int) =~= entries);
    assert(d2.subrange(VAULT_TLV_START as int, d2.len() as int) =~= entries);
}

/// A subscription queue entry whose value is not exactly two counters (16
/// bytes) holds no state, and a request record shorter than eight bytes
/// holds no subscription id.
pub proof fn lemma_malformed_records_rejected(
    fixed: Seq<u8>,
    value: Seq<u8>,
    rest: Seq<u8>,
    request_fixed: Seq<u8>,
    short: Seq<u8>,
)
    requires
        fixed.len() == VAULT_TLV_START,
        value.len() != 16,
        value.len() <= u16::MAX,
        request_fixed.len() == REQUEST_TLV_START,
        short.len() < 8,
    ensures
        subscription_queue_state(
            fixed + tlv_entry(ExtensionType::SubscriptionQueue.type_code(), value) + rest,
        ) == None::<SubscriptionQueue>,
        request_subscription_id(
            request_fixed + tlv_entry(SUBSCRIPTION_QUEUE_REQUEST_TYPE, short) + rest,
        ) == None::<u64>,
{
    let code = ExtensionType::SubscriptionQueue.type_code();
    let d1 = fixed + tlv_entry(code, value) + rest;
    assert(d1.subrange(VAULT_TLV_START as int, d1.len() as int) =~= tlv_entry(code, value) + rest);
    lemma_lookup_written_entry(code, value, rest);
    let d2 = request_fixed + tlv_entry(SUBSCRIPTION_QUEUE_REQUEST_TYPE, short) + rest;
    assert(d2.subrange(REQUEST_TLV_START as int, d2.len() as int) =~= tlv_entry(
        SUBSCRIPTION_QUEUE_REQUEST_TYPE,
        short,
    ) + rest);
    lemma_lookup_written_entry(SUBSCRIPTION_QUEUE_REQUEST_TYPE, short, rest);
}

/// The stored counters come in order: the first eight bytes of the entry
/// are the all-time total of subscription requests, the next eight the
/// index of the last processed one.
pub proof fn lemma_state_counter_order(fixed: Seq<u8>, total: u64, last: u64, rest: Seq<u8>)
    requires
        fixed.len() == VAULT_TLV_START,
    ensures
        subscription_queue_state(
            fixed + tlv_entry(
                ExtensionType::SubscriptionQueue.type_code(),
                le_u64_bytes(total) + le_u64_bytes(last),
            ) + rest,
        ) == Some(
            SubscriptionQueue {
                all_time_total_subscription_requests: total,
                last_processed_subscription_request_index: last,
            },
        ),
{
    let s = SubscriptionQueue {
        all_time_total_subscription_requests: total,
        last_processed_subscription_request_index: last,
    };
    assert(encode_state(s) == le_u64_bytes(total) + le_u64_bytes(last));
    lemma_state_read_back(fixed, Seq::empty(), s, rest);
    assert(fixed + tlv_entries(Seq::<(u16, Seq<u8>)>::empty()) =~= fixed);
}

/// Vault data whose extension entries are all of other extensions holds no
/// subscription queue state.
pub proof fn lemma_state_absent(fixed: Seq<u8>, others: Seq<(u16, Seq<u8>)>)
    requires
        fixed.len() == VAULT_TLV_START,
        entries_without(others, ExtensionType::SubscriptionQueue.type_code()),
    ensures
        subscription_queue_state(fixed + tlv_entries(others)) == None::<SubscriptionQueue>,
{
    let code = ExtensionType::SubscriptionQueue.type_code();
    let data = fixed + tlv_entries(others);
    if data.len() > VAULT_TLV_START {
        assert(data.subrange(VAULT_TLV_START as int, data.len() as int) =~= tlv_entries(others)
            + Seq::<u8>::empty());
        lemma_lookup_skips_entries(others, Seq::<u8>::empty(), code);
    }
}

/// Reading back a written subscription id: request data made of its fixed
/// fields, entries of other types, then a subscription queue record whose
/// first eight bytes hold `id`, yields `id`.
pub proof fn lemma_request_id_read_back(
    fixed: Seq<u8>,
    others: Seq<(u16, Seq<u8>)>,
    id: u64,
    more: Seq<u8>,
    rest: Seq<u8>,
)
    requires
        fixed.len() == REQUEST_TLV_START,
        entries_without(others, SUBSCRIPTION_QUEUE_REQUEST_TYPE),
        8 + more.len() <= u16::MAX,
    ensures
        request_subscription_id(
            fixed + tlv_entries(others) + tlv_entry(
                SUBSCRIPTION_QUEUE_REQUEST_TYPE,
                le_u64_bytes(id) + more,
            ) + rest,
        ) == Some(id),
{
    let value = le_u64_bytes(id) + more;
    let entry = tlv_entry(SUBSCRIPTION_QUEUE_REQUEST_TYPE, value);
    let data = fixed + tlv_entries(others) + entry + rest;
    lemma_le_u64_roundtrip(id);
    assert(data.subrange(REQUEST_TLV_START as int, data.len() as int) =~= tlv_entries(others) + (
    entry + rest));
    lemma_lookup_skips_entries(others, entry + rest, SUBSCRIPTION_QUEUE_REQUEST_TYPE);
    lemma_lookup_written_entry(SUBSCRIPTION_QUEUE_REQUEST_TYPE, value, rest);
    assert(value.subrange(0, 8) =~= le_u64_bytes(id));
}

} // verus!
