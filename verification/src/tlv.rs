//! Type-length-value entries in raw account data.
//!
//! An entry is a little-endian `u16` type, a little-endian `u16` length and
//! that many value bytes. Entries follow one another with no padding.
use vstd::prelude::*;

use crate::le_bytes::{le_u16, le_u16_bytes, lemma_le_u16_roundtrip, read_le_u16};

verus! {

/// The size of an entry's header: its type and its length.
pub const TLV_HEADER_SIZE: usize = 4;

/// Where the extension entries of a vault account start.
pub const VAULT_TLV_START: usize = 272;

/// The extensions a vault account may carry.
#[derive(Clone, Copy, Debug, PartialEq, Eq, Structural)]
pub enum ExtensionType {
    DepositFee,
    WithdrawalFee,
    PausableSubscriptions,
    SubscriptionQueue,
}

impl ExtensionType {
    /// The type code under which the extension is stored. The codes of the
    /// first three kinds are the vault's own; `SubscriptionQueue` is given
    /// the next free code, 4, by this crate, as no code for it is fixed
    /// elsewhere.
    pub open spec fn type_code(self) -> u16 {
        match self {
            ExtensionType::DepositFee => 1,
            ExtensionType::WithdrawalFee => 2,
            ExtensionType::PausableSubscriptions => 3,
            ExtensionType::SubscriptionQueue => 4,
        }
    }

    /// The type code under which the extension is stored.
    pub fn code(self) -> (res: u16)
        ensures
            res == self.type_code(),
    {
        match self {
            ExtensionType::DepositFee => 1,
            ExtensionType::WithdrawalFee => 2,
            ExtensionType::PausableSubscriptions => 3,
            ExtensionType::SubscriptionQueue => 4,
        }
    }
}

/// The value of the first entry of type `target` in `data`, walking the
/// entries from the start; `None` when the walk reaches an entry whose value
/// runs past the end of `data`, or fewer bytes than a header remain, before
/// such an entry is found.
pub open spec fn tlv_lookup(data: Seq<u8>, target: u16) -> Option<Seq<u8>>
    decreases data.len(),
{
    if data.len() < TLV_HEADER_SIZE {
        None
    } else {
        let len = le_u16(data[2], data[3]);
        if TLV_HEADER_SIZE + len > data.len() {
            None
        } else if le_u16(data[0], data[1]) == target {
            Some(data.subrange(TLV_HEADER_SIZE as int, TLV_HEADER_SIZE + len))
        } else {
            tlv_lookup(data.subrange(TLV_HEADER_SIZE + len, data.len() as int), target)
        }
    }
}

/// The bytes an entry of type `ty` with value `value` is stored as.
pub open spec fn tlv_entry(ty: u16, value: Seq<u8>) -> Seq<u8> {
    le_u16_bytes(ty) + le_u16_bytes(value.len() as u16) + value
}

/// The bytes a list of entries is stored as, one after another.
pub open spec fn tlv_entries(entries: Seq<(u16, Seq<u8>)>) -> Seq<u8>
    decreases entries.len(),
{
    if entries.len() == 0 {
        Seq::empty()
    } else {
        tlv_entry(entries[0].0, entries[0].1) + tlv_entries(entries.drop_first())
    }
}

/// Whether every entry of the list fits a length header and none has type
/// `target`.
pub open spec fn entries_without(entries: Seq<(u16, Seq<u8>)>, target: u16) -> bool {
    forall|i: int|
        0 <= i < entries.len() ==> #[trigger] entries[i].0 != target && entries[i].1.len()
            <= u16::MAX
}

/// The bytes a borrowed slice holds, if there is one.
pub open spec fn opt_bytes(o: Option<&[u8]>) -> Option<Seq<u8>> {
    match o {
        Some(s) => Some(s@),
        None => None,
    }
}

/// The value of the first entry of type `target_type` in `tlv`, or `None`
/// when no such entry is reached (see [`tlv_lookup`]).
pub fn find_tlv_entry<'a>(tlv: &'a [u8], target_type: u16) -> (res: Option<&'a [u8]>)
    ensures
        opt_bytes(res) == tlv_lookup(tlv@, target_type),
{
    let mut offset: usize = 0;
    proof {
        assert(tlv@.subrange(0, tlv@.len() as int) =~= tlv@);
    }
    while tlv.len() - offset >= TLV_HEADER_SIZE
        invariant
            offset <= tlv@.len(),
            tlv_lookup(tlv@, target_type) == tlv_lookup(
                tlv@.subrange(offset as int, tlv@.len() as int),
                target_type,
            ),
        decreases tlv@.len() - offset,
    {
        let ghost rest = tlv@.subrange(offset as int, tlv@.len() as int);
        let entry_type = read_le_u16(tlv[offset], tlv[offset + 1]);
        let entry_len = read_le_u16(tlv[offset + 2], tlv[offset + 3]) as usize;
        proof {
            assert(rest[0] == tlv@[offset as int]);
            assert(rest[1] == tlv@[offset + 1]);
            assert(rest[2] == tlv@[offset + 2]);
            assert(rest[3] == tlv@[offset + 3]);
        }
        if entry_len > tlv.len() - offset - TLV_HEADER_SIZE {
            return None;
        }
        let value_end = offset + TLV_HEADER_SIZE + entry_len;
        if entry_type == target_type {
            proof {
                assert(rest.subrange(TLV_HEADER_SIZE as int, TLV_HEADER_SIZE + entry_len)
                    =~= tlv@.subrange(offset + TLV_HEADER_SIZE, value_end as int));
            }
            return Some(&tlv[offset + TLV_HEADER_SIZE..value_end]);
        }
        proof {
            assert(rest.subrange(TLV_HEADER_SIZE + entry_len, rest.len() as int) =~= tlv@.subrange(
                value_end as int,
                tlv@.len() as int,
            ));
        }
        offset = value_end;
    }
    None
}

/// The bytes of the extension `ext_type` among the vault's extension
/// entries `tlv_data`, or `None` when it is not reached.
pub fn get_extension_bytes(tlv_data: &[u8], ext_type: ExtensionType) -> (res: Option<&[u8]>)
    ensures
        opt_bytes(res) == tlv_lookup(tlv_data@, ext_type.type_code()),
{
    let code = ext_type.code();
    find_tlv_entry(tlv_data, code)
}

/// Reading back an entry: looking up the type of the first entry yields
/// exactly the value that entry was written with, whatever follows it.
pub proof fn lemma_lookup_written_entry(ty: u16, value: Seq<u8>, rest: Seq<u8>)
    requires
        value.len() <= u16::MAX,
    ensures
        tlv_lookup(tlv_entry(ty, value) + rest, ty) == Some(value),
{
    let data = tlv_entry(ty, value) + rest;
    lemma_le_u16_roundtrip(ty);
    lemma_le_u16_roundtrip(value.len() as u16);
    assert(data[0] == le_u16_bytes(ty)[0]);
    assert(data[1] == le_u16_bytes(ty)[1]);
    assert(data[2] == le_u16_bytes(value.len() as u16)[0]);
    assert(data[3] == le_u16_bytes(value.len() as u16)[1]);
    assert(data.subrange(4, 4 + value.len() as int) =~= value);
}

/// An entry of another type is stepped over: the lookup goes on with what
/// follows it as if the entry were not there.
pub proof fn lemma_lookup_skips_other_entry(ty: u16, value: Seq<u8>, rest: Seq<u8>, target: u16)
    requires
        value.len() <= u16::MAX,
        ty != target,
    ensures
        tlv_lookup(tlv_entry(ty, value) + rest, target) == tlv_lookup(rest, target),
{
    let data = tlv_entry(ty, value) + rest;
    lemma_le_u16_roundtrip(ty);
    lemma_le_u16_roundtrip(value.len() as u16);
    assert(data[0] == le_u16_bytes(ty)[0]);
    assert(data[1] == le_u16_bytes(ty)[1]);
    assert(data[2] == le_u16_bytes(value.len() as u16)[0]);
    assert(data[3] == le_u16_bytes(value.len() as u16)[1]);
    assert(data.subrange(4 + value.len() as int, data.len() as int) =~= rest);
}

/// Bytes after a found entry never change the lookup: once the walk finds
/// an entry of the target type, whatever follows the data is not read.
pub proof fn lemma_lookup_ignores_suffix(data: Seq<u8>, rest: Seq<u8>, target: u16)
    requires
        tlv_lookup(data, target) is Some,
    ensures
        tlv_lookup(data + rest, target) == tlv_lookup(data, target),
    decreases data.len(),
{
    let all = data + rest;
    assert(all[0] == data[0] && all[1] == data[1] && all[2] == data[2] && all[3] == data[3]);
    let len = le_u16(data[2], data[3]);
    if le_u16(data[0], data[1]) == target {
        assert(all.subrange(TLV_HEADER_SIZE as int, TLV_HEADER_SIZE + len) =~= data.subrange(
            TLV_HEADER_SIZE as int,
            TLV_HEADER_SIZE + len,
        ));
    } else {
        let tail = data.subrange(TLV_HEADER_SIZE + len, data.len() as int);
        lemma_lookup_ignores_suffix(tail, rest, target);
        assert(all.subrange(TLV_HEADER_SIZE + len, all.len() as int) =~= tail + rest);
    }
}

/// Malformed data yields nothing: fewer bytes than a header, or a first
/// entry whose stated length runs past the end, end the lookup with `None`
/// whatever type is asked for.
pub proof fn lemma_lookup_malformed(ty: u16, len: u16, value: Seq<u8>, target: u16)
    requires
        value.len() < len,
    ensures
        tlv_lookup(le_u16_bytes(ty) + le_u16_bytes(len) + value, target) == None::<Seq<u8>>,
        forall|short: Seq<u8>|
            short.len() < TLV_HEADER_SIZE ==> #[trigger] tlv_lookup(short, target) == None::<
                Seq<u8>,
            >,
{
    let data = le_u16_bytes(ty) + le_u16_bytes(len) + value;
    lemma_le_u16_roundtrip(ty);
    lemma_le_u16_roundtrip(len);
    assert(data[2] == le_u16_bytes(len)[0]);
    assert(data[3] == le_u16_bytes(len)[1]);
}

/// Each extension kind has a code of its own: distinct kinds are never
/// stored under the same type.
pub proof fn lemma_extension_codes_distinct(a: ExtensionType, b: ExtensionType)
    ensures
        a.type_code() == b.type_code() ==> a == b,
        a.type_code() != 0,
{
}

/// Entries of other types are stepped over: the lookup goes on with what
/// follows them as if they were not there.
pub proof fn lemma_lookup_skips_entries(entries: Seq<(u16, Seq<u8>)>, rest: Seq<u8>, target: u16)
    requires
        entries_without(entries, target),
    ensures
        tlv_lookup(tlv_entries(entries) + rest, target) == tlv_lookup(rest, target),
    decreases entries.len(),
{
    if entries.len() > 0 {
        let tail = entries.drop_first();
        assert(entries_without(tail, target)) by {
            assert forall|i: int| 0 <= i < tail.len() implies #[trigger] tail[i].0 != target
                && tail[i].1.len() <= u16::MAX by {
                assert(tail[i] == entries[i + 1]);
            }
        }
        lemma_lookup_skips_entries(tail, rest, target);
        assert(entries[0].0 != target && entries[0].1.len() <= u16::MAX);
        lemma_lookup_skips_other_entry(entries[0].0, entries[0].1, tlv_entries(tail) + rest, target);
        assert(tlv_entries(entries) + rest =~= tlv_entry(entries[0].0, entries[0].1) + (
        tlv_entries(tail) + rest));
    }
}

} // verus!
