//! The persisted vault record, the withdraw request, and their wire forms.
//!
//! Fields are written in declaration order. Integers are little-endian and of
//! fixed width, an identity is its 32 bytes, and a text is a four-byte
//! little-endian byte count followed by UTF-8.

use crate::error::DecodeError;
use crate::identity::Identity;
use crate::text::{
    encode_text, get_text, lemma_encode_text_parts, lemma_encode_text_unique, put_text, text_fits,
};
use crate::wire::{
    get_le, le_bytes, le_value, lemma_capacity_values, lemma_le_bytes_len,
    lemma_le_bytes_of_value, lemma_le_value_bound, lemma_le_value_of_bytes, put_bytes, put_le,
};
use vstd::prelude::*;

verus! {

/// The fund record that a storage account holds.
#[derive(Clone, Debug, PartialEq, Eq)]
pub struct Vault {
    /// The one identity allowed to withdraw. Set at creation, never changed.
    pub admin: Identity,
    pub name: String,
    pub description: String,
    pub image_link: String,
    /// The tracked balance.
    pub amount: u64,
}

/// A vault record as a mathematical value.
pub ghost struct VaultRecord {
    pub admin: Seq<u8>,
    pub name: Seq<char>,
    pub description: Seq<char>,
    pub image_link: Seq<char>,
    pub amount: u64,
}

impl VaultRecord {
    /// A record is valid when its administrator key has 32 bytes and the byte
    /// count of each text can be written in four bytes.
    pub open spec fn valid(self) -> bool {
        &&& self.admin.len() == 32
        &&& text_fits(self.name)
        &&& text_fits(self.description)
        &&& text_fits(self.image_link)
    }

    /// The same record with another tracked balance.
    pub open spec fn with_amount(self, amount: u64) -> VaultRecord {
        VaultRecord { amount, ..self }
    }

    /// Where the name ends in the wire form.
    pub open spec fn name_end(self) -> int {
        32 + encode_text(self.name).len() as int
    }

    /// Where the description ends in the wire form.
    pub open spec fn description_end(self) -> int {
        self.name_end() + encode_text(self.description).len() as int
    }

    /// Where the image link ends in the wire form.
    pub open spec fn image_link_end(self) -> int {
        self.description_end() + encode_text(self.image_link).len() as int
    }
}

impl View for Vault {
    type V = VaultRecord;

    open spec fn view(&self) -> VaultRecord {
        VaultRecord {
            admin: self.admin@,
            name: self.name@,
            description: self.description@,
            image_link: self.image_link@,
            amount: self.amount,
        }
    }
}

/// The wire form of a record.
pub open spec fn encode_record(record: VaultRecord) -> Seq<u8> {
    record.admin + encode_text(record.name) + encode_text(record.description) + encode_text(
        record.image_link,
    ) + le_bytes(record.amount as nat, 8)
}

/// Whether `bytes` is the wire form of the valid record `record`.
pub open spec fn is_record_of(bytes: Seq<u8>, record: VaultRecord) -> bool {
    record.valid() && encode_record(record) == bytes
}

/// The record that `bytes` is the wire form of, if there is one. No byte may
/// be missing and none may be left over.
pub open spec fn decode_record(bytes: Seq<u8>) -> Option<VaultRecord> {
    if exists|record: VaultRecord| is_record_of(bytes, record) {
        Some(choose|record: VaultRecord| is_record_of(bytes, record))
    } else {
        None
    }
}

/// The wire form of a withdraw request for `amount`.
pub open spec fn encode_request(amount: u64) -> Seq<u8> {
    le_bytes(amount as nat, 8)
}

/// The amount that the withdraw request `bytes` asks for, if `bytes` is one.
pub open spec fn decode_request(bytes: Seq<u8>) -> Option<u64> {
    if bytes.len() == 8 {
        Some(le_value(bytes) as u64)
    } else {
        None
    }
}

/// Where each field stands in the wire form of a valid record.
pub proof fn lemma_record_layout(record: VaultRecord)
    requires
        record.valid(),
    ensures
        32 + 4 <= record.name_end(),
        record.name_end() + 4 <= record.description_end(),
        record.description_end() + 4 <= record.image_link_end(),
        encode_record(record).len() == record.image_link_end() + 8,
        encode_record(record).subrange(0, 32) == record.admin,
        encode_record(record).subrange(32, record.name_end()) == encode_text(record.name),
        encode_record(record).subrange(record.name_end(), record.description_end())
            == encode_text(record.description),
        encode_record(record).subrange(record.description_end(), record.image_link_end())
            == encode_text(record.image_link),
        encode_record(record).subrange(record.image_link_end(), record.image_link_end() + 8)
            == le_bytes(record.amount as nat, 8),
{
    let whole = encode_record(record);
    lemma_encode_text_parts(record.name);
    lemma_encode_text_parts(record.description);
    lemma_encode_text_parts(record.image_link);
    lemma_le_bytes_len(record.amount as nat, 8);
    assert(whole.subrange(0, 32) =~= record.admin);
    assert(whole.subrange(32, record.name_end()) =~= encode_text(record.name));
    assert(whole.subrange(record.name_end(), record.description_end()) =~= encode_text(
        record.description,
    ));
    assert(whole.subrange(record.description_end(), record.image_link_end()) =~= encode_text(
        record.image_link,
    ));
    assert(whole.subrange(record.image_link_end(), record.image_link_end() + 8) =~= le_bytes(
        record.amount as nat,
        8,
    ));
}

/// Two valid records with the same wire form are the same record.
pub proof fn lemma_encode_record_injective(first: VaultRecord, second: VaultRecord)
    requires
        first.valid(),
        second.valid(),
        encode_record(first) == encode_record(second),
    ensures
        first == second,
{
    let bytes = encode_record(first);
    lemma_record_layout(first);
    lemma_record_layout(second);
    lemma_encode_text_unique(bytes, 32, first.name, second.name);
    lemma_encode_text_unique(bytes, first.name_end(), first.description, second.description);
    lemma_encode_text_unique(bytes, first.description_end(), first.image_link, second.image_link);
    lemma_capacity_values();
    lemma_le_value_of_bytes(first.amount as nat, 8);
    lemma_le_value_of_bytes(second.amount as nat, 8);
}

/// The wire form of a valid record decodes, and to that record.
pub proof fn lemma_decode_of_encode(record: VaultRecord)
    requires
        record.valid(),
    ensures
        decode_record(encode_record(record)) == Some(record),
{
    let bytes = encode_record(record);
    assert(is_record_of(bytes, record));
    let found = choose|found: VaultRecord| is_record_of(bytes, found);
    lemma_encode_record_injective(found, record);
}

/// Changing the tracked balance of a record keeps its validity and the
/// length of its wire form.
pub proof fn lemma_with_amount(record: VaultRecord, amount: u64)
    requires
        record.valid(),
    ensures
        record.with_amount(amount).valid(),
        encode_record(record.with_amount(amount)).len() == encode_record(record).len(),
{
    lemma_record_layout(record);
    lemma_record_layout(record.with_amount(amount));
}

impl Vault {
    /// The wire form of the record, or `None` when one of its texts is too
    /// long for its byte count to be written in four bytes. What is returned
    /// decodes to the record again.
    pub fn encode(&self) -> (out: Option<Vec<u8>>)
        ensures
            out is Some <==> self@.valid(),
            match out {
                Some(bytes) => bytes@ == encode_record(self@) && decode_record(bytes@) == Some(
                    self@,
                ),
                None => true,
            },
    {
        let mut bytes: Vec<u8> = Vec::new();
        let admin: [u8; 32] = self.admin.to_bytes();
        put_bytes(&mut bytes, admin.as_slice());
        if !put_text(&mut bytes, self.name.as_str()) {
            return None;
        }
        if !put_text(&mut bytes, self.description.as_str()) {
            return None;
        }
        if !put_text(&mut bytes, self.image_link.as_str()) {
            return None;
        }
        put_le(&mut bytes, self.amount, 8);
        proof {
            lemma_decode_of_encode(self@);
        }
        Some(bytes)
    }

    /// Reads a record from its wire form. It succeeds exactly on the bytes
    /// that are the wire form of a valid record, and then returns that record.
    pub fn decode(bytes: &[u8]) -> (res: Result<Vault, DecodeError>)
        ensures
            match res {
                Ok(vault) => is_record_of(bytes@, vault@) && decode_record(bytes@) == Some(vault@),
                Err(_) => decode_record(bytes@) is None,
            },
    {
        let total: usize = bytes.len();
        if total < 32 {
            assert forall|record: VaultRecord| !is_record_of(bytes@, record) by {
                if record.valid() {
                    lemma_record_layout(record);
                }
            }
            return Err(DecodeError);
        }
        let mut key: [u8; 32] = [0u8; 32];
        let mut at: usize = 0;
        while at < 32
            invariant
                at <= 32 <= bytes@.len(),
                key@.subrange(0, at as int) == bytes@.subrange(0, at as int),
            decreases 32 - at,
        {
            key[at] = bytes[at];
            at = at + 1;
            assert(key@.subrange(0, at as int) =~= bytes@.subrange(0, at as int));
        }
        assert(key@ =~= bytes@.subrange(0, 32));
        let admin = Identity::new(key);
        let (name, name_end) = match get_text(bytes, 32) {
            Some(found) => found,
            None => {
                assert forall|record: VaultRecord| !is_record_of(bytes@, record) by {
                    if record.valid() {
                        lemma_record_layout(record);
                    }
                }
                return Err(DecodeError);
            },
        };
        let (description, description_end) = match get_text(bytes, name_end) {
            Some(found) => found,
            None => {
                assert forall|record: VaultRecord| !is_record_of(bytes@, record) by {
                    if is_record_of(bytes@, record) {
                        lemma_record_layout(record);
                        lemma_encode_text_unique(bytes@, 32, record.name, name@);
                    }
                }
                return Err(DecodeError);
            },
        };
        let (image_link, image_link_end) = match get_text(bytes, description_end) {
            Some(found) => found,
            None => {
                assert forall|record: VaultRecord| !is_record_of(bytes@, record) by {
                    if is_record_of(bytes@, record) {
                        lemma_record_layout(record);
                        lemma_encode_text_unique(bytes@, 32, record.name, name@);
                        lemma_encode_text_unique(
                            bytes@,
                            name_end as int,
                            record.description,
                            description@,
                        );
                    }
                }
                return Err(DecodeError);
            },
        };
        if total - image_link_end != 8 {
            assert forall|record: VaultRecord| !is_record_of(bytes@, record) by {
                if is_record_of(bytes@, record) {
                    lemma_record_layout(record);
                    lemma_encode_text_unique(bytes@, 32, record.name, name@);
                    lemma_encode_text_unique(
                        bytes@,
                        name_end as int,
                        record.description,
                        description@,
                    );
                    lemma_encode_text_unique(
                        bytes@,
                        description_end as int,
                        record.image_link,
                        image_link@,
                    );
                }
            }
            return Err(DecodeError);
        }
        let amount: u64 = get_le(bytes, image_link_end, 8);
        let vault = Vault { admin, name, description, image_link, amount };
        proof {
            let tail = bytes@.subrange(image_link_end as int, total as int);
            lemma_le_bytes_of_value(tail);
            assert(encode_record(vault@) =~= bytes@);
            lemma_decode_of_encode(vault@);
        }
        Ok(vault)
    }
}

/// What a withdrawal asks for.
#[derive(Clone, Copy, Debug, PartialEq, Eq)]
pub struct WithdrawRequest {
    /// The quantity to move out of the vault.
    pub amount: u64,
}

impl WithdrawRequest {
    /// The wire form of the request: its amount in eight bytes.
    pub fn encode(&self) -> (bytes: Vec<u8>)
        ensures
            bytes@ == encode_request(self.amount),
    {
        let mut bytes: Vec<u8> = Vec::new();
        put_le(&mut bytes, self.amount, 8);
        bytes
    }

    /// Reads a request from its wire form, which has exactly eight bytes.
    pub fn decode(bytes: &[u8]) -> (res: Result<WithdrawRequest, DecodeError>)
        ensures
            match res {
                Ok(request) => decode_request(bytes@) == Some(request.amount),
                Err(_) => decode_request(bytes@) is None,
            },
    {
        if bytes.len() != 8 {
            return Err(DecodeError);
        }
        let amount: u64 = get_le(bytes, 0, 8);
        proof {
            assert(bytes@.subrange(0, 8) =~= bytes@);
            lemma_le_value_bound(bytes@);
            lemma_capacity_values();
        }
        Ok(WithdrawRequest { amount })
    }
}

} // verus!
