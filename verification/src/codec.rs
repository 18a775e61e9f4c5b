//! Stored records as bytes.
//!
//! A record is written as one byte that tells its shape (0 for the earliest,
//! 1 for the second, 2 for the current one), followed by the fields of that
//! shape in their order: `vote` and `balance` as one byte each, `bio` as a
//! text, `last_change` as eight bytes. Nothing follows the last field.
use vstd::prelude::*;
use vstd::utf8::{decode_utf8, encode_utf8, valid_utf8};
use crate::account::{
    Account, AccountV1, AccountV2, AccountV2View, AccountView, VersionedAccount,
    VersionedAccountView,
};
use crate::error::StoreError;
use crate::wire::{
    get_text, get_u32, get_u64, lemma_u32_bytes_of_value, lemma_u32_value_of_bytes,
    lemma_u64_bytes_of_value, lemma_u64_value_of_bytes, put_text, put_u64, text_bytes, text_fits,
    u32_bytes, u32_value, u64_bytes, u64_value,
};

verus! {

/// Whether a record can be written: its text must be short enough for the
/// four-byte length in front of it.
pub open spec fn encodable(v: VersionedAccountView) -> bool {
    match v {
        VersionedAccountView::V1(_) => true,
        VersionedAccountView::V2(a) => text_fits(a.bio),
        VersionedAccountView::Current(a) => text_fits(a.bio),
    }
}

/// The bytes of a stored record.
pub open spec fn encoding(v: VersionedAccountView) -> Seq<u8> {
    match v {
        VersionedAccountView::V1(a) => seq![0u8, a.vote, a.balance],
        VersionedAccountView::V2(a) => seq![1u8, a.vote, a.balance] + text_bytes(a.bio),
        VersionedAccountView::Current(a) => seq![2u8, a.vote, a.balance] + text_bytes(a.bio)
            + u64_bytes(a.last_change),
    }
}

/// The length that the bytes of a record with a text announce for it.
pub open spec fn announced_text_len(b: Seq<u8>) -> int
    recommends
        b.len() >= 7,
{
    u32_value(b.subrange(3, 7)) as int
}

/// The record that `b` spells, if it spells one: the shape byte must be
/// known, the bytes must be exactly as many as the shape and the announced
/// text length ask for, and the text must be well-formed UTF-8.
pub open spec fn decoding(b: Seq<u8>) -> Option<VersionedAccountView> {
    if b.len() == 0 {
        None
    } else if b[0] == 0 {
        if b.len() == 3 {
            Some(VersionedAccountView::V1(AccountV1 { vote: b[1], balance: b[2] }))
        } else {
            None
        }
    } else if b[0] == 1 {
        if b.len() >= 7 && b.len() == 7 + announced_text_len(b) && valid_utf8(
            b.subrange(7, b.len() as int),
        ) {
            Some(
                VersionedAccountView::V2(
                    AccountV2View {
                        vote: b[1],
                        balance: b[2],
                        bio: decode_utf8(b.subrange(7, b.len() as int)),
                    },
                ),
            )
        } else {
            None
        }
    } else if b[0] == 2 {
        if b.len() >= 15 && b.len() == 15 + announced_text_len(b) && valid_utf8(
            b.subrange(7, b.len() - 8),
        ) {
            Some(
                VersionedAccountView::Current(
                    AccountView {
                        vote: b[1],
                        balance: b[2],
                        bio: decode_utf8(b.subrange(7, b.len() - 8)),
                        last_change: u64_value(b.subrange(b.len() - 8, b.len() as int)),
                    },
                ),
            )
        } else {
            None
        }
    } else {
        None
    }
}

/// Every record that can be written is read back from its bytes as it was.
pub proof fn lemma_decoding_of_encoding(v: VersionedAccountView)
    requires
        encodable(v),
    ensures
        decoding(encoding(v)) == Some(v),
{
    let b = encoding(v);
    match v {
        VersionedAccountView::V1(a) => {},
        VersionedAccountView::V2(a) => {
            let text = encode_utf8(a.bio);
            lemma_u32_value_of_bytes(text.len() as u32);
            assert(b.subrange(3, 7) =~= u32_bytes(text.len() as u32));
            assert(b.subrange(7, b.len() as int) =~= text);
            vstd::utf8::encode_utf8_valid_utf8(a.bio);
            vstd::utf8::encode_utf8_decode_utf8(a.bio);
        },
        VersionedAccountView::Current(a) => {
            let text = encode_utf8(a.bio);
            lemma_u32_value_of_bytes(text.len() as u32);
            lemma_u64_value_of_bytes(a.last_change);
            assert(b.subrange(3, 7) =~= u32_bytes(text.len() as u32));
            assert(b.subrange(7, b.len() - 8) =~= text);
            assert(b.subrange(b.len() - 8, b.len() as int) =~= u64_bytes(a.last_change));
            vstd::utf8::encode_utf8_valid_utf8(a.bio);
            vstd::utf8::encode_utf8_decode_utf8(a.bio);
        },
    }
}

/// Only the bytes of a record are read as that record: whatever is read can
/// be written, and writing it gives the bytes that were read.
pub proof fn lemma_encoding_of_decoding(b: Seq<u8>)
    requires
        decoding(b).is_some(),
    ensures
        encodable(decoding(b).unwrap()),
        encoding(decoding(b).unwrap()) == b,
{
    let v = decoding(b).unwrap();
    match v {
        VersionedAccountView::V1(a) => {
            assert(encoding(v) =~= b);
        },
        VersionedAccountView::V2(a) => {
            let text = b.subrange(7, b.len() as int);
            vstd::utf8::decode_utf8_encode_utf8(text);
            lemma_u32_bytes_of_value(b.subrange(3, 7));
            assert(encoding(v) =~= b);
        },
        VersionedAccountView::Current(a) => {
            let text = b.subrange(7, b.len() - 8);
            vstd::utf8::decode_utf8_encode_utf8(text);
            lemma_u32_bytes_of_value(b.subrange(3, 7));
            lemma_u64_bytes_of_value(b.subrange(b.len() - 8, b.len() as int));
            assert(encoding(v) =~= b);
        },
    }
}

/// Bytes that begin with an unknown shape byte spell no record.
pub proof fn lemma_unknown_shape_rejected(b: Seq<u8>)
    requires
        b.len() > 0,
        b[0] > 2,
    ensures
        decoding(b).is_none(),
{
}

impl VersionedAccount {
    /// Writes the record as bytes.
    pub fn encode(&self) -> (out: Vec<u8>)
        requires
            encodable(self@),
        ensures
            out@ == encoding(self@),
    {
        let mut out: Vec<u8> = Vec::new();
        match self {
            VersionedAccount::V1(a) => {
                out.push(0);
                out.push(a.vote);
                out.push(a.balance);
                assert(out@ =~= encoding(self@));
            },
            VersionedAccount::V2(a) => {
                out.push(1);
                out.push(a.vote);
                out.push(a.balance);
                put_text(&mut out, a.bio.as_str());
                assert(out@ =~= encoding(self@));
            },
            VersionedAccount::Current(a) => {
                out.push(2);
                out.push(a.vote);
                out.push(a.balance);
                put_text(&mut out, a.bio.as_str());
                put_u64(&mut out, a.last_change);
                assert(out@ =~= encoding(self@));
            },
        }
        out
    }

    /// Reads a record from bytes. Bytes that spell no record are refused as
    /// corrupt; among them are all that begin with an unknown shape byte.
    pub fn decode(bytes: &[u8]) -> (r: Result<VersionedAccount, StoreError>)
        ensures
            match r {
                Ok(v) => decoding(bytes@) == Some(v@),
                Err(e) => e == StoreError::CorruptRecord && decoding(bytes@).is_none(),
            },
            bytes@.len() > 0 && bytes@[0] > 2 ==> r == Err::<VersionedAccount, StoreError>(
                StoreError::CorruptRecord,
            ),
    {
        let len = bytes.len();
        if len == 0 {
            return Err(StoreError::CorruptRecord);
        }
        let shape = bytes[0];
        if shape == 0 {
            if len != 3 {
                return Err(StoreError::CorruptRecord);
            }
            Ok(VersionedAccount::V1(AccountV1 { vote: bytes[1], balance: bytes[2] }))
        } else if shape == 1 {
            if len < 7 {
                return Err(StoreError::CorruptRecord);
            }
            let announced = get_u32(bytes, 3);
            if len - 7 != announced as usize {
                return Err(StoreError::CorruptRecord);
            }
            match get_text(vstd::slice::slice_subrange(bytes, 7, len)) {
                Some(bio) => Ok(
                    VersionedAccount::V2(AccountV2 { vote: bytes[1], balance: bytes[2], bio }),
                ),
                None => Err(StoreError::CorruptRecord),
            }
        } else if shape == 2 {
            if len < 15 {
                return Err(StoreError::CorruptRecord);
            }
            let announced = get_u32(bytes, 3);
            if len - 15 != announced as usize {
                return Err(StoreError::CorruptRecord);
            }
            match get_text(vstd::slice::slice_subrange(bytes, 7, len - 8)) {
                Some(bio) => {
                    let last_change = get_u64(bytes, len - 8);
                    Ok(
                        VersionedAccount::Current(
                            Account { vote: bytes[1], balance: bytes[2], bio, last_change },
                        ),
                    )
                },
                None => Err(StoreError::CorruptRecord),
            }
        } else {
            Err(StoreError::CorruptRecord)
        }
    }
}

} // verus!
