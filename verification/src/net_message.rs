//! The frames in which test binaries exchange messages.
//!
//! A frame is a header of 32 bytes that names the type of the message, the
//! length of the payload as 8 bytes in little-endian order, and the payload.

use vstd::prelude::*;
use vstd::bytes::{
    lemma_auto_spec_u64_to_from_le_bytes, spec_u64_from_le_bytes, spec_u64_to_le_bytes,
    u64_from_le_bytes, u64_to_le_bytes,
};
use vstd::slice::slice_subrange;
use vstd::utf8::encode_utf8;
use crate::error::{Error, ErrorKind};

verus! {

/// The number of bytes of the hash that names a type.
pub const TYPE_HASH_LEN: usize = 16;

/// The number of bytes of the header of a frame.
pub const HEADER_LEN: usize = 32;

/// The number of bytes of a frame before its payload.
pub const PREFIX_LEN: usize = 40;

/// The SHA3-256 digest of the data.
pub uninterp spec fn sha3_256(data: Seq<u8>) -> Seq<u8>;

/// `sha3::Sha3_256::digest`: the SHA3-256 digest of the data, which has 32
/// bytes.
#[verifier::external_body]
fn sha3_256_digest(data: &[u8]) -> (r: Vec<u8>)
    ensures
        r@ == sha3_256(data@),
        r@.len() == 32,
{
    <sha3::Sha3_256 as sha3::Digest>::digest(data).to_vec()
}

/// The hash that names a type: the first 16 bytes of the SHA3-256 digest of
/// the name of the type.
pub open spec fn type_hash_of(name_of_type: Seq<char>) -> Seq<u8> {
    sha3_256(encode_utf8(name_of_type)).subrange(0, TYPE_HASH_LEN as int)
}

/// The header of a frame for the given hash: the hash, filled up with zeros.
pub open spec fn header_of(hash: Seq<u8>) -> Seq<u8> {
    hash + Seq::new((HEADER_LEN - TYPE_HASH_LEN) as nat, |i: int| 0u8)
}

/// The frame that carries the payload under the given hash.
pub open spec fn frame_of(hash: Seq<u8>, payload: Seq<u8>) -> Seq<u8> {
    header_of(hash) + spec_u64_to_le_bytes(payload.len() as u64) + payload
}

/// What the first 40 bytes of a frame say to a receiver that expects the
/// given hash: the length of the payload, where the header is the expected
/// one.
pub open spec fn read_prefix(prefix: Seq<u8>, expected: Seq<u8>) -> Option<u64> {
    if prefix.len() == PREFIX_LEN && prefix.subrange(0, HEADER_LEN as int) == header_of(expected) {
        Some(spec_u64_from_le_bytes(prefix.subrange(HEADER_LEN as int, PREFIX_LEN as int)))
    } else {
        None
    }
}

/// A receiver that expects the hash under which a frame was sent reads the
/// length of its payload from the frame.
pub proof fn lemma_frame_round_trip(hash: Seq<u8>, payload: Seq<u8>)
    requires
        hash.len() == TYPE_HASH_LEN,
        payload.len() <= u64::MAX,
    ensures
        read_prefix(frame_of(hash, payload).subrange(0, PREFIX_LEN as int), hash) == Some(
            payload.len() as u64,
        ),
        frame_of(hash, payload).subrange(PREFIX_LEN as int, frame_of(hash, payload).len() as int)
            == payload,
{
    lemma_auto_spec_u64_to_from_le_bytes();
    let frame = frame_of(hash, payload);
    let length = spec_u64_to_le_bytes(payload.len() as u64);
    assert(length.len() == 8);
    let prefix = frame.subrange(0, PREFIX_LEN as int);
    assert(prefix.subrange(0, HEADER_LEN as int) =~= header_of(hash));
    assert(prefix.subrange(HEADER_LEN as int, PREFIX_LEN as int) =~= length);
    assert(frame.subrange(PREFIX_LEN as int, frame.len() as int) =~= payload);
}

/// Takes the hash of the name of a type and returns it.
pub fn type_hash(name_of_type: &str) -> (r: Vec<u8>)
    ensures
        r@ == type_hash_of(name_of_type@),
        r@.len() == TYPE_HASH_LEN,
{
    let mut digest = sha3_256_digest(name_of_type.as_bytes());
    digest.truncate(TYPE_HASH_LEN);
    digest
}

/// The header of a frame for the given hash. A hash of another length than
/// 16 is refused with an error of kind `Validation`.
pub fn header(hash: &Vec<u8>) -> (r: Result<Vec<u8>, Error>)
    ensures
        match r {
            Ok(h) => hash@.len() == TYPE_HASH_LEN && h@ == header_of(hash@) && h@.len()
                == HEADER_LEN,
            Err(e) => hash@.len() != TYPE_HASH_LEN && e.kind == ErrorKind::Validation,
        },
{
    if hash.len() != TYPE_HASH_LEN {
        return Err(
            Error::new(ErrorKind::Validation, "NetMessenger -> a type hash has 16 bytes".to_owned()),
        );
    }
    let mut h = hash.clone();
    assert(h@ =~= hash@);
    let mut k: usize = TYPE_HASH_LEN;
    while k < HEADER_LEN
        invariant
            TYPE_HASH_LEN <= k <= HEADER_LEN,
            hash@.len() == TYPE_HASH_LEN,
            h@ == hash@ + Seq::new((k - TYPE_HASH_LEN) as nat, |i: int| 0u8),
        decreases HEADER_LEN - k,
    {
        h.push(0u8);
        k += 1;
        assert(h@ =~= hash@ + Seq::new((k - TYPE_HASH_LEN) as nat, |i: int| 0u8));
    }
    Ok(h)
}

/// The frame that carries the payload under the given hash. A hash of
/// another length than 16 is refused with an error of kind `Validation`.
pub fn frame(hash: &Vec<u8>, payload: &Vec<u8>) -> (r: Result<Vec<u8>, Error>)
    ensures
        match r {
            Ok(f) => hash@.len() == TYPE_HASH_LEN && f@ == frame_of(hash@, payload@),
            Err(e) => hash@.len() != TYPE_HASH_LEN && e.kind == ErrorKind::Validation,
        },
{
    let mut f = match header(hash) {
        Ok(h) => h,
        Err(e) => {
            return Err(e);
        },
    };
    let mut length = u64_to_le_bytes(payload.len() as u64);
    f.append(&mut length);
    let mut body = payload.clone();
    assert(body@ =~= payload@);
    f.append(&mut body);
    Ok(f)
}

/// Reads the first 40 bytes of a frame: the length of the payload that
/// follows. The error is of kind `Validation`: where there are not 40 bytes,
/// and where the header is not the one of the expected hash, which says that
/// the sender sent a message of another type.
pub fn read_frame_prefix(prefix: &Vec<u8>, expected: &Vec<u8>) -> (r: Result<u64, Error>)
    ensures
        match r {
            Ok(n) => read_prefix(prefix@, expected@) == Some(n),
            Err(e) => read_prefix(prefix@, expected@) is None && e.kind == ErrorKind::Validation,
        },
{
    if prefix.len() != PREFIX_LEN {
        return Err(
            Error::new(
                ErrorKind::Validation,
                "NetMessenger::recv() the prefix of a frame has 40 bytes".to_owned(),
            ),
        );
    }
    let ghost want = header_of(expected@);
    let mut same = expected.len() == TYPE_HASH_LEN;
    let mut k: usize = 0;
    proof {
        if !same {
            assert(want.len() != HEADER_LEN);
            assert(prefix@.subrange(0, HEADER_LEN as int).len() == HEADER_LEN);
        }
    }
    while same && k < HEADER_LEN
        invariant
            k <= HEADER_LEN,
            prefix@.len() == PREFIX_LEN,
            want == header_of(expected@),
            same ==> expected@.len() == TYPE_HASH_LEN && forall|j: int|
                0 <= j < k ==> prefix@[j] == want[j],
            !same ==> prefix@.subrange(0, HEADER_LEN as int) != want,
        decreases HEADER_LEN - k + (if same {
            1int
        } else {
            0int
        }),
    {
        let b: u8 = if k < TYPE_HASH_LEN {
            expected[k]
        } else {
            0u8
        };
        if prefix[k] == b {
            k += 1;
        } else {
            same = false;
            assert(prefix@.subrange(0, HEADER_LEN as int)[k as int] != want[k as int]);
        }
    }
    if !same {
        return Err(
            Error::new(
                ErrorKind::Validation,
                "NetMessenger::recv() incoming type did not match expected type".to_owned(),
            ),
        );
    }
    assert(prefix@.subrange(0, HEADER_LEN as int) =~= want);
    let n = u64_from_le_bytes(slice_subrange(prefix.as_slice(), HEADER_LEN, PREFIX_LEN));
    Ok(n)
}

} // verus!
