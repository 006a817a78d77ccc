//! The fixed-size blob container of the erasure-coding layer: raw user
//! bytes padded to the blob size with a little-endian length trailer, and
//! the error taxonomy of the encoding and verification layers built on the
//! commitment scheme.

use vstd::prelude::*;
use vstd::slice::slice_subrange;
use vstd::string::StringExecFns;

use crate::proofs::AmtProofError;

verus! {

/// Bytes of user data carried per 32-byte scalar; the top byte stays free
/// so every unit embeds below the field modulus.
pub const RAW_UNIT: usize = 31;

/// Base-two logarithm of the number of blob rows.
pub const BLOB_ROW_LOG: usize = 10;

/// Base-two logarithm of the number of blob columns.
pub const BLOB_COL_LOG: usize = 10;

/// Rows per blob.
pub const BLOB_ROW_N: usize = 1024;

/// Columns per blob.
pub const BLOB_COL_N: usize = 1024;

/// Scalars per raw blob.
pub const RAW_BLOB_SIZE: usize = 1048576;

/// Bytes per padded blob: the raw capacity of every scalar.
pub const MAX_BLOB_SIZE: usize = 32505856;

/// Bytes of user data a blob can carry; the last four bytes of the padded
/// blob store the actual length, little endian.
pub const MAX_RAW_DATA_SIZE: usize = 32505852;

/// The little-endian value of the four-byte length trailer.
pub open spec fn length_field(input: Seq<u8>) -> nat {
    (input[MAX_RAW_DATA_SIZE as int] + input[MAX_RAW_DATA_SIZE as int + 1] * 0x100 + input[
        MAX_RAW_DATA_SIZE as int + 2
    ] * 0x10000 + input[MAX_RAW_DATA_SIZE as int + 3] * 0x1000000) as nat
}

/// Every byte between the actual length and the trailer is zero.
pub open spec fn padding_ok(input: Seq<u8>, len: nat) -> bool {
    forall|i: int| len <= i < MAX_RAW_DATA_SIZE ==> #[trigger] input[i] == 0
}

/// The container invariant: full blob size, a length field within the raw
/// capacity, and clean padding.
pub open spec fn raw_data_wf(input: Seq<u8>) -> bool {
    &&& input.len() == MAX_BLOB_SIZE
    &&& length_field(input) <= MAX_RAW_DATA_SIZE
    &&& padding_ok(input, length_field(input))
}

/// A padded blob: user bytes, zero padding, four-byte length trailer.
pub struct RawData {
    data: Vec<u8>,
}

impl View for RawData {
    type V = Seq<u8>;

    closed spec fn view(&self) -> Seq<u8> {
        self.data@
    }
}

/// Reads the length trailer and validates the padding: returns the actual
/// length exactly when the trailer is within the raw capacity and all
/// padding bytes are zero.
pub fn get_actual_length(input: &[u8]) -> (r: Result<usize, String>)
    requires
        input@.len() == MAX_BLOB_SIZE,
    ensures
        r matches Ok(l) ==> l == length_field(input@) && raw_data_wf(input@),
        r is Err ==> !raw_data_wf(input@),
{
    let b0 = input[MAX_RAW_DATA_SIZE] as usize;
    let b1 = input[MAX_RAW_DATA_SIZE + 1] as usize;
    let b2 = input[MAX_RAW_DATA_SIZE + 2] as usize;
    let b3 = input[MAX_RAW_DATA_SIZE + 3] as usize;
    let length = b0 + b1 * 0x100 + b2 * 0x10000 + b3 * 0x1000000;
    if length > MAX_RAW_DATA_SIZE {
        return Err(String::from_str("Incorrect length field"));
    }

    let mut i: usize = length;
    while i < MAX_RAW_DATA_SIZE
        invariant
            length <= i <= MAX_RAW_DATA_SIZE,
            input@.len() == MAX_BLOB_SIZE,
            length == length_field(input@),
            forall|j: int| length <= j < i ==> #[trigger] input@[j] == 0,
        decreases MAX_RAW_DATA_SIZE - i,
    {
        if input[i] != 0 {
            return Err(String::from_str("Non zero in padding range"));
        }
        i = i + 1;
    }
    Ok(length)
}

impl RawData {
    /// The user bytes: the blob truncated to its actual length.
    pub fn as_bytes(&self) -> (r: &[u8])
        requires
            raw_data_wf(self@),
        ensures
            r@ == self@.subrange(0, length_field(self@) as int),
    {
        let length = match get_actual_length(self.data.as_slice()) {
            Ok(l) => l,
            Err(_) => 0,
        };
        slice_subrange(self.data.as_slice(), 0, length)
    }

    /// Accepts an already padded blob after validating its shape: the
    /// input must have the full blob size and a well-formed trailer.
    pub fn try_from_padded(input: Vec<u8>) -> (r: Result<RawData, String>)
        ensures
            r is Ok <==> raw_data_wf(input@),
            r matches Ok(rd) ==> rd@ == input@,
    {
        if input.len() != MAX_BLOB_SIZE {
            return Err(String::from_str("Incorrect input length"));
        }
        match get_actual_length(input.as_slice()) {
            Ok(_) => Ok(RawData { data: input }),
            Err(e) => Err(e),
        }
    }

    /// Pads user bytes into a blob: data first, zero padding, then the
    /// length as a four-byte little-endian trailer.  Rejects data beyond
    /// the raw capacity.
    pub fn try_from_bytes(value: &[u8]) -> (r: Result<RawData, EncoderError>)
        ensures
            r is Ok <==> value@.len() <= MAX_RAW_DATA_SIZE,
            r matches Ok(rd) ==> {
                &&& rd@.len() == MAX_BLOB_SIZE
                &&& rd@.subrange(0, value@.len() as int) == value@
                &&& length_field(rd@) == value@.len()
                &&& raw_data_wf(rd@)
            },
            r matches Err(e) ==> e == (EncoderError::TooLargeBlob {
                actual: value@.len() as usize,
                expected_max: MAX_RAW_DATA_SIZE,
            }),
    {
        let value_len = value.len();
        if value_len > MAX_RAW_DATA_SIZE {
            return Err(EncoderError::TooLargeBlob { actual: value_len, expected_max: MAX_RAW_DATA_SIZE });
        }
        let mut array: Vec<u8> = Vec::new();
        let mut i: usize = 0;
        while i < value_len
            invariant
                i <= value_len,
                value_len == value@.len(),
                array@.len() == i,
                forall|j: int| 0 <= j < i ==> array@[j] == value@[j],
            decreases value_len - i,
        {
            array.push(value[i]);
            i = i + 1;
        }
        while i < MAX_RAW_DATA_SIZE
            invariant
                value_len <= i <= MAX_RAW_DATA_SIZE,
                value_len == value@.len(),
                array@.len() == i,
                forall|j: int| 0 <= j < value_len ==> array@[j] == value@[j],
                forall|j: int| value_len <= j < i ==> #[trigger] array@[j] == 0,
            decreases MAX_RAW_DATA_SIZE - i,
        {
            array.push(0u8);
            i = i + 1;
        }
        let b0 = (value_len % 0x100) as u8;
        let b1 = ((value_len / 0x100) % 0x100) as u8;
        let b2 = ((value_len / 0x10000) % 0x100) as u8;
        let b3 = ((value_len / 0x1000000) % 0x100) as u8;
        array.push(b0);
        array.push(b1);
        array.push(b2);
        array.push(b3);
        proof {
            lemma_le4_roundtrip(value_len as nat);
            assert(array@.subrange(0, value@.len() as int) =~= value@);
        }
        Ok(RawData { data: array })
    }
}

impl Default for RawData {
    /// An empty blob: all zeros, length zero.
    fn default() -> (r: RawData)
        ensures
            r@.len() == MAX_BLOB_SIZE,
            length_field(r@) == 0,
            raw_data_wf(r@),
    {
        let mut data: Vec<u8> = Vec::new();
        let mut i: usize = 0;
        while i < MAX_BLOB_SIZE
            invariant
                i <= MAX_BLOB_SIZE,
                data@.len() == i,
                forall|j: int| 0 <= j < i ==> #[trigger] data@[j] == 0,
            decreases MAX_BLOB_SIZE - i,
        {
            data.push(0u8);
            i = i + 1;
        }
        RawData { data }
    }
}

/// Splitting a number below `2^32` into four little-endian bytes and
/// reassembling them gives the number back.
proof fn lemma_le4_roundtrip(n: nat)
    requires
        n < 0x100000000,
    ensures
        (n % 0x100) + ((n / 0x100) % 0x100) * 0x100 + ((n / 0x10000) % 0x100) * 0x10000 + ((n
            / 0x1000000) % 0x100) * 0x1000000 == n,
{
    assert((n % 0x100) + ((n / 0x100) % 0x100) * 0x100 + ((n / 0x10000) % 0x100) * 0x10000 + ((n
        / 0x1000000) % 0x100) * 0x1000000 == n) by (nonlinear_arith)
        requires
            n < 0x100000000,
    ;
}

/// A failure while padding raw data into a blob.
#[derive(Debug, Clone, Copy, PartialEq, Eq, Structural)]
pub enum EncoderError {
    TooLargeBlob { actual: usize, expected_max: usize },
}

/// A failure while checking the commitment-side half of an encoded slice.
#[derive(Debug, Clone, Copy, PartialEq, Eq, Structural)]
pub enum AmtError {
    IncorrectCommitment,
    IncorrectRowSize { actual: usize, expected: usize },
    RowIndexOverflow { actual: usize, expected_max: usize },
    UnmatchedCosetIndex { coset_index: usize, local_index: usize, amt_index: usize },
    IncorrectProof { coset_index: usize, amt_index: usize, error: AmtProofError },
}

/// A failure while checking the Merkle-side half of an encoded slice.
#[derive(Debug, Clone, Copy, PartialEq, Eq, Structural)]
pub enum MerkleError {
    IncorrectRoot,
    IncorrectSize { actual: usize, expected: usize },
    RowIndexOverflow { actual: usize, expected_max: usize },
    IncorrectLocalRoot { row_index: usize },
    IncorrectProof { row_index: usize },
}

/// A failure while verifying an encoded slice against its blob.
#[derive(Debug, Clone, Copy, PartialEq, Eq, Structural)]
pub enum VerifierError {
    AMT(AmtError),
    Merkle(MerkleError),
    UnmatchedAMTIndex { row_index: usize, amt_index: usize },
    UnmatchedMerkleIndex { row_index: usize, merkle_index: usize },
}

/// The ways a commitment-side slice can be deliberately corrupted when
/// exercising the verifier.
#[derive(Debug, Clone, Copy, PartialEq, Eq, Hash, Structural)]
pub enum ErrCodeAMT {
    WrongIndex,
    WrongRow,
    WrongCommitment,
    IncorrectHighCommitment,
}

/// The ways a Merkle-side slice can be deliberately corrupted when
/// exercising the verifier.
#[derive(Debug, Clone, Copy, PartialEq, Eq, Hash, Structural)]
pub enum ErrCodeMerkle {
    WrongIndex,
    WrongLocalRoot,
    WrongProof,
    WrongRoot,
}

/// A failure while recovering a blob from a partial set of slices.
#[derive(Debug, Clone, Copy, PartialEq, Eq, Structural)]
pub enum RecoveryErr {
    ExtaustiveK,
    InvalidLength,
    RowIdOverflow,
    TooFewRowIds,
}

} // verus!
