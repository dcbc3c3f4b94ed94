//! IQ recording descriptions and the sample layouts of the supported file
//! encodings.
//!
//! Reading bytes from disk stays outside the library; what is verified here
//! is the mapping from raw bytes to integer sample pairs.  The two
//! floating-point steps (the `2xf32` encoding and the normalization of
//! integer samples to [-1, 1]) belong to the caller.

use vstd::prelude::*;
use vstd::string::StringSliceAdditionalSpecFns;

verus! {

/// Encoding of an IQ recording file.
#[derive(Clone, Copy, Debug, PartialEq, Eq, Structural)]
pub enum IQFileType {
    /// Interleaved little-endian 32-bit floats I, Q in [-1, 1].
    TypePairFloat32,
    /// Interleaved little-endian signed 16-bit I, Q.
    TypePairInt16,
    /// Interleaved signed 8-bit I, Q.
    TypePairInt8,
    /// Signed 8-bit real-only stream; Q is zero.
    TypeOneInt8,
}

/// The byte string "2xf32".
pub open spec fn spec_name_2xf32() -> Seq<u8> {
    seq![50u8, 120u8, 102u8, 51u8, 50u8]
}

/// The byte string "2xi16".
pub open spec fn spec_name_2xi16() -> Seq<u8> {
    seq![50u8, 120u8, 105u8, 49u8, 54u8]
}

/// The byte string "2xi8".
pub open spec fn spec_name_2xi8() -> Seq<u8> {
    seq![50u8, 120u8, 105u8, 56u8]
}

/// The byte string "i8".
pub open spec fn spec_name_i8() -> Seq<u8> {
    seq![105u8, 56u8]
}

/// Bytes per stored IQ sample for each encoding.
pub open spec fn spec_sample_size(t: IQFileType) -> usize {
    match t {
        IQFileType::TypePairFloat32 => 8,
        IQFileType::TypePairInt16 => 4,
        IQFileType::TypePairInt8 => 2,
        IQFileType::TypeOneInt8 => 1,
    }
}

impl IQFileType {
    /// Parses an encoding name; exactly "2xf32", "2xi16", "2xi8" and "i8"
    /// are recognized.
    pub fn from_str(input: &str) -> (r: Option<IQFileType>)
        ensures
            r == Some(IQFileType::TypePairFloat32) <==> input.spec_bytes() == spec_name_2xf32(),
            r == Some(IQFileType::TypePairInt16) <==> input.spec_bytes() == spec_name_2xi16(),
            r == Some(IQFileType::TypePairInt8) <==> input.spec_bytes() == spec_name_2xi8(),
            r == Some(IQFileType::TypeOneInt8) <==> input.spec_bytes() == spec_name_i8(),
            r.is_none() <==> (input.spec_bytes() != spec_name_2xf32() && input.spec_bytes()
                != spec_name_2xi16() && input.spec_bytes() != spec_name_2xi8()
                && input.spec_bytes() != spec_name_i8()),
    {
        let b = input.as_bytes();
        if b.len() == 5 && b[0] == 50 && b[1] == 120 && b[2] == 102 && b[3] == 51 && b[4] == 50 {
            proof {
                assert(b@ =~= spec_name_2xf32());
            }
            Some(IQFileType::TypePairFloat32)
        } else if b.len() == 5 && b[0] == 50 && b[1] == 120 && b[2] == 105 && b[3] == 49 && b[4]
            == 54 {
            proof {
                assert(b@ =~= spec_name_2xi16());
            }
            Some(IQFileType::TypePairInt16)
        } else if b.len() == 4 && b[0] == 50 && b[1] == 120 && b[2] == 105 && b[3] == 56 {
            proof {
                assert(b@ =~= spec_name_2xi8());
            }
            Some(IQFileType::TypePairInt8)
        } else if b.len() == 2 && b[0] == 105 && b[1] == 56 {
            proof {
                assert(b@ =~= spec_name_i8());
            }
            Some(IQFileType::TypeOneInt8)
        } else {
            proof {
                assert(b@ != spec_name_2xf32());
                assert(b@ != spec_name_2xi16());
                assert(b@ != spec_name_2xi8());
                assert(b@ != spec_name_i8());
            }
            None
        }
    }
}

/// An IQ recording on disk: where it lives, how fast it was sampled and how
/// its samples are encoded.  The bytes themselves are read outside the
/// library.
pub struct IQRecording {
    pub file_path: String,
    pub sample_rate: usize,
    pub file_type: IQFileType,
}

impl IQRecording {
    pub fn new(file_path: String, sample_rate: usize, file_type: IQFileType) -> (r: IQRecording)
        ensures
            r.file_path == file_path,
            r.sample_rate == sample_rate,
            r.file_type == file_type,
    {
        IQRecording { file_path, sample_rate, file_type }
    }

    /// Bytes per stored sample of one encoding.
    pub fn get_sample_size_bytes(file_type: &IQFileType) -> (r: usize)
        ensures
            r == spec_sample_size(*file_type),
    {
        match file_type {
            IQFileType::TypePairInt8 => 2,
            IQFileType::TypeOneInt8 => 1,
            IQFileType::TypePairInt16 => 4,
            IQFileType::TypePairFloat32 => 8,
        }
    }
}

/// The signed 16-bit value of two little-endian bytes.
pub open spec fn spec_le16(b0: u8, b1: u8) -> i16 {
    ((b0 as u16) | ((b1 as u16) << 8u16)) as i16
}

/// Decodes an interleaved signed 8-bit I, Q stream into sample pairs; a
/// trailing incomplete sample is dropped.
pub fn decode_pair_i8(bytes: &[u8]) -> (r: Vec<(i8, i8)>)
    ensures
        r@.len() == bytes@.len() / 2,
        forall|k: int|
            0 <= k < r@.len() ==> r@[k] == ((bytes@[2 * k] as i8), (bytes@[2 * k + 1] as i8)),
{
    let mut r: Vec<(i8, i8)> = Vec::new();
    let n = bytes.len() / 2;
    let mut k: usize = 0;
    while k < n
        invariant
            k <= n,
            n == bytes@.len() / 2,
            bytes@.len() <= usize::MAX,
            r@.len() == k,
            forall|m: int|
                0 <= m < k ==> r@[m] == ((bytes@[2 * m] as i8), (bytes@[2 * m + 1] as i8)),
        decreases n - k,
    {
        proof {
            vstd::arithmetic::div_mod::lemma_fundamental_div_mod(bytes@.len() as int, 2);
            assert(0 <= bytes@.len() % 2 < 2) by (nonlinear_arith);
            assert(2 * k + 1 < bytes@.len());
        }
        let i = bytes[2 * k] as i8;
        let q = bytes[2 * k + 1] as i8;
        r.push((i, q));
        k += 1;
    }
    r
}

/// Decodes a signed 8-bit real-only stream; the quadrature part of every
/// sample is zero.
pub fn decode_real_i8(bytes: &[u8]) -> (r: Vec<(i8, i8)>)
    ensures
        r@.len() == bytes@.len(),
        forall|k: int| 0 <= k < r@.len() ==> r@[k] == ((bytes@[k] as i8), 0i8),
{
    let mut r: Vec<(i8, i8)> = Vec::new();
    let n = bytes.len();
    let mut k: usize = 0;
    while k < n
        invariant
            k <= n,
            n == bytes@.len(),
            r@.len() == k,
            forall|m: int| 0 <= m < k ==> r@[m] == ((bytes@[m] as i8), 0i8),
        decreases n - k,
    {
        let i = bytes[k] as i8;
        r.push((i, 0));
        k += 1;
    }
    r
}

/// Decodes an interleaved little-endian signed 16-bit I, Q stream; a
/// trailing incomplete sample is dropped.
pub fn decode_pair_i16(bytes: &[u8]) -> (r: Vec<(i16, i16)>)
    ensures
        r@.len() == bytes@.len() / 4,
        forall|k: int|
            0 <= k < r@.len() ==> r@[k] == (
                spec_le16(bytes@[4 * k], bytes@[4 * k + 1]),
                spec_le16(bytes@[4 * k + 2], bytes@[4 * k + 3]),
            ),
{
    let mut r: Vec<(i16, i16)> = Vec::new();
    let n = bytes.len() / 4;
    let mut k: usize = 0;
    while k < n
        invariant
            k <= n,
            n == bytes@.len() / 4,
            bytes@.len() <= usize::MAX,
            r@.len() == k,
            forall|m: int|
                0 <= m < k ==> r@[m] == (
                    spec_le16(bytes@[4 * m], bytes@[4 * m + 1]),
                    spec_le16(bytes@[4 * m + 2], bytes@[4 * m + 3]),
                ),
        decreases n - k,
    {
        proof {
            vstd::arithmetic::div_mod::lemma_fundamental_div_mod(bytes@.len() as int, 4);
            assert(0 <= bytes@.len() % 4 < 4) by (nonlinear_arith);
            assert(4 * k + 3 < bytes@.len());
        }
        let i = #[verifier::truncate] (((bytes[4 * k] as u16) | ((bytes[4 * k + 1] as u16) << 8u16)) as i16);
        let q = #[verifier::truncate] (((bytes[4 * k + 2] as u16) | ((bytes[4 * k + 3] as u16) << 8u16)) as i16);
        r.push((i, q));
        k += 1;
    }
    r
}

} // verus!
