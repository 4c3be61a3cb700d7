//! Turning the bytes of a text file into a string.
//!
//! The encoding is told from a byte order mark where there is one; without
//! a mark, UTF-8 is tried first, then UTF-16 in both byte orders, and at
//! last UTF-8 with replacement characters.

use crate::error::EpubError;
use vstd::prelude::*;
use vstd::slice::{slice_subrange, slice_to_vec};
use vstd::utf8::{decode_utf8, valid_utf8};

verus! {

/// The text that `String::from_utf16` makes of `units`, or `None` where it
/// refuses them.
pub uninterp spec fn utf16_text(units: Seq<u16>) -> Option<Seq<char>>;

/// The text that `String::from_utf8_lossy` makes of `bytes`.
pub uninterp spec fn lossy_text(bytes: Seq<u8>) -> Seq<char>;

/// `String::from_utf8` accepts exactly the valid UTF-8 sequences, and
/// returns the text that they encode.
pub assume_specification[ String::from_utf8 ](vec: Vec<u8>) -> (r: Result<
    String,
    std::string::FromUtf8Error,
>)
    ensures
        r is Ok <==> valid_utf8(vec@),
        r matches Ok(text) ==> text@ == decode_utf8(vec@),
;

/// `String::from_utf16` returns the text named `utf16_text`, or an error
/// where there is none.
pub assume_specification[ String::from_utf16 ](v: &[u16]) -> (r: Result<
    String,
    std::string::FromUtf16Error,
>)
    ensures
        r is Ok <==> utf16_text(v@) is Some,
        r matches Ok(text) ==> Some(text@) == utf16_text(v@),
;

/// Calls `String::from_utf8_lossy`, which always returns a text.
#[verifier::external_body]
fn decode_lossy(bytes: &[u8]) -> (text: String)
    ensures
        text@ == lossy_text(bytes@),
{
    String::from_utf8_lossy(bytes).into_owned()
}

/// The order of the two bytes of a UTF-16 code unit.
#[derive(Clone, Copy, PartialEq, Eq, Structural)]
pub enum ByteOrder {
    /// The high byte comes first.
    Big,
    /// The low byte comes first.
    Little,
}

/// The code unit made of two bytes.
pub open spec fn code_unit(first: u8, second: u8, order: ByteOrder) -> u16 {
    match order {
        ByteOrder::Big => (first as u16 * 256 + second as u16) as u16,
        ByteOrder::Little => (second as u16 * 256 + first as u16) as u16,
    }
}

/// The code units that `bytes` holds, two bytes each; a last odd byte is
/// left out.
pub open spec fn code_units(bytes: Seq<u8>, order: ByteOrder) -> Seq<u16> {
    Seq::new(
        (bytes.len() / 2) as nat,
        |k: int| code_unit(bytes[2 * k], bytes[2 * k + 1], order),
    )
}

/// What decoding ends in.
pub enum Decoded {
    /// The text.
    Text(Seq<char>),
    /// There are fewer than four bytes.
    TooShort,
    /// A UTF-8 mark is followed by invalid UTF-8.
    BadUtf8,
    /// A UTF-16 mark is followed by invalid UTF-16.
    BadUtf16,
}

/// The text of `bytes`.
pub open spec fn decoded(bytes: Seq<u8>) -> Decoded {
    if bytes.len() < 4 {
        Decoded::TooShort
    } else if bytes[0] == 0xEF && bytes[1] == 0xBB && bytes[2] == 0xBF {
        if valid_utf8(bytes.skip(3)) {
            Decoded::Text(decode_utf8(bytes.skip(3)))
        } else {
            Decoded::BadUtf8
        }
    } else if bytes[0] == 0xFE && bytes[1] == 0xFF {
        match utf16_text(code_units(bytes.skip(2), ByteOrder::Big)) {
            Some(text) => Decoded::Text(text),
            None => Decoded::BadUtf16,
        }
    } else if bytes[0] == 0xFF && bytes[1] == 0xFE {
        match utf16_text(code_units(bytes.skip(2), ByteOrder::Little)) {
            Some(text) => Decoded::Text(text),
            None => Decoded::BadUtf16,
        }
    } else if valid_utf8(bytes) {
        Decoded::Text(decode_utf8(bytes))
    } else if bytes.len() % 2 == 0 && utf16_text(code_units(bytes, ByteOrder::Big)) is Some {
        Decoded::Text(utf16_text(code_units(bytes, ByteOrder::Big))->0)
    } else if bytes.len() % 2 == 0 && utf16_text(code_units(bytes, ByteOrder::Little)) is Some {
        Decoded::Text(utf16_text(code_units(bytes, ByteOrder::Little))->0)
    } else {
        Decoded::Text(lossy_text(bytes))
    }
}

/// Whether `r` reports the outcome `outcome`.
pub open spec fn reports(r: Result<String, EpubError>, outcome: Decoded) -> bool {
    match outcome {
        Decoded::Text(text) => r matches Ok(found) && found@ == text,
        Decoded::TooShort => r matches Err(EpubError::EmptyDataError),
        Decoded::BadUtf8 => r matches Err(EpubError::Utf8DecodeError { .. }),
        Decoded::BadUtf16 => r matches Err(EpubError::Utf16DecodeError { .. }),
    }
}

/// The UTF-16 code units of `bytes`.
pub fn units_of(bytes: &[u8], order: ByteOrder) -> (units: Vec<u16>)
    ensures
        units@ == code_units(bytes@, order),
{
    let mut units: Vec<u16> = Vec::new();
    let count = bytes.len() / 2;
    let mut k: usize = 0;
    while k < count
        invariant
            k <= count,
            count == bytes.len() / 2,
            units.len() == k,
            forall|j: int| 0 <= j < k ==> units[j] == code_unit(bytes[2 * j], bytes[2 * j + 1], order),
        decreases count - k,
    {
        let first = bytes[2 * k];
        let second = bytes[2 * k + 1];
        let unit: u16 = match order {
            ByteOrder::Big => first as u16 * 256 + second as u16,
            ByteOrder::Little => second as u16 * 256 + first as u16,
        };
        units.push(unit);
        k += 1;
    }
    assert(units@ =~= code_units(bytes@, order));
    units
}

/// Decoding the bytes of a text file into a string.
pub trait DecodeBytes {
    /// The text that these bytes encode.
    fn decode(&self) -> Result<String, EpubError>;
}

impl DecodeBytes for Vec<u8> {
    fn decode(&self) -> (r: Result<String, EpubError>)
        ensures
            reports(r, decoded(self@)),
    {
        decode_bytes(self.as_slice())
    }
}

/// The text that `bytes` encode.
pub fn decode_bytes(bytes: &[u8]) -> (r: Result<String, EpubError>)
    ensures
        reports(r, decoded(bytes@)),
{
    let n = bytes.len();
    if n < 4 {
        return Err(EpubError::EmptyDataError);
    }
    if bytes[0] == 0xEF && bytes[1] == 0xBB && bytes[2] == 0xBF {
        let body = slice_to_vec(slice_subrange(bytes, 3, n));
        return match String::from_utf8(body) {
            Ok(text) => Ok(text),
            Err(source) => Err(EpubError::Utf8DecodeError { source }),
        };
    }
    if bytes[0] == 0xFE && bytes[1] == 0xFF {
        let units = units_of(slice_subrange(bytes, 2, n), ByteOrder::Big);
        return match String::from_utf16(units.as_slice()) {
            Ok(text) => Ok(text),
            Err(source) => Err(EpubError::Utf16DecodeError { source }),
        };
    }
    if bytes[0] == 0xFF && bytes[1] == 0xFE {
        let units = units_of(slice_subrange(bytes, 2, n), ByteOrder::Little);
        return match String::from_utf16(units.as_slice()) {
            Ok(text) => Ok(text),
            Err(source) => Err(EpubError::Utf16DecodeError { source }),
        };
    }
    if let Ok(text) = String::from_utf8(slice_to_vec(bytes)) {
        return Ok(text);
    }
    if n % 2 == 0 {
        let units = units_of(bytes, ByteOrder::Big);
        if let Ok(text) = String::from_utf16(units.as_slice()) {
            return Ok(text);
        }
        let units = units_of(bytes, ByteOrder::Little);
        if let Ok(text) = String::from_utf16(units.as_slice()) {
            return Ok(text);
        }
    }
    Ok(decode_lossy(bytes))
}

} // verus!
