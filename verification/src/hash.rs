//! The 32-byte fingerprint of extracted text and its hexadecimal form.

use sha2::{Digest, Sha256};
use vstd::prelude::*;
use vstd::string::{StringExecFns, StringSliceAdditionalSpecFns};

verus! {

/// Number of bytes in a fingerprint.
pub const HASH_LEN: usize = 32;

/// Number of hexadecimal digits that write a fingerprint.
pub const HEX_LEN: usize = 64;

/// Whether `b` is an ASCII decimal digit.
pub open spec fn is_dec_digit(b: u8) -> bool {
    0x30 <= b <= 0x39
}

/// Whether `b` is an ASCII hexadecimal digit of either case.
pub open spec fn is_hex_digit(b: u8) -> bool {
    is_dec_digit(b) || (0x41 <= b <= 0x46) || (0x61 <= b <= 0x66)
}

/// The value, 0 to 15, of a hexadecimal digit.
pub open spec fn hex_value(b: u8) -> int
    recommends
        is_hex_digit(b),
{
    if is_dec_digit(b) {
        b - 0x30
    } else if b >= 0x61 {
        b - 0x61 + 10
    } else {
        b - 0x41 + 10
    }
}

/// Whether `bytes` is exactly 64 hexadecimal digits.
pub open spec fn is_hash_text(bytes: Seq<u8>) -> bool {
    &&& bytes.len() == HEX_LEN
    &&& forall|i: int| 0 <= i < bytes.len() ==> is_hex_digit(#[trigger] bytes[i])
}

/// The 32 bytes that 64 hexadecimal digits write, two digits to a byte, the
/// high one first.
pub open spec fn hash_of_text(bytes: Seq<u8>) -> Seq<u8>
    recommends
        is_hash_text(bytes),
{
    Seq::new(
        HASH_LEN as nat,
        |i: int| (hex_value(bytes[2 * i]) * 16 + hex_value(bytes[2 * i + 1])) as u8,
    )
}

/// The lowercase hexadecimal digit for a value below 16.
pub open spec fn hex_digit(v: int) -> u8
    recommends
        0 <= v < 16,
{
    if v < 10 {
        (0x30 + v) as u8
    } else {
        (0x61 + v - 10) as u8
    }
}

/// The 64 lowercase hexadecimal digits that write `bytes`, as characters.
pub open spec fn text_of_hash(bytes: Seq<u8>) -> Seq<char>
    recommends
        bytes.len() == HASH_LEN,
{
    Seq::new(
        HEX_LEN as nat,
        |i: int|
            if i % 2 == 0 {
                hex_digit(bytes[i / 2] as int / 16) as char
            } else {
                hex_digit(bytes[i / 2] as int % 16) as char
            },
    )
}

/// The SHA-256 digest of `data`: 32 bytes, a function of the input alone.
pub uninterp spec fn sha256(data: Seq<u8>) -> Seq<u8>;

/// Calls `sha2::Sha256::digest`. The contract gives the digest its name; the
/// array type fixes its length.
#[verifier::external_body]
fn sha256_digest(data: &[u8]) -> (r: [u8; 32])
    ensures
        r@ == sha256(data@),
{
    Sha256::digest(data).into()
}

/// The error of [`Hash::from_hash_str`]: the text is not 64 hexadecimal digits.
#[derive(Debug, Clone, Copy, PartialEq, Eq, Structural)]
pub struct FromHashStrError {}

impl FromHashStrError {
    /// The failure in words.
    pub fn to_string(&self) -> (r: String)
        ensures
            r@ == "Hash string must be hex digits of length 64"@,
    {
        "Hash string must be hex digits of length 64".to_owned()
    }
}

/// A SHA-256 digest.
#[derive(Debug, Clone, Copy, Eq, PartialOrd, Ord, Hash)]
pub struct Hash(pub [u8; 32]);

impl View for Hash {
    type V = Seq<u8>;

    open spec fn view(&self) -> Seq<u8> {
        self.0@
    }
}

impl PartialEq for Hash {
    fn eq(&self, other: &Hash) -> (r: bool) {
        let mut i: usize = 0;
        while i < 32
            invariant
                i <= 32,
                forall|k: int| 0 <= k < i ==> self.0@[k] == other.0@[k],
            decreases 32 - i,
        {
            if self.0[i] != other.0[i] {
                return false;
            }
            i += 1;
        }
        assert(self.0@ =~= other.0@);
        true
    }
}

impl vstd::std_specs::cmp::PartialEqSpecImpl for Hash {
    open spec fn obeys_eq_spec() -> bool {
        true
    }

    open spec fn eq_spec(&self, other: &Hash) -> bool {
        self@ == other@
    }
}

impl From<[u8; 32]> for Hash {
    fn from(bytes: [u8; 32]) -> (r: Hash) {
        Hash(bytes)
    }
}

impl vstd::std_specs::convert::FromSpecImpl<[u8; 32]> for Hash {
    open spec fn obeys_from_spec() -> bool {
        true
    }

    open spec fn from_spec(bytes: [u8; 32]) -> Hash {
        Hash(bytes)
    }
}

/// The value of one byte read as a hexadecimal digit, if it is one.
fn digit_value(b: u8) -> (r: Option<u8>)
    ensures
        r.is_some() <==> is_hex_digit(b),
        r.is_some() ==> r.unwrap() == hex_value(b),
{
    if 0x30 <= b && b <= 0x39 {
        Some(b - 0x30)
    } else if (0x41 <= b && b <= 0x46) || (0x61 <= b && b <= 0x66) {
        Some((b % 0x10) + 0x09)
    } else {
        None
    }
}

/// The text of one lowercase hexadecimal digit.
fn digit_text(v: u8) -> (r: &'static str)
    requires
        v < 16,
    ensures
        r@ == seq![hex_digit(v as int) as char],
{
    proof {
        reveal_strlit("0");
        reveal_strlit("1");
        reveal_strlit("2");
        reveal_strlit("3");
        reveal_strlit("4");
        reveal_strlit("5");
        reveal_strlit("6");
        reveal_strlit("7");
        reveal_strlit("8");
        reveal_strlit("9");
        reveal_strlit("a");
        reveal_strlit("b");
        reveal_strlit("c");
        reveal_strlit("d");
        reveal_strlit("e");
        reveal_strlit("f");
    }
    let r = match v {
        0 => "0",
        1 => "1",
        2 => "2",
        3 => "3",
        4 => "4",
        5 => "5",
        6 => "6",
        7 => "7",
        8 => "8",
        9 => "9",
        10 => "a",
        11 => "b",
        12 => "c",
        13 => "d",
        14 => "e",
        _ => "f",
    };
    assert(r@ =~= seq![hex_digit(v as int) as char]);
    r
}

impl Hash {
    /// The SHA-256 digest of `v`.
    pub fn new(v: &[u8]) -> (r: Hash)
        ensures
            r@ == sha256(v@),
    {
        Hash(sha256_digest(v))
    }

    /// The fingerprint as 64 lowercase hexadecimal digits.
    pub fn to_string(&self) -> (r: String)
        ensures
            r@ == text_of_hash(self@),
    {
        let mut out = String::new();
        let mut i: usize = 0;
        while i < 32
            invariant
                i <= 32,
                out@.len() == 2 * i,
                forall|k: int| 0 <= k < 2 * i ==> out@[k] == text_of_hash(self@)[k],
            decreases 32 - i,
        {
            let b = self.0[i];
            out.append(digit_text(b / 16));
            out.append(digit_text(b % 16));
            i += 1;
        }
        assert(out@ =~= text_of_hash(self@));
        out
    }

    /// Reads a fingerprint from its hexadecimal form: exactly 64 digits, of
    /// either case.
    pub fn from_hash_str(s: &str) -> (r: Result<Hash, FromHashStrError>)
        ensures
            r.is_ok() <==> is_hash_text(s.spec_bytes()),
            r.is_ok() ==> r.unwrap()@ == hash_of_text(s.spec_bytes()),
    {
        let bytes = s.as_bytes();
        if bytes.len() != 64 {
            return Err(FromHashStrError {});
        }
        let mut buf = [0u8; 32];
        let mut i: usize = 0;
        while i < 32
            invariant
                i <= 32,
                bytes@.len() == 64,
                bytes@ == s.spec_bytes(),
                forall|k: int| 0 <= k < 2 * i ==> is_hex_digit(#[trigger] bytes@[k]),
                forall|k: int|
                    0 <= k < i ==> #[trigger] buf@[k] == hash_of_text(bytes@)[k],
            decreases 32 - i,
        {
            let a = match digit_value(bytes[2 * i]) {
                Some(a) => a,
                None => {
                    return Err(FromHashStrError {});
                },
            };
            let b = match digit_value(bytes[2 * i + 1]) {
                Some(b) => b,
                None => {
                    return Err(FromHashStrError {});
                },
            };
            buf[i] = a * 0x10 + b;
            i += 1;
        }
        assert(buf@ =~= hash_of_text(bytes@));
        Ok(Hash(buf))
    }
}

/// The hexadecimal form of a fingerprint is 64 hexadecimal digits, and
/// reading it back gives the fingerprint: writing then reading changes
/// nothing.
pub proof fn lemma_hex_round_trip(bytes: Seq<u8>)
    requires
        bytes.len() == HASH_LEN,
    ensures
        is_hash_text(vstd::utf8::encode_utf8(text_of_hash(bytes))),
        hash_of_text(vstd::utf8::encode_utf8(text_of_hash(bytes))) == bytes,
{
    let text = text_of_hash(bytes);
    let enc = vstd::utf8::encode_utf8(text);
    assert(vstd::utf8::is_ascii_chars(text));
    vstd::utf8::is_ascii_chars_encode_utf8(text);
    assert forall|i: int| 0 <= i < enc.len() implies is_hex_digit(#[trigger] enc[i]) by {
        assert(text[i] as u8 == enc[i]);
    }
    assert forall|i: int| 0 <= i < HASH_LEN implies #[trigger] hash_of_text(enc)[i]
        == bytes[i] by {
        assert(text[2 * i] as u8 == enc[2 * i]);
        assert(text[2 * i + 1] as u8 == enc[2 * i + 1]);
        let b = bytes[i] as int;
        assert(hex_value(hex_digit(b / 16)) == b / 16);
        assert(hex_value(hex_digit(b % 16)) == b % 16);
    }
    assert(hash_of_text(enc) =~= bytes);
}

} // verus!
