//! Checksums as they are stored: a digest, written in lower-case
//! hexadecimal.

use md5::Md5;
use sha2::{Digest, Sha512};
use vstd::prelude::*;
use vstd::string::*;
use vstd::utf8::encode_utf8;

verus! {

/// The SHA-512 digest of the bytes.
pub uninterp spec fn sha512(data: Seq<u8>) -> Seq<u8>;

/// The MD5 digest of the bytes.
pub uninterp spec fn md5(data: Seq<u8>) -> Seq<u8>;

/// Calls `Sha512::digest`. Believed, not proved: the result is the value
/// that contracts call `sha512`.
#[verifier::external_body]
fn sha512_digest(data: &[u8]) -> (digest: Vec<u8>)
    ensures
        digest@ == sha512(data@),
{
    Sha512::digest(data).to_vec()
}

/// Calls `Md5::digest`. Believed, not proved: the result is the value that
/// contracts call `md5`.
#[verifier::external_body]
fn md5_digest(data: &[u8]) -> (digest: Vec<u8>)
    ensures
        digest@ == md5(data@),
{
    Md5::digest(data).to_vec()
}

/// The hexadecimal digit for a number below sixteen.
pub open spec fn hex_digit(nibble: int) -> char {
    if nibble == 0 {
        '0'
    } else if nibble == 1 {
        '1'
    } else if nibble == 2 {
        '2'
    } else if nibble == 3 {
        '3'
    } else if nibble == 4 {
        '4'
    } else if nibble == 5 {
        '5'
    } else if nibble == 6 {
        '6'
    } else if nibble == 7 {
        '7'
    } else if nibble == 8 {
        '8'
    } else if nibble == 9 {
        '9'
    } else if nibble == 10 {
        'a'
    } else if nibble == 11 {
        'b'
    } else if nibble == 12 {
        'c'
    } else if nibble == 13 {
        'd'
    } else if nibble == 14 {
        'e'
    } else {
        'f'
    }
}

/// The bytes in hexadecimal: two digits for each byte, the high half first.
pub open spec fn lower_hex(bytes: Seq<u8>) -> Seq<char>
    decreases bytes.len(),
{
    if bytes.len() == 0 {
        Seq::empty()
    } else {
        lower_hex(bytes.drop_last()) + seq![
            hex_digit(bytes.last() as int / 16),
            hex_digit(bytes.last() as int % 16),
        ]
    }
}

/// The SHA-512 digest of the text's UTF-8 bytes, in hexadecimal.
pub open spec fn sha512_hex(text: Seq<char>) -> Seq<char> {
    lower_hex(sha512(encode_utf8(text)))
}

/// The MD5 digest of the bytes, in hexadecimal.
pub open spec fn md5_hex(data: Seq<u8>) -> Seq<char> {
    lower_hex(md5(data))
}

/// The hexadecimal digit for a number below sixteen, as a string.
fn digit(nibble: u8) -> (text: &'static str)
    requires
        nibble < 16,
    ensures
        text@ == seq![hex_digit(nibble as int)],
{
    proof {
        reveal_strlit("0");
        reveal_strlit("1");
        reveal_strlit("2");
        reveal_strlit("3");
        reveal_strlit("4");
        reveal_strlit("5");
        reveal_strlit("6");
        reveal_strlit("7");
        reveal_strlit("8");
        reveal_strlit("9");
        reveal_strlit("a");
        reveal_strlit("b");
        reveal_strlit("c");
        reveal_strlit("d");
        reveal_strlit("e");
        reveal_strlit("f");
    }
    let text = if nibble == 0 {
        "0"
    } else if nibble == 1 {
        "1"
    } else if nibble == 2 {
        "2"
    } else if nibble == 3 {
        "3"
    } else if nibble == 4 {
        "4"
    } else if nibble == 5 {
        "5"
    } else if nibble == 6 {
        "6"
    } else if nibble == 7 {
        "7"
    } else if nibble == 8 {
        "8"
    } else if nibble == 9 {
        "9"
    } else if nibble == 10 {
        "a"
    } else if nibble == 11 {
        "b"
    } else if nibble == 12 {
        "c"
    } else if nibble == 13 {
        "d"
    } else if nibble == 14 {
        "e"
    } else {
        "f"
    };
    assert(text@ =~= seq![hex_digit(nibble as int)]);
    text
}

/// Writes the bytes in lower-case hexadecimal.
pub fn to_lower_hex(bytes: &[u8]) -> (text: String)
    ensures
        text@ == lower_hex(bytes@),
{
    let mut text = String::new();
    let mut i: usize = 0;
    assert(bytes@.take(0) =~= Seq::<u8>::empty());
    while i < bytes.len()
        invariant
            i <= bytes@.len(),
            text@ == lower_hex(bytes@.take(i as int)),
        decreases bytes@.len() - i,
    {
        let byte = bytes[i];
        proof {
            assert(bytes@.take(i + 1).drop_last() =~= bytes@.take(i as int));
            assert(bytes@.take(i + 1).last() == byte);
        }
        text.append(digit(byte / 16));
        text.append(digit(byte % 16));
        assert(text@ =~= lower_hex(bytes@.take(i + 1)));
        i += 1;
    }
    assert(bytes@.take(i as int) =~= bytes@);
    text
}

/// The SHA-512 digest of the text, in lower-case hexadecimal.
pub fn sha512_hex_of(text: &str) -> (hash: String)
    ensures
        hash@ == sha512_hex(text@),
{
    let digest = sha512_digest(text.as_bytes());
    to_lower_hex(digest.as_slice())
}

/// The MD5 digest of the bytes, in lower-case hexadecimal.
pub fn md5_hex_of(data: &[u8]) -> (hash: String)
    ensures
        hash@ == md5_hex(data@),
{
    let digest = md5_digest(data);
    to_lower_hex(digest.as_slice())
}

} // verus!
