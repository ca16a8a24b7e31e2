use acsync::hashing::{md5_hex_of, sha512_hex_of, to_lower_hex};

#[test]
fn bytes_are_written_as_two_digits_each() {
    assert_eq!(to_lower_hex(&[]), "");
    assert_eq!(to_lower_hex(&[0]), "00");
    assert_eq!(to_lower_hex(&[0x0f, 0xf0]), "0ff0");
    assert_eq!(to_lower_hex(&[0xbe, 0xef, 0x01, 0x9a]), "beef019a");
    assert_eq!(to_lower_hex(&[0xff, 0x10, 0xab, 0xcd]), "ff10abcd");
    assert_eq!(
        to_lower_hex(&[0x01, 0x23, 0x45, 0x67, 0x89, 0xab, 0xcd, 0xef]),
        "0123456789abcdef"
    );
}

#[test]
fn every_byte_is_written_as_the_standard_library_writes_it() {
    for byte in 0..=255u8 {
        assert_eq!(to_lower_hex(&[byte]), format!("{:02x}", byte));
    }
}

#[test]
fn sha512_of_known_texts() {
    assert_eq!(
        sha512_hex_of("hello world"),
        "309ecc489c12d6eb4cc40f50c902f2b4d0ed77ee511a7c7a9bcd3ca86d4cd86f989dd35bc5ff499670da34255b45b0cfd830e81f605dcf7dc5542e93ae9cd76f"
    );
    assert_eq!(
        sha512_hex_of(""),
        "cf83e1357eefb8bdf1542850d66d8007d620e4050b5715dc83f4a921d36ce9ce47d0d13c5d85f2b0ff8318d2877eec2f63b931bd47417a81a538327af927da3e"
    );
    assert_eq!(
        sha512_hex_of("abc"),
        "ddaf35a193617abacc417349ae20413112e6fa4e89a97ea20a9eeee64b55d39a2192992a274fc1a836ba3c23a3feebbd454d4423643ce80e2a9ac94fa54ca49f"
    );
}

#[test]
fn md5_of_known_bytes() {
    assert_eq!(md5_hex_of(b"hello world"), "5eb63bbbe01eeed093cb22bb8f5acdc3");
    assert_eq!(md5_hex_of(b""), "d41d8cd98f00b204e9800998ecf8427e");
    assert_eq!(md5_hex_of(b"abc"), "900150983cd24fb0d6963f7d28e17f72");
}
