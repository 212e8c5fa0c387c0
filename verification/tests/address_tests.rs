use algo_codec::{Address, AddressError};
use sha2::{Digest, Sha512_256};

fn hashed_address() -> Address {
    let digest = Sha512_256::digest(b"randomString");
    let mut bytes = [0u8; 32];
    bytes.copy_from_slice(&digest);
    Address(bytes)
}

#[test]
fn unmarshall_checksum_address() {
    let short_addr = hashed_address();
    let result = Address::decode(&short_addr.encode());
    assert_eq!(result, Ok(short_addr));
}

#[test]
fn too_short() {
    let addr = "";
    assert_eq!(Address::decode(addr), Err(AddressError::WrongLength));
}

#[test]
fn wrong_checksum() {
    let short_addr = hashed_address();
    let mut short_addr_str = short_addr.encode();
    short_addr_str.pop();
    short_addr_str.push('1');
    let result = Address::decode(&short_addr_str);
    assert_eq!(result, Err(AddressError::InvalidBase32));
}

#[test]
fn wrong_checksum_space() {
    let short_addr = hashed_address();
    let mut short_addr_str = short_addr.encode();
    short_addr_str.pop();
    short_addr_str.push(' ');
    let result = Address::decode(&short_addr_str);
    assert_eq!(result, Err(AddressError::InvalidBase32));
}

#[test]
fn wrong_address_add_char() {
    let short_addr = hashed_address();
    let mut s = "4".to_owned();
    s.push_str(&short_addr.encode());
    let result = Address::decode(&s);
    assert_eq!(result, Err(AddressError::InvalidBase32));
}

#[test]
fn wrong_address_replace_char() {
    let short_addr = hashed_address();
    let mut short_addr_str = short_addr.encode();
    short_addr_str.remove(0);
    let mut s = "4".to_owned();
    s.push_str(&short_addr_str);
    let result = Address::decode(&s);
    assert_eq!(result, Err(AddressError::InvalidChecksum));
}

#[test]
fn wrong_address_invalid_char() {
    let short_addr = hashed_address();
    let mut s = " ".to_owned();
    s.push_str(&short_addr.encode());
    let result = Address::decode(&s);
    assert_eq!(result, Err(AddressError::InvalidBase32));
}

#[test]
fn human_readable() {
    let s = "J5YDZLPOHWB5O6MVRHNFGY4JXIQAYYM6NUJWPBSYBBIXH5ENQ4Z5LTJELU";
    let addr = Address::decode(s).unwrap();
    assert_eq!(&addr.encode(), s);
}

#[test]
fn non_canonical() {
    let addr = "J5YDZLPOHWB5O6MVRHNFGY4JXIQAYYM6NUJWPBSYBBIXH5ENQ4Z5LTJELU";
    let non_canonical = "J5YDZLPOHWB5O6MVRHNFGY4JXIQAYYM6NUJWPBSYBBIXH5ENQ4Z5LTJELV";

    assert_eq!(Address::decode(addr).is_ok(), true);
    assert_eq!(Address::decode(non_canonical), Err(AddressError::InvalidBase32));
}

#[test]
fn zero_address_sentinel() {
    let zero = Address([0u8; 32]);
    assert!(zero.is_zero());
    let mut one = [0u8; 32];
    one[31] = 1;
    assert!(!Address(one).is_zero());
}

#[test]
fn flipped_payload_byte_fails_checksum() {
    // Flip one byte inside the 32-byte payload while keeping the original
    // trailing checksum: the recomputed checksum no longer matches.
    let addr = hashed_address();
    let s = addr.encode();
    let decoded = data_encoding::BASE32_NOPAD.decode(s.as_bytes()).unwrap();
    let mut flipped = decoded.clone();
    flipped[0] ^= 0xff;
    let s2 = data_encoding::BASE32_NOPAD.encode(&flipped);
    assert_eq!(Address::decode(&s2), Err(AddressError::InvalidChecksum));
}

#[test]
fn overlong_decode_is_tolerated() {
    // A decode longer than 36 bytes is accepted when its trailing 4 bytes
    // match the checksum of its first 32: the value is those first 32 bytes.
    let addr = hashed_address();
    let digest = Sha512_256::digest(&addr.0);
    let checksum = &digest[28..];
    let mut buf = Vec::new();
    buf.extend_from_slice(&addr.0);
    buf.push(0xab); // extra payload byte inside the tolerated region
    buf.extend_from_slice(checksum);
    assert_eq!(buf.len(), 37);
    let s = data_encoding::BASE32_NOPAD.encode(&buf);
    assert_eq!(Address::decode(&s), Ok(addr));
}

#[test]
fn encoded_address_is_58_characters() {
    assert_eq!(hashed_address().encode().len(), 58);
}
