use algo_codec::codec::{decode_value, Value};
use algo_codec::schema::encode_to_vec;
use algo_codec::{Address, Header, MicroAlgos};

fn sample_header() -> Header {
    let mut sender = [0u8; 32];
    sender[0] = 7;
    sender[31] = 9;
    Header {
        sender: Address(sender),
        fee: MicroAlgos(0),
        first_valid: 0,
        last_valid: 0,
        note: Vec::new(),
        genesis_id: String::new(),
        genesis_hash: [0u8; 32],
        group: [0u8; 32],
        lease: [0u8; 32],
        rekey_to: Address([0u8; 32]),
    }
}

#[test]
fn header_with_only_sender_encodes_one_field() {
    // A header with every field at its default except the sender encodes
    // as a record with exactly one entry, tagged "snd".
    let h = sample_header();
    let bytes = h.encode();
    let mut expected: Vec<u8> = Vec::new();
    expected.push(4); // record marker
    expected.extend_from_slice(&1u64.to_be_bytes()); // one entry
    expected.extend_from_slice(&3u64.to_be_bytes()); // tag length
    expected.extend_from_slice(b"snd");
    expected.push(2); // byte-string marker
    expected.extend_from_slice(&32u64.to_be_bytes());
    expected.extend_from_slice(&h.sender.0);
    assert_eq!(bytes, expected);
}

#[test]
fn header_encoding_is_deterministic() {
    // Two independently constructed, semantically identical headers encode
    // to byte-identical output.
    let h1 = sample_header();
    let h2 = sample_header();
    assert_eq!(h1.encode(), h2.encode());
}

#[test]
fn fully_default_header_encodes_empty_record() {
    let mut h = sample_header();
    h.sender = Address([0u8; 32]);
    let bytes = h.encode();
    let mut expected: Vec<u8> = Vec::new();
    expected.push(4);
    expected.extend_from_slice(&0u64.to_be_bytes());
    assert_eq!(bytes, expected);
}

#[test]
fn header_fields_present_when_set() {
    let mut h = sample_header();
    h.fee = MicroAlgos(1000);
    h.first_valid = 5;
    h.last_valid = 1005;
    h.genesis_id = "net-v1".to_owned();
    h.note = vec![1, 2, 3];
    let bytes = h.encode();
    // marker, entry count, then six sorted entries.
    assert_eq!(bytes[0], 4);
    assert_eq!(bytes[1..9], 6u64.to_be_bytes());
    // first tag is "fee"
    assert_eq!(bytes[9..17], 3u64.to_be_bytes());
    assert_eq!(&bytes[17..20], b"fee");
}

#[test]
fn value_round_trip_nested() {
    // Decoding a previously encoded value and re-encoding it reproduces
    // the original bytes exactly.
    let inner = Value::List(vec![
        Value::Uint(5),
        Value::Bytes(vec![9, 8, 7]),
    ]);
    let v = Value::Record(vec![
        (b"a".to_vec(), Value::Uint(0)),
        (b"bc".to_vec(), inner),
    ]);
    let bytes = encode_to_vec(&v);
    let (decoded, used) = decode_value(&bytes, 0).expect("canonical bytes decode");
    assert_eq!(used, bytes.len());
    let again = encode_to_vec(&decoded);
    assert_eq!(again, bytes);
}

#[test]
fn value_decode_rejects_garbage() {
    let garbage: Vec<u8> = vec![9, 1, 2, 3];
    assert!(decode_value(&garbage, 0).is_none());
    let empty: Vec<u8> = Vec::new();
    assert!(decode_value(&empty, 0).is_none());
}

#[test]
fn header_round_trip_through_value_codec() {
    let mut h = sample_header();
    h.fee = MicroAlgos(42);
    let bytes = h.encode();
    let (decoded, used) = decode_value(&bytes, 0).expect("header bytes decode");
    assert_eq!(used, bytes.len());
    assert_eq!(encode_to_vec(&decoded), bytes);
}
