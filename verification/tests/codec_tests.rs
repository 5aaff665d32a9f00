use universal_nft::codec::{decode, encode, CrossChainMessage, DecodeError, WIRE_TAG};

fn addr20(fill: u8) -> Vec<u8> {
    vec![fill; 20]
}

fn addr32(fill: u8) -> Vec<u8> {
    vec![fill; 32]
}

fn msg(token_id: u64, name: &[u8], symbol: &[u8], uri: &[u8], receiver: Vec<u8>, tag: u64) -> CrossChainMessage {
    CrossChainMessage {
        token_id,
        name: name.to_vec(),
        symbol: symbol.to_vec(),
        uri: uri.to_vec(),
        receiver,
        source_chain_tag: tag,
    }
}

fn assert_round_trip(m: &CrossChainMessage) {
    let bytes = encode(m);
    let back = decode(&bytes).expect("an encoding must decode");
    assert_eq!(back.token_id, m.token_id);
    assert_eq!(back.name, m.name);
    assert_eq!(back.symbol, m.symbol);
    assert_eq!(back.uri, m.uri);
    assert_eq!(back.receiver, m.receiver);
    assert_eq!(back.source_chain_tag, m.source_chain_tag);
}

#[test]
fn round_trip_ordinary_message() {
    assert_round_trip(&msg(7, b"Dragon", b"DRG", b"ipfs://dragon", addr20(0xAA), 1));
}

#[test]
fn round_trip_empty_strings() {
    assert_round_trip(&msg(1, b"", b"", b"", addr20(0), 0));
}

#[test]
fn round_trip_zero_token_id() {
    assert_round_trip(&msg(0, b"Zero", b"Z", b"uri:zero", addr32(3), 42));
}

#[test]
fn round_trip_home_identity_receiver() {
    assert_round_trip(&msg(u64::MAX, b"Max", b"MX", b"uri:max", addr32(0xFF), u64::MAX));
}

#[test]
fn round_trip_long_uri() {
    let uri = vec![b'u'; 100_000];
    assert_round_trip(&msg(5, b"Long", b"L", &uri, addr20(9), 2));
}

#[test]
fn encode_exact_bytes() {
    let m = msg(0x0102030405060708, b"ab", b"", b"c", vec![0x11; 20], 0x0A);
    let bytes = encode(&m);
    let mut expected: Vec<u8> = Vec::new();
    expected.push(WIRE_TAG);
    expected.extend_from_slice(&[0x08, 0x07, 0x06, 0x05, 0x04, 0x03, 0x02, 0x01]);
    expected.extend_from_slice(&[2, 0, 0, 0]);
    expected.extend_from_slice(b"ab");
    expected.extend_from_slice(&[0, 0, 0, 0]);
    expected.extend_from_slice(&[1, 0, 0, 0]);
    expected.extend_from_slice(b"c");
    expected.push(20);
    expected.extend_from_slice(&[0x11; 20]);
    expected.extend_from_slice(&[0x0A, 0, 0, 0, 0, 0, 0, 0]);
    assert_eq!(bytes, expected);
}

#[test]
fn decode_refuses_empty_input() {
    assert!(matches!(decode(&Vec::new()), Err(DecodeError::Malformed)));
}

#[test]
fn decode_refuses_wrong_tag() {
    let mut bytes = encode(&msg(3, b"n", b"s", b"u", addr20(1), 1));
    bytes[0] = WIRE_TAG.wrapping_add(1);
    assert!(matches!(decode(&bytes), Err(DecodeError::Malformed)));
}

#[test]
fn decode_refuses_truncated_input() {
    let bytes = encode(&msg(3, b"name", b"sym", b"uri", addr20(1), 1));
    for cut in 0..bytes.len() {
        let shorter = bytes[..cut].to_vec();
        assert!(matches!(decode(&shorter), Err(DecodeError::Malformed)));
    }
}

#[test]
fn decode_refuses_trailing_bytes() {
    let mut bytes = encode(&msg(3, b"n", b"s", b"u", addr20(1), 1));
    bytes.push(0);
    assert!(matches!(decode(&bytes), Err(DecodeError::Malformed)));
}

#[test]
fn decode_refuses_bad_address_width() {
    let m = msg(3, b"n", b"s", b"u", addr20(1), 1);
    let bytes = encode(&m);
    // the address-length byte sits 29 bytes before the end (1 + 20 + 8)
    let pos = bytes.len() - 29;
    assert_eq!(bytes[pos], 20);
    let mut bad = bytes.clone();
    bad[pos] = 21;
    assert!(matches!(decode(&bad), Err(DecodeError::Malformed)));
}

#[test]
fn decode_refuses_arbitrary_text() {
    let bytes = b"just some legacy command string".to_vec();
    assert!(matches!(decode(&bytes), Err(DecodeError::Malformed)));
}
