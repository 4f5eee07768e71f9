use saturn_payouts::address::{
    be8_bytes, checksum_input, decode, delegated_from_bytes, encode_eth, eth_bytes,
    filecoin_to_eth_address, parse_namespace, read_network, read_protocol, seal_delegated,
    split_checksum, Address, AddressError, Network, Protocol,
};

const DELEGATED: &str = "t410fkkld55ioe7qg24wvt7fu6pbknb56ht7pt4zamxa";

const SUB_ADDRESS: [u8; 20] = [
    0x52, 0x96, 0x3e, 0xf5, 0x0e, 0x27, 0xe0, 0x6d, 0x72, 0xd5, 0x9f, 0xcb, 0x4f, 0x3c, 0x2a,
    0x68, 0x7b, 0xe3, 0xcf, 0xef,
];

fn decoded_body() -> Vec<u8> {
    base32::decode(base32::Alphabet::RFC4648 { padding: false }, &DELEGATED[5..]).unwrap()
}

fn text_of(body: &[u8]) -> String {
    let encoded = base32::encode(base32::Alphabet::RFC4648 { padding: false }, body);
    format!("t410f{}", encoded.to_lowercase())
}

#[test]
fn id_addresses_round_trip() {
    assert_eq!(
        filecoin_to_eth_address("t01").unwrap(),
        "0xff00000000000000000000000000000000000001"
    );
    assert_eq!(
        filecoin_to_eth_address("t0100").unwrap(),
        "0xff00000000000000000000000000000000000064"
    );
    assert_eq!(
        filecoin_to_eth_address("t05088").unwrap(),
        "0xff000000000000000000000000000000000013e0"
    );
}

#[test]
fn delegated_address_round_trips() {
    assert_eq!(
        filecoin_to_eth_address("t410fkkld55ioe7qg24wvt7fu6pbknb56ht7pt4zamxa").unwrap(),
        "0x52963ef50e27e06d72d59fcb4f3c2a687be3cfef"
    );
}

#[test]
fn id_payload_is_leb128() {
    let addr = decode("f05088").unwrap();
    assert_eq!(addr.network(), Network::Main);
    assert_eq!(addr.protocol(), Protocol::Id);
    assert_eq!(addr.payload(), &[0xe0u8, 0x27][..]);
    let one = decode("t01").unwrap();
    assert_eq!(one.network(), Network::Test);
    assert_eq!(one.payload(), &[1u8][..]);
}

#[test]
fn delegated_payload_is_namespace_and_sub_address() {
    let addr = decode("f410fkkld55ioe7qg24wvt7fu6pbknb56ht7pt4zamxa").unwrap();
    assert_eq!(addr.network(), Network::Main);
    assert_eq!(addr.protocol(), Protocol::Delegated);
    let mut expected: Vec<u8> = vec![0, 0, 0, 0, 0, 0, 0, 10];
    expected.extend_from_slice(&[
        0x52, 0x96, 0x3e, 0xf5, 0x0e, 0x27, 0xe0, 0x6d, 0x72, 0xd5, 0x9f, 0xcb, 0x4f, 0x3c,
        0x2a, 0x68, 0x7b, 0xe3, 0xcf, 0xef,
    ]);
    assert_eq!(addr.payload(), &expected[..]);
}

#[test]
fn largest_accepted_id() {
    assert_eq!(
        filecoin_to_eth_address("f09999999999999999999").unwrap(),
        "0xff00000000000000000000008ac7230489e7ffff"
    );
}

#[test]
fn malformed_texts_are_refused() {
    assert_eq!(decode(""), Err(AddressError::InvalidAddress));
    assert_eq!(decode("t0"), Err(AddressError::InvalidAddress));
    assert_eq!(decode("x01"), Err(AddressError::InvalidCointype));
    assert_eq!(decode("F01"), Err(AddressError::InvalidCointype));
    assert_eq!(decode("t51"), Err(AddressError::InvalidProtocol));
    assert_eq!(decode("tx1"), Err(AddressError::InvalidProtocol));
    assert_eq!(decode("t0abc"), Err(AddressError::InvalidAddress));
    assert_eq!(decode("t0+5"), Err(AddressError::InvalidAddress));
    assert_eq!(decode("t0 5"), Err(AddressError::InvalidAddress));
    assert_eq!(decode("t010000000000000000000"), Err(AddressError::InvalidAddress));
    assert_eq!(decode("t0\u{e9}1"), Err(AddressError::InvalidAddress));
}

#[test]
fn key_addresses_need_a_lookup() {
    assert_eq!(
        decode("t1ypi542zmmgaltijzw4byonei5c267ev5iif2liy"),
        Err(AddressError::RPCFailure)
    );
    assert_eq!(decode("f2aaaa"), Err(AddressError::RPCFailure));
    assert_eq!(decode("f3aaaa"), Err(AddressError::RPCFailure));
}

#[test]
fn malformed_delegated_texts_are_refused() {
    // no separator
    assert_eq!(decode("t41012345"), Err(AddressError::InvalidAddress));
    // empty namespace
    assert_eq!(
        decode("t4fkkld55ioe7qg24wvt7fu6pbknb56ht7pt4zamxa"),
        Err(AddressError::InvalidAddress)
    );
    // namespace that is no numeral
    assert_eq!(
        decode("t4x0fkkld55ioe7qg24wvt7fu6pbknb56ht7pt4zamxa"),
        Err(AddressError::InvalidAddress)
    );
    // namespace of twenty digits
    assert_eq!(
        decode("t400000000000000000010fkkld55ioe7qg24wvt7fu6pbknb56ht7pt4zamxa"),
        Err(AddressError::InvalidAddress)
    );
    // a character outside the alphabet
    assert_eq!(
        decode("t410fkkld55ioe7qg24wvt7fu6pbknb56ht7pt4zam!a"),
        Err(AddressError::InvalidBase32)
    );
    // fewer bytes than a checksum
    assert_eq!(decode("t410faa"), Err(AddressError::InvalidAddress));
    // a namespace of two LEB128 bytes
    assert_eq!(
        decode("t4128fkkld55ioe7qg24wvt7fu6pbknb56ht7pt4zamxa"),
        Err(AddressError::InvalidLeb128)
    );
    // another namespace under the same checksum
    assert_eq!(
        decode("t411fkkld55ioe7qg24wvt7fu6pbknb56ht7pt4zamxa"),
        Err(AddressError::InvalidChecksum)
    );
}

#[test]
fn decoding_twice_gives_the_same_address() {
    let text = "t410fkkld55ioe7qg24wvt7fu6pbknb56ht7pt4zamxa";
    assert_eq!(decode(text), decode(text));
    assert_eq!(decode("t05088"), decode("t05088"));
    assert_eq!(decode("q05088"), decode("q05088"));
}

#[test]
fn addresses_from_parts() {
    let id = Address::new(Network::Main, Protocol::Id, vec![0xe0, 0x27]).unwrap();
    assert_eq!(id, decode("f05088").unwrap());
    assert_eq!(
        Address::new(Network::Main, Protocol::Id, vec![0x80, 0x00]),
        Err(AddressError::InvalidLeb128)
    );
    assert_eq!(
        Address::new(Network::Main, Protocol::Id, vec![]),
        Err(AddressError::InvalidLeb128)
    );
    assert_eq!(
        Address::new(Network::Main, Protocol::Delegated, vec![0; 7]),
        Err(AddressError::InvalidAddress)
    );
    assert_eq!(
        Address::new(Network::Main, Protocol::Delegated, vec![0; 63]),
        Err(AddressError::InvalidAddress)
    );
    assert!(Address::new(Network::Main, Protocol::Delegated, vec![0; 62]).is_ok());
}

#[test]
fn conversions_that_are_refused() {
    let key = Address::new(Network::Test, Protocol::Secp256k1, vec![7; 20]).unwrap();
    assert_eq!(encode_eth(&key), Err(AddressError::UnsupportedProtocolConversion));
    let actor = Address::new(Network::Test, Protocol::Actor, vec![7; 20]).unwrap();
    assert_eq!(encode_eth(&actor), Err(AddressError::UnsupportedProtocolConversion));
    let bls = Address::new(Network::Test, Protocol::Bls, vec![7; 48]).unwrap();
    assert_eq!(encode_eth(&bls), Err(AddressError::UnsupportedProtocolConversion));
    let short = Address::new(Network::Test, Protocol::Delegated, vec![0; 19]).unwrap();
    assert_eq!(encode_eth(&short), Err(AddressError::InvalidAddress));
}

#[test]
fn delegated_conversion_takes_the_last_twenty_bytes() {
    let mut payload: Vec<u8> = vec![0, 0, 0, 0, 0, 0, 0, 10];
    payload.extend_from_slice(&[0xab; 22]);
    payload[8] = 0x01;
    payload[9] = 0x02;
    let addr = Address::new(Network::Main, Protocol::Delegated, payload).unwrap();
    assert_eq!(
        encode_eth(&addr).unwrap(),
        "0xabababababababababababababababababababab"
    );
}

#[test]
fn a_changed_checksum_byte_is_refused() {
    let body = decoded_body();
    assert_eq!(body.len(), 24);
    assert_eq!(text_of(&body), DELEGATED);
    for place in 20..24 {
        for bit in 0..8 {
            let mut altered = body.clone();
            altered[place] ^= 1 << bit;
            assert_eq!(decode(&text_of(&altered)), Err(AddressError::InvalidChecksum));
            assert_eq!(
                delegated_from_bytes(Network::Test, 10, Some(altered)),
                Err(AddressError::InvalidChecksum)
            );
        }
    }
}

#[test]
fn a_changed_sub_address_byte_is_refused() {
    let body = decoded_body();
    for place in 0..20 {
        for bit in 0..8 {
            let mut altered = body.clone();
            altered[place] ^= 1 << bit;
            assert_eq!(decode(&text_of(&altered)), Err(AddressError::InvalidChecksum));
        }
    }
}

#[test]
fn a_changed_character_never_gives_another_address() {
    let good = decode(DELEGATED).unwrap();
    let alphabet = "abcdefghijklmnopqrstuvwxyz234567!";
    for place in 5..DELEGATED.len() {
        for c in alphabet.chars() {
            let mut chars: Vec<char> = DELEGATED.chars().collect();
            if chars[place] == c {
                continue;
            }
            chars[place] = c;
            let text: String = chars.into_iter().collect();
            match decode(&text) {
                Ok(addr) => assert_eq!(addr, good),
                Err(e) => assert!(
                    e == AddressError::InvalidChecksum || e == AddressError::InvalidBase32
                ),
            }
        }
    }
}

#[test]
fn steps_of_the_delegated_decoding() {
    let raw: Vec<char> = "10fkkld".chars().collect();
    assert_eq!(parse_namespace(&raw), Ok((10, 3)));
    let raw: Vec<char> = "f".chars().collect();
    assert_eq!(parse_namespace(&raw), Err(AddressError::InvalidAddress));
    let raw: Vec<char> = "0018446744073709551f".chars().collect();
    assert_eq!(parse_namespace(&raw), Ok((18446744073709551, 20)));

    assert_eq!(split_checksum(None), Err(AddressError::InvalidBase32));
    assert_eq!(split_checksum(Some(vec![1, 2, 3])), Err(AddressError::InvalidAddress));
    assert_eq!(split_checksum(Some(vec![1, 2, 3, 4])), Ok((vec![], vec![1, 2, 3, 4])));
    assert_eq!(
        split_checksum(Some(vec![9, 8, 1, 2, 3, 4])),
        Ok((vec![9, 8], vec![1, 2, 3, 4]))
    );
    assert!(split_checksum(Some(vec![0; 58])).is_ok());
    assert_eq!(split_checksum(Some(vec![0; 59])), Err(AddressError::InvalidAddress));

    assert_eq!(checksum_input(10, &[7, 8]), Ok(vec![4, 10, 7, 8]));
    assert_eq!(checksum_input(127, &[]), Ok(vec![4, 127]));
    assert_eq!(checksum_input(128, &[7, 8]), Err(AddressError::InvalidLeb128));

    let sealed = seal_delegated(Network::Main, 10, &[7, 8], &[1, 2, 3, 4], &[1, 2, 3, 4]).unwrap();
    assert_eq!(sealed.payload(), &[0u8, 0, 0, 0, 0, 0, 0, 10, 7, 8][..]);
    assert_eq!(
        seal_delegated(Network::Main, 10, &[7, 8], &[1, 2, 3, 4], &[1, 2, 3, 5]),
        Err(AddressError::InvalidChecksum)
    );
    assert_eq!(
        seal_delegated(Network::Main, 10, &[0; 55], &[1, 2, 3, 4], &[1, 2, 3, 4]),
        Err(AddressError::InvalidAddress)
    );
}

#[test]
fn the_checksum_is_the_digest_of_tag_namespace_and_sub_address() {
    let body = decoded_body();
    let mut input: Vec<u8> = vec![4, 10];
    input.extend_from_slice(&SUB_ADDRESS);
    let digest = blake2b_simd::Params::new().hash_length(4).hash(&input);
    assert_eq!(&body[20..], digest.as_bytes());
    let addr = delegated_from_bytes(Network::Test, 10, Some(body)).unwrap();
    assert_eq!(addr, decode(DELEGATED).unwrap());
}

#[test]
fn tags_are_read() {
    assert_eq!(read_network('f'), Some(Network::Main));
    assert_eq!(read_network('t'), Some(Network::Test));
    assert_eq!(read_network('T'), None);
    assert_eq!(read_protocol('0'), Some(Protocol::Id));
    assert_eq!(read_protocol('1'), Some(Protocol::Secp256k1));
    assert_eq!(read_protocol('2'), Some(Protocol::Actor));
    assert_eq!(read_protocol('3'), Some(Protocol::Bls));
    assert_eq!(read_protocol('4'), Some(Protocol::Delegated));
    assert_eq!(read_protocol('5'), None);
}

#[test]
fn twenty_byte_forms() {
    let id = decode("f01").unwrap();
    let mut expected = vec![0xffu8];
    expected.extend_from_slice(&[0; 18]);
    expected.push(1);
    assert_eq!(eth_bytes(&id), Ok(expected));
    assert_eq!(eth_bytes(&decode(DELEGATED).unwrap()), Ok(SUB_ADDRESS.to_vec()));
    assert_eq!(
        be8_bytes(0x0102030405060708),
        vec![1, 2, 3, 4, 5, 6, 7, 8]
    );
    assert_eq!(be8_bytes(u64::MAX), vec![0xff; 8]);
}

#[test]
fn clones_are_equal() {
    let addr = decode(DELEGATED).unwrap();
    assert_eq!(addr.clone(), addr);
}

#[test]
fn binary_forms() {
    assert_eq!(decode("f05088").unwrap().to_bytes(), vec![0x00, 0xe0, 0x27]);
    assert_eq!(decode("t00").unwrap().to_bytes(), vec![0x00, 0x00]);
    let mut expected = vec![0x04, 0x0a];
    expected.extend_from_slice(&SUB_ADDRESS);
    assert_eq!(decode(DELEGATED).unwrap().to_bytes(), expected);
    let key = Address::new(Network::Test, Protocol::Secp256k1, vec![7; 20]).unwrap();
    let mut expected = vec![0x01];
    expected.extend_from_slice(&[7; 20]);
    assert_eq!(key.to_bytes(), expected);
    let wide = Address::new(
        Network::Main,
        Protocol::Delegated,
        vec![0, 0, 0, 0, 0, 0, 0x01, 0x2c, 9, 9],
    )
    .unwrap();
    assert_eq!(wide.to_bytes(), vec![0x04, 0xac, 0x02, 9, 9]);
    let widest = Address::new(Network::Main, Protocol::Delegated, vec![0xff; 8]).unwrap();
    assert_eq!(
        widest.to_bytes(),
        vec![0x04, 0xff, 0xff, 0xff, 0xff, 0xff, 0xff, 0xff, 0xff, 0xff, 0x01]
    );
}
