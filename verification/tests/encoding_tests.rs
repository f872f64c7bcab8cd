use eth_relay_core::calldata::{encode, EncodingError, EncodingLimits};
use eth_relay_core::extract::extract;
use eth_relay_core::felt::FieldElement;
use eth_relay_core::tx::{
    EcdsaSignature, SignedTransaction, TxBody, TxKind, U256, encode_unsigned,
};

fn body(kind: TxKind, chain_id: Option<u64>) -> TxBody {
    TxBody {
        kind,
        chain_id,
        nonce: 1,
        gas_price: 2,
        max_priority_fee_per_gas: 0,
        max_fee_per_gas: 0,
        gas_limit: 3,
        to: Some(vec![0x11u8; 20]),
        value: U256::new(0, 4),
        input: vec![0xab],
    }
}

fn dummy_signed(b: TxBody) -> SignedTransaction {
    SignedTransaction {
        body: b,
        signature: EcdsaSignature { r: U256::new(0, 0), s: U256::new(0, 0), odd_y_parity: false },
        hash: U256::new(0, 0),
    }
}

fn limits(max_felts: usize, enforce: bool) -> EncodingLimits {
    EncodingLimits {
        target_address: FieldElement { hi: 0, lo: 0x1234 },
        base_selector: FieldElement { hi: 0, lo: 0x5678 },
        max_felts,
        enforce,
    }
}

/// Reads the big-endian value of up to 31 bytes into (hi, lo) halves,
/// mirroring how a field element is compared in these tests.
fn be_halves(bytes: &[u8]) -> (u128, u128) {
    let n = bytes.len();
    let split = if n > 16 { n - 16 } else { 0 };
    let mut hi: u128 = 0;
    let mut lo: u128 = 0;
    for i in 0..split {
        hi = (hi << 8) | bytes[i] as u128;
    }
    for i in split..n {
        lo = (lo << 8) | bytes[i] as u128;
    }
    (hi, lo)
}

#[test]
fn rlp_uint_matches_reference_encoder() {
    let cases: Vec<u128> = vec![0, 1, 5, 127, 128, 255, 256, 1023, 0xffff, 0x10000, u64::MAX as u128];
    for n in cases {
        let mut ours: Vec<u8> = Vec::new();
        eth_relay_core::rlp::encode_uint(&mut ours, n);
        let theirs = alloy_rlp::encode(n);
        assert_eq!(ours, theirs);
    }
}

#[test]
fn rlp_bytes_matches_reference_encoder() {
    let cases: Vec<Vec<u8>> = vec![
        vec![],
        vec![0x00],
        vec![0x7f],
        vec![0x80],
        vec![0xab, 0xcd],
        vec![0x33; 55],
        vec![0x44; 56],
        vec![0x55; 300],
    ];
    for c in cases {
        let mut ours: Vec<u8> = Vec::new();
        eth_relay_core::rlp::encode_bytes(&mut ours, &c);
        let theirs = alloy_rlp::encode(&c[..]);
        assert_eq!(ours, theirs);
    }
}

#[test]
fn legacy_payload_is_the_replay_protected_item_list() {
    let b = body(TxKind::Legacy, Some(1));
    let payload = encode_unsigned(&b);
    let mut expected: Vec<u8> = Vec::new();
    expected.push(0xc0 + 30);
    expected.push(0x01); // nonce 1
    expected.push(0x02); // gas price 2
    expected.push(0x03); // gas limit 3
    expected.push(0x80 + 20); // 20-byte destination
    expected.extend_from_slice(&[0x11u8; 20]);
    expected.push(0x04); // value 4
    expected.push(0x81); // one input byte >= 0x80
    expected.push(0xab);
    expected.push(0x01); // chain id 1
    expected.push(0x80); // empty
    expected.push(0x80); // empty
    assert_eq!(payload, expected);
}

#[test]
fn legacy_payload_without_chain_id_has_no_trailer() {
    let b = body(TxKind::Legacy, None);
    let payload = encode_unsigned(&b);
    let mut expected: Vec<u8> = Vec::new();
    expected.push(0xc0 + 27);
    expected.push(0x01);
    expected.push(0x02);
    expected.push(0x03);
    expected.push(0x80 + 20);
    expected.extend_from_slice(&[0x11u8; 20]);
    expected.push(0x04);
    expected.push(0x81);
    expected.push(0xab);
    assert_eq!(payload, expected);
}

#[test]
fn dynamic_fee_payload_is_typed_with_empty_access_list() {
    let mut b = body(TxKind::DynamicFee, Some(1));
    b.max_priority_fee_per_gas = 5;
    b.max_fee_per_gas = 6;
    let payload = encode_unsigned(&b);
    let mut expected: Vec<u8> = Vec::new();
    expected.push(0x02); // type byte
    expected.push(0xc0 + 30);
    expected.push(0x01); // chain id
    expected.push(0x01); // nonce
    expected.push(0x05); // tip
    expected.push(0x06); // fee cap
    expected.push(0x03); // gas limit
    expected.push(0x80 + 20);
    expected.extend_from_slice(&[0x11u8; 20]);
    expected.push(0x04);
    expected.push(0x81);
    expected.push(0xab);
    expected.push(0xc0); // empty access list
    assert_eq!(payload, expected);
}

#[test]
fn split_halves_reconstruct_the_scalar() {
    let r = U256::new(0xaaaa_bbbb_cccc_dddd, 0x1111_2222_3333_4444);
    let s = U256::new(0x5555, 0x6666);
    let tx = SignedTransaction {
        body: body(TxKind::DynamicFee, Some(1)),
        signature: EcdsaSignature { r, s, odd_y_parity: true },
        hash: U256::new(0, 0),
    };
    let out = extract(&tx);
    assert_eq!(out.len(), 5);
    assert_eq!((out[0].hi, out[0].lo), (0, r.hi));
    assert_eq!((out[1].hi, out[1].lo), (0, r.lo));
    assert_eq!((out[2].hi, out[2].lo), (0, s.hi));
    assert_eq!((out[3].hi, out[3].lo), (0, s.lo));
    // the halves reassemble to the original 256-bit scalars
    assert_eq!(U256::new(out[0].lo, out[1].lo), r);
    assert_eq!(U256::new(out[2].lo, out[3].lo), s);
}

#[test]
fn recovery_element_follows_the_legacy_rule() {
    let sig = |odd: bool| EcdsaSignature {
        r: U256::new(0, 1),
        s: U256::new(0, 1),
        odd_y_parity: odd,
    };

    let legacy0 = SignedTransaction {
        body: body(TxKind::Legacy, Some(1)),
        signature: sig(false),
        hash: U256::new(0, 0),
    };
    assert_eq!(extract(&legacy0)[4].lo, 37);

    let legacy1 = SignedTransaction {
        body: body(TxKind::Legacy, Some(1)),
        signature: sig(true),
        hash: U256::new(0, 0),
    };
    assert_eq!(extract(&legacy1)[4].lo, 38);

    let chainless = SignedTransaction {
        body: body(TxKind::Legacy, None),
        signature: sig(true),
        hash: U256::new(0, 0),
    };
    assert_eq!(extract(&chainless)[4].lo, 28);

    let typed = SignedTransaction {
        body: body(TxKind::AccessList, Some(1)),
        signature: sig(true),
        hash: U256::new(0, 0),
    };
    assert_eq!(extract(&typed)[4].lo, 1);
}

#[test]
fn calldata_packs_length_then_31_byte_chunks() {
    let b = body(TxKind::Legacy, Some(1));
    let payload = encode_unsigned(&b);
    assert_eq!(payload.len(), 31);
    let tx = dummy_signed(b);
    let cd = encode(&tx, 0, &limits(100, true)).unwrap();
    // one chunk of exactly 31 bytes: 6 header slots + length + 1 chunk
    assert_eq!(cd.len(), 8);
    assert_eq!((cd[0].hi, cd[0].lo), (0, 1)); // call array length
    assert_eq!((cd[1].hi, cd[1].lo), (0, 0x1234)); // target contract
    assert_eq!((cd[2].hi, cd[2].lo), (0, 0x5678)); // selector, no retries
    assert_eq!((cd[3].hi, cd[3].lo), (0, 0)); // data offset
    assert_eq!((cd[4].hi, cd[4].lo), (0, 2)); // data length
    assert_eq!((cd[5].hi, cd[5].lo), (0, 2)); // calldata length
    assert_eq!((cd[6].hi, cd[6].lo), (0, 31)); // payload byte length
    let (hi, lo) = be_halves(&payload);
    assert_eq!((cd[7].hi, cd[7].lo), (hi, lo));
}

#[test]
fn packed_chunks_concatenate_back_to_the_payload() {
    let mut b = body(TxKind::Legacy, Some(1));
    b.input = (0u8..=59).collect(); // payload spills into a short last chunk
    let payload = encode_unsigned(&b);
    assert!(payload.len() > 31 && payload.len() % 31 != 0);
    let tx = dummy_signed(b);
    let cd = encode(&tx, 0, &limits(1000, true)).unwrap();
    let byte_len = cd[6].lo as usize;
    assert_eq!(byte_len, payload.len());
    let n_chunks = (byte_len + 30) / 31;
    assert_eq!(cd.len(), 7 + n_chunks);
    let mut rebuilt: Vec<u8> = Vec::new();
    for i in 0..n_chunks {
        let chunk_len = if 31 * (i + 1) <= byte_len { 31 } else { byte_len - 31 * i };
        let f = &cd[7 + i];
        let mut bytes = [0u8; 31];
        let mut lo = f.lo;
        let mut hi = f.hi;
        for j in (15..31).rev() {
            bytes[j] = (lo & 0xff) as u8;
            lo >>= 8;
        }
        for j in (0..15).rev() {
            bytes[j] = (hi & 0xff) as u8;
            hi >>= 8;
        }
        rebuilt.extend_from_slice(&bytes[31 - chunk_len..]);
    }
    assert_eq!(rebuilt, payload);
}

#[test]
fn over_limit_fails_exactly_when_enforced() {
    let b = body(TxKind::Legacy, Some(1));
    let tx = dummy_signed(b);
    // capacity is 8 for the 31-byte payload
    let r = encode(&tx, 0, &limits(7, true));
    assert_eq!(r, Err(EncodingError::CalldataExceededLimit(7, 8)));

    let r2 = encode(&tx, 0, &limits(7, false)).unwrap();
    assert_eq!(r2.len(), 8);

    let r3 = encode(&tx, 0, &limits(8, true)).unwrap();
    assert_eq!(r3.len(), 8);
}

#[test]
fn retries_shift_the_selector_injectively() {
    let b = body(TxKind::Legacy, Some(1));
    let tx = dummy_signed(b);
    let mut seen: Vec<(u128, u128)> = Vec::new();
    for retries in [0u8, 1, 2, 100, 255] {
        let cd = encode(&tx, retries, &limits(100, true)).unwrap();
        assert_eq!((cd[2].hi, cd[2].lo), (0, 0x5678 + retries as u128));
        let key = (cd[2].hi, cd[2].lo);
        assert!(!seen.contains(&key));
        seen.push(key);
    }
}

#[test]
fn contract_creation_encodes_an_empty_destination() {
    let mut b = body(TxKind::Legacy, None);
    b.to = None;
    b.input = vec![];
    let payload = encode_unsigned(&b);
    // items: nonce 01, gas price 02, gas limit 03, empty to 80, value 04, empty input 80
    let expected = vec![0xc0 + 6, 0x01, 0x02, 0x03, 0x80, 0x04, 0x80];
    assert_eq!(payload, expected);
}

#[test]
fn wide_values_take_the_shortest_big_endian_form() {
    assert_eq!(U256::new(0, 0).to_be_min(), Vec::<u8>::new());
    assert_eq!(U256::new(0, 0x01ff).to_be_min(), vec![0x01, 0xff]);
    let mut expected = vec![0x01];
    expected.extend_from_slice(&[0u8; 16]);
    assert_eq!(U256::new(1, 0).to_be_min(), expected);
    let mut expected2 = vec![0x01, 0x02];
    expected2.extend_from_slice(&[0u8; 15]);
    expected2.push(0x03);
    assert_eq!(U256::new(0x0102, 0x03).to_be_min(), expected2);
}
