use solana_tss::serialization::{
    is_canonical_scalar, AggMessage1, Error, PartialSignature, PrivatePartialNonces,
    PublicPartialNonces, SecretAggStepOne, Tag,
};
use solana_tss::serialization::Serialize;
use solana_tss::tss::step_one;

fn sample() -> (AggMessage1, SecretAggStepOne) {
    step_one(&[5u8; 32])
}

fn group_order_bytes() -> [u8; 32] {
    let mut l = [0u8; 32];
    let low: [u8; 16] = [
        0xed, 0xd3, 0xf5, 0x5c, 0x1a, 0x63, 0x12, 0x58, 0xd6, 0x9c, 0xf7, 0xa2, 0xde, 0xf9, 0xde,
        0x14,
    ];
    l[..16].copy_from_slice(&low);
    l[31] = 0x10;
    l
}

#[test]
fn agg_message1_round_trip() {
    let (m, _) = sample();
    let mut bytes = Vec::new();
    m.serialize(&mut bytes);
    assert_eq!(bytes.len(), 97);
    assert_eq!(bytes[0], 1);
    assert_eq!(&bytes[65..], &m.sender[..]);
    assert_eq!(AggMessage1::deserialize(&bytes), Ok(m));
    let text = m.serialize_bs58();
    assert_eq!(text, bs58::encode(&bytes).into_string());
    assert_eq!(AggMessage1::deserialize_bs58(&text), Ok(m));
}

#[test]
fn secret_step_one_round_trip() {
    let (_, st) = sample();
    let mut bytes = Vec::new();
    st.serialize(&mut bytes);
    assert_eq!(bytes.len(), 129);
    assert_eq!(bytes[0], 3);
    assert_eq!(SecretAggStepOne::deserialize(&bytes), Ok(st));
    assert_eq!(SecretAggStepOne::deserialize_bs58(&st.serialize_bs58()), Ok(st));
}

#[test]
fn partial_signature_round_trip() {
    let (m, _) = sample();
    let mut sig = [0u8; 64];
    sig[..32].copy_from_slice(&m.public_nonces.big_r0);
    sig[32] = 42;
    let p = PartialSignature(sig);
    let mut bytes = Vec::new();
    p.serialize(&mut bytes);
    assert_eq!(bytes.len(), 65);
    assert_eq!(bytes[0], 2);
    assert_eq!(PartialSignature::deserialize(&bytes), Ok(p));
    assert_eq!(PartialSignature::deserialize_bs58(&p.serialize_bs58()), Ok(p));
}

#[test]
fn codec_tag_confusion() {
    let (m, _) = sample();
    let text = m.serialize_bs58();
    assert_eq!(
        PartialSignature::deserialize_bs58(&text),
        Err(Error::WrongTag { expected: Tag::PartialSignature, found: Tag::AggMessage1 })
    );
}

#[test]
fn tag_discrimination_where_sizes_align() {
    let (_, st) = sample();
    let mut bytes = Vec::new();
    st.serialize(&mut bytes);
    assert_eq!(
        AggMessage1::deserialize(&bytes),
        Err(Error::WrongTag { expected: Tag::AggMessage1, found: Tag::SecretAggStepOne })
    );
    assert_eq!(
        PartialSignature::deserialize(&bytes),
        Err(Error::WrongTag { expected: Tag::PartialSignature, found: Tag::SecretAggStepOne })
    );
}

#[test]
fn unknown_tag_is_wrong_tag() {
    let mut bytes = vec![9u8; 97];
    bytes[0] = 9;
    assert_eq!(
        AggMessage1::deserialize(&bytes),
        Err(Error::WrongTag { expected: Tag::AggMessage1, found: Tag::Unknown })
    );
}

#[test]
fn short_input_is_refused() {
    assert_eq!(
        AggMessage1::deserialize(&[1u8; 96]),
        Err(Error::InputTooShort { expected: 97, found: 96 })
    );
    assert_eq!(
        SecretAggStepOne::deserialize(&[]),
        Err(Error::InputTooShort { expected: 129, found: 0 })
    );
    assert_eq!(
        PartialSignature::deserialize(&[2u8; 10]),
        Err(Error::InputTooShort { expected: 65, found: 10 })
    );
}

#[test]
fn bad_base58_is_refused() {
    assert_eq!(AggMessage1::deserialize_bs58("0OIl"), Err(Error::BadBase58));
}

#[test]
fn invalid_point_is_refused() {
    let (m, _) = sample();
    let mut bytes = Vec::new();
    m.serialize(&mut bytes);
    let mut order_two = [0xffu8; 32];
    order_two[0] = 0xec;
    order_two[31] = 0x7f;
    bytes[1..33].copy_from_slice(&order_two);
    assert_eq!(AggMessage1::deserialize(&bytes), Err(Error::InvalidPoint));
}

#[test]
fn invalid_scalar_is_refused() {
    let (_, st) = sample();
    let mut bytes = Vec::new();
    st.serialize(&mut bytes);
    bytes[1..33].copy_from_slice(&group_order_bytes());
    assert_eq!(SecretAggStepOne::deserialize(&bytes), Err(Error::InvalidScalar));
}

#[test]
fn canonical_scalar_bound() {
    let l = group_order_bytes();
    assert!(!is_canonical_scalar(&l));
    let mut below = l;
    below[0] -= 1;
    assert!(is_canonical_scalar(&below));
    assert!(is_canonical_scalar(&[0u8; 32]));
    assert!(!is_canonical_scalar(&[0xffu8; 32]));
}

#[test]
fn tag_bytes() {
    assert_eq!(Tag::from_byte(1), Tag::AggMessage1);
    assert_eq!(Tag::from_byte(2), Tag::PartialSignature);
    assert_eq!(Tag::from_byte(3), Tag::SecretAggStepOne);
    assert_eq!(Tag::from_byte(0), Tag::Unknown);
    assert_eq!(Tag::from(200u8), Tag::Unknown);
    assert_eq!(Tag::SecretAggStepOne.to_byte(), 3);
    assert_eq!(Tag::PartialSignature.name(), "Partial Signature");
}

fn partial(r: &[u8; 32], s: u8) -> PartialSignature {
    let mut sig = [0u8; 64];
    sig[..32].copy_from_slice(r);
    sig[32] = s;
    PartialSignature(sig)
}

#[test]
fn aggregation_sums_scalars_in_any_order() {
    let (m, _) = sample();
    let r = m.public_nonces.big_r0;
    let a = vec![partial(&r, 1), partial(&r, 2), partial(&r, 200)];
    let b = vec![partial(&r, 200), partial(&r, 1), partial(&r, 2)];
    let sa = PartialSignature::aggregate_signatures(&a).unwrap();
    let sb = PartialSignature::aggregate_signatures(&b).unwrap();
    assert_eq!(sa, sb);
    assert_eq!(&sa[..32], &r[..]);
    assert_eq!(sa[32], 203);
    assert_eq!(&sa[33..], &[0u8; 31][..]);
}

#[test]
fn aggregation_reduces_modulo_order() {
    let (m, _) = sample();
    let r = m.public_nonces.big_r0;
    let mut top = group_order_bytes();
    top[0] -= 1;
    let mut s1 = [0u8; 64];
    s1[..32].copy_from_slice(&r);
    s1[32..].copy_from_slice(&top);
    let sum = PartialSignature::aggregate_signatures(&[PartialSignature(s1), partial(&r, 3)]).unwrap();
    assert_eq!(sum[32], 2);
    assert_eq!(&sum[33..], &[0u8; 31][..]);
}

#[test]
fn aggregation_errors() {
    assert_eq!(
        PartialSignature::aggregate_signatures(&[]),
        Err(Error::InputTooShort { expected: 1, found: 0 })
    );
    let (m, _) = sample();
    let r = m.public_nonces.big_r0;
    let mut other = r;
    other[3] ^= 0x10;
    assert_eq!(
        PartialSignature::aggregate_signatures(&[partial(&r, 1), partial(&other, 1)]),
        Err(Error::MismatchMessages)
    );
    let mut bad = partial(&r, 1);
    bad.0[32..].copy_from_slice(&group_order_bytes());
    assert_eq!(
        PartialSignature::aggregate_signatures(&[partial(&r, 1), bad]),
        Err(Error::InvalidScalar)
    );
    let mut order_two = [0xffu8; 32];
    order_two[0] = 0xec;
    order_two[31] = 0x7f;
    assert_eq!(
        PartialSignature::aggregate_signatures(&[partial(&order_two, 1)]),
        Err(Error::InvalidPoint)
    );
}

#[test]
fn nonces_structs_compare_by_bytes() {
    let n = PublicPartialNonces { big_r0: [1u8; 32], big_r1: [2u8; 32] };
    let p = PrivatePartialNonces { r0: [3u8; 32], r1: [4u8; 32] };
    let st = SecretAggStepOne { private_nonces: p, public_nonces: n };
    assert_eq!(st.size_hint(), 129);
}

#[test]
fn signature_halves_are_checked() {
    let (m, _) = sample();
    let r = m.public_nonces.big_r0;
    assert_eq!(PartialSignature::deserialize_r(&r), Ok(r));
    let mut order_two = [0xffu8; 32];
    order_two[0] = 0xec;
    order_two[31] = 0x7f;
    assert_eq!(PartialSignature::deserialize_r(&order_two), Err(Error::InvalidPoint));
    assert_eq!(PartialSignature::deserialize_s(&[7u8; 32]), Ok([7u8; 32]));
    assert_eq!(PartialSignature::deserialize_s(&group_order_bytes()), Err(Error::InvalidScalar));
    let p = partial(&r, 9);
    let parts = p.to_musig2_partial_signature().unwrap();
    assert_eq!(parts.big_r, r);
    assert_eq!(&parts.my_partial_s[..], &p.0[32..]);
    assert_eq!(partial(&order_two, 9).to_musig2_partial_signature(), Err(Error::InvalidPoint));
}

#[test]
fn serialize_trait_matches_inherent_methods() {
    let (m, st) = sample();
    let mut a = Vec::new();
    Serialize::serialize(&m, &mut a);
    assert_eq!(Serialize::size_hint(&m), a.len());
    assert_eq!(<AggMessage1 as Serialize>::deserialize(&a), Ok(m));
    let text = Serialize::serialize_bs58(&st);
    assert_eq!(<SecretAggStepOne as Serialize>::deserialize_bs58(&text), Ok(st));
}
