use ed25519_dalek::Verifier;
use solana_tss::error::Error;
use solana_tss::serialization::{AggMessage1, PartialSignature, SecretAggStepOne};
use solana_tss::token::token_transfer_message;
use solana_tss::tss::{
    finalize_signature, key_agg, partial_sign, public_key_from_secret, sign_and_broadcast_token,
    step_one, step_one_with_nonces, step_two_token,
};

fn seed(b: u8) -> [u8; 32] {
    [b; 32]
}

fn pubkeys(seeds: &[[u8; 32]]) -> Vec<[u8; 32]> {
    seeds.iter().map(public_key_from_secret).collect()
}

fn stock_verify(pk: &[u8; 32], msg: &[u8], sig: &[u8; 64]) -> bool {
    let key = ed25519_dalek::PublicKey::from_bytes(pk).unwrap();
    let sig = ed25519_dalek::Signature::from(*sig);
    key.verify(msg, &sig).is_ok()
}

/// Runs both rounds for every party and returns the partial signatures.
fn run_parties(seeds: &[[u8; 32]], keys: &Vec<[u8; 32]>, msg: &Vec<u8>) -> Vec<PartialSignature> {
    let rounds: Vec<(AggMessage1, SecretAggStepOne)> = seeds.iter().map(step_one).collect();
    let firsts: Vec<AggMessage1> = rounds.iter().map(|r| r.0).collect();
    seeds
        .iter()
        .zip(rounds.iter())
        .map(|(s, r)| partial_sign(s, msg, keys, &firsts, &r.1).unwrap())
        .collect()
}

#[test]
fn test_key_aggregation() {
    let keys = pubkeys(&[seed(1), seed(2), seed(3)]);
    let agg_result = key_agg(&keys, None);
    assert!(agg_result.is_ok());
    let agg = agg_result.unwrap();
    assert_eq!(agg.agg_public_key.len(), 32);
    assert!(!keys.contains(&agg.agg_public_key));
    let agg_result_with_key = key_agg(&keys, Some(keys[0]));
    assert!(agg_result_with_key.is_ok());
}

#[test]
fn test_key_aggregation_with_invalid_key() {
    let keys = pubkeys(&[seed(1), seed(2), seed(3)]);
    let invalid_key = public_key_from_secret(&seed(4));
    let result = key_agg(&keys, Some(invalid_key));
    assert!(result.is_err());
    match result.unwrap_err() {
        Error::KeyPairIsNotInKeys => {}
        _ => panic!("Expected KeyPairIsNotInKeys error"),
    }
}

#[test]
fn test_single_key_aggregation() {
    let keys = pubkeys(&[seed(7)]);
    let result = key_agg(&keys, None);
    assert!(result.is_ok());
    let agg = result.unwrap();
    assert_eq!(agg.agg_public_key.len(), 32);
    assert_eq!(keys[0], agg.agg_public_key);
}

#[test]
fn key_aggregation_is_deterministic() {
    let keys = pubkeys(&[seed(1), seed(2), seed(3)]);
    let a = key_agg(&keys, None).unwrap();
    let b = key_agg(&keys, None).unwrap();
    assert_eq!(a, b);
}

#[test]
fn key_aggregation_depends_on_order() {
    let p = public_key_from_secret(&seed(1));
    let q = public_key_from_secret(&seed(2));
    let pq = key_agg(&vec![p, q], None).unwrap();
    let qp = key_agg(&vec![q, p], None).unwrap();
    assert_ne!(pq.agg_public_key, qp.agg_public_key);
}

#[test]
fn focus_not_in_list() {
    let keys = pubkeys(&[seed(1), seed(2)]);
    let fresh = public_key_from_secret(&seed(3));
    assert!(matches!(key_agg(&keys, Some(fresh)), Err(Error::KeyPairIsNotInKeys)));
}

#[test]
fn key_that_is_no_point_is_refused() {
    let mut order_two = [0xffu8; 32];
    order_two[0] = 0xec;
    order_two[31] = 0x7f;
    let keys = vec![public_key_from_secret(&seed(1)), order_two];
    assert!(matches!(key_agg(&keys, None), Err(Error::PointDeserializationFailed)));
}

#[test]
fn coefficients_differ_between_keys() {
    let keys = pubkeys(&[seed(1), seed(2)]);
    let a = key_agg(&keys, Some(keys[0])).unwrap();
    let b = key_agg(&keys, Some(keys[1])).unwrap();
    assert_eq!(a.agg_public_key, b.agg_public_key);
    assert_ne!(a.musig_coefficient, b.musig_coefficient);
}

#[test]
fn two_party_signature_verifies() {
    let seeds = [seed(1), seed(2)];
    let keys = pubkeys(&seeds);
    let msg: Vec<u8> = vec![0x68, 0x65, 0x6c, 0x6c, 0x6f, 0x21, 0x0a];
    let partials = run_parties(&seeds, &keys, &msg);
    assert_eq!(&partials[0].0[..32], &partials[1].0[..32]);
    let sig = finalize_signature(&keys, &msg, &partials).unwrap();
    let agg = key_agg(&keys, None).unwrap().agg_public_key;
    assert!(stock_verify(&agg, &msg, &sig));
    assert!(!stock_verify(&agg, b"hello?\n", &sig));
}

#[test]
fn three_party_signature_verifies_on_32_byte_message() {
    let seeds = [seed(1), seed(2), seed(3)];
    let keys = pubkeys(&seeds);
    let msg: Vec<u8> = (0u8..32).collect();
    let partials = run_parties(&seeds, &keys, &msg);
    let sig = finalize_signature(&keys, &msg, &partials).unwrap();
    let agg = key_agg(&keys, None).unwrap().agg_public_key;
    assert!(stock_verify(&agg, &msg, &sig));
}

#[test]
fn three_party_wrong_r_is_detected() {
    let seeds = [seed(1), seed(2), seed(3)];
    let keys = pubkeys(&seeds);
    let msg: Vec<u8> = vec![0x68, 0x65, 0x6c, 0x6c, 0x6f, 0x21, 0x0a];
    let mut partials = run_parties(&seeds, &keys, &msg);
    partials[1].0[5] ^= 0x01;
    assert!(matches!(finalize_signature(&keys, &msg, &partials), Err(Error::MismatchMessages)));
}

#[test]
fn tampered_scalar_fails_verification() {
    let seeds = [seed(1), seed(2)];
    let keys = pubkeys(&seeds);
    let msg: Vec<u8> = b"transfer".to_vec();
    let mut partials = run_parties(&seeds, &keys, &msg);
    partials[1].0[32] ^= 0x01;
    assert!(matches!(finalize_signature(&keys, &msg, &partials), Err(Error::InvalidSignature)));
}

#[test]
fn partial_signing_needs_own_key_in_list() {
    let keys = pubkeys(&[seed(1), seed(2)]);
    let (m, st) = step_one(&seed(3));
    let r = partial_sign(&seed(3), &b"m".to_vec(), &keys, &vec![m], &st);
    assert!(matches!(r, Err(Error::KeyPairIsNotInKeys)));
}

#[test]
fn step_one_gives_fresh_nonces() {
    let (m1, s1) = step_one(&seed(1));
    let (m2, _) = step_one(&seed(1));
    assert_eq!(m1.public_nonces, s1.public_nonces);
    assert_eq!(m1.sender, public_key_from_secret(&seed(1)));
    assert_ne!(m1.public_nonces.big_r0, m2.public_nonces.big_r0);
    assert_ne!(s1.private_nonces.r0, s1.private_nonces.r1);
}

#[test]
fn token_transfer_end_to_end() {
    let seeds = [seed(1), seed(2)];
    let keys = pubkeys(&seeds);
    let mint = [9u8; 32];
    let to = [8u8; 32];
    let blockhash = [7u8; 32];
    let rounds: Vec<(AggMessage1, SecretAggStepOne)> = seeds.iter().map(step_one).collect();
    let firsts: Vec<AggMessage1> = rounds.iter().map(|r| r.0).collect();
    let partials: Vec<PartialSignature> = seeds
        .iter()
        .zip(rounds.iter())
        .map(|(s, r)| {
            step_two_token(s, &mint, 1000, 6, &to, &blockhash, &keys, &firsts, &r.1, true).unwrap()
        })
        .collect();
    let bytes = sign_and_broadcast_token(&mint, 1000, 6, &to, &blockhash, &keys, &partials, true)
        .unwrap();
    let tx: solana_sdk::transaction::Transaction = bincode::deserialize(&bytes).unwrap();
    assert!(tx.verify().is_ok());
    assert_eq!(tx.message_data(), token_transfer_message(&mint, 1000, 6, &to, &tx.message.account_keys[0].to_bytes(), true, &blockhash));
    assert_eq!(tx.message.recent_blockhash.to_bytes(), blockhash);
    let agg = key_agg(&keys, None).unwrap().agg_public_key;
    assert_eq!(tx.message.account_keys[0].to_bytes(), agg);
    let other = sign_and_broadcast_token(&mint, 1000, 6, &to, &blockhash, &keys, &partials, false);
    assert!(matches!(other, Err(Error::InvalidSignature)));
}

#[test]
fn partial_signing_refuses_bad_nonces() {
    let seeds = [seed(1), seed(2)];
    let keys = pubkeys(&seeds);
    let (m1, st1) = step_one(&seeds[0]);
    let (m2, _) = step_one(&seeds[1]);
    let msg = b"m".to_vec();
    let mut bad_state = st1;
    bad_state.private_nonces.r0 = [0xffu8; 32];
    let r = partial_sign(&seeds[0], &msg, &keys, &vec![m1, m2], &bad_state);
    assert!(matches!(r, Err(Error::ScalarDeserializationFailed)));
    let mut bad_msg = m2;
    let mut order_two = [0xffu8; 32];
    order_two[0] = 0xec;
    order_two[31] = 0x7f;
    bad_msg.public_nonces.big_r1 = order_two;
    let r = partial_sign(&seeds[0], &msg, &keys, &vec![m1, bad_msg], &st1);
    assert!(matches!(r, Err(Error::PointDeserializationFailed)));
}

#[test]
fn own_first_message_is_skipped() {
    let seeds = [seed(1), seed(2)];
    let keys = pubkeys(&seeds);
    let msg = b"order".to_vec();
    let (m1, st1) = step_one(&seeds[0]);
    let (m2, _) = step_one(&seeds[1]);
    let with_own = partial_sign(&seeds[0], &msg, &keys, &vec![m1, m2], &st1).unwrap();
    let without_own = partial_sign(&seeds[0], &msg, &keys, &vec![m2], &st1).unwrap();
    assert_eq!(with_own, without_own);
}

fn nonce(b: u8) -> [u8; 32] {
    let mut n = [0u8; 32];
    n[0] = b;
    n[1] = 0x5a;
    n
}

#[test]
fn two_party_seeded_nonces_verify() {
    let seeds = [seed(1), seed(2)];
    let keys = pubkeys(&seeds);
    let msg: Vec<u8> = vec![0x68, 0x65, 0x6c, 0x6c, 0x6f, 0x21, 0x0a];
    let (ma, sa) = step_one_with_nonces(&seeds[0], &nonce(0x01), &nonce(0x11)).unwrap();
    let (mb, sb) = step_one_with_nonces(&seeds[1], &nonce(0x02), &nonce(0x12)).unwrap();
    let firsts = vec![ma, mb];
    let pa = partial_sign(&seeds[0], &msg, &keys, &firsts, &sa).unwrap();
    let pb = partial_sign(&seeds[1], &msg, &keys, &firsts, &sb).unwrap();
    assert_eq!(pa, partial_sign(&seeds[0], &msg, &keys, &vec![mb, ma], &sa).unwrap());
    let sig = finalize_signature(&keys, &msg, &vec![pa, pb]).unwrap();
    assert_eq!(sig, finalize_signature(&keys, &msg, &vec![pb, pa]).unwrap());
    let agg = key_agg(&keys, None).unwrap().agg_public_key;
    assert!(stock_verify(&agg, &msg, &sig));
}

#[test]
fn seeded_nonces_must_be_canonical() {
    assert!(matches!(
        step_one_with_nonces(&seed(1), &[0xffu8; 32], &nonce(1)),
        Err(Error::ScalarDeserializationFailed)
    ));
}

#[test]
fn missing_first_message_is_refused() {
    let seeds = [seed(1), seed(2), seed(3)];
    let keys = pubkeys(&seeds);
    let (m1, st1) = step_one(&seeds[0]);
    let (m2, _) = step_one(&seeds[1]);
    let r = partial_sign(&seeds[0], &b"m".to_vec(), &keys, &vec![m1, m2], &st1);
    assert!(matches!(r, Err(Error::MissingFirstMessage)));
}

#[test]
fn three_parties_agree_on_nonce_whatever_the_message_order() {
    let seeds = [seed(1), seed(2), seed(3)];
    let keys = pubkeys(&seeds);
    let msg = b"same R".to_vec();
    let rounds: Vec<(AggMessage1, SecretAggStepOne)> = seeds.iter().map(step_one).collect();
    let forward: Vec<AggMessage1> = rounds.iter().map(|r| r.0).collect();
    let backward: Vec<AggMessage1> = forward.iter().rev().cloned().collect();
    let p0 = partial_sign(&seeds[0], &msg, &keys, &forward, &rounds[0].1).unwrap();
    let p1 = partial_sign(&seeds[1], &msg, &keys, &backward, &rounds[1].1).unwrap();
    let p2 = partial_sign(&seeds[2], &msg, &keys, &forward, &rounds[2].1).unwrap();
    assert_eq!(&p0.0[..32], &p1.0[..32]);
    assert_eq!(&p0.0[..32], &p2.0[..32]);
    assert_eq!(p1, partial_sign(&seeds[1], &msg, &keys, &forward, &rounds[1].1).unwrap());
}
