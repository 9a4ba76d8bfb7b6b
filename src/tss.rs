//! The MuSig2 protocol steps: key aggregation, nonce generation, partial
//! signing and the verification of the aggregated signature.
use vstd::prelude::*;

use crate::error::Error;
use crate::group::{
    base_mul, canonical_scalar, group_order, le_bytes, le_value, lemma_le_bytes_zero,
    point_add, point_add_of, point_is_valid, point_mul, point_mul_of, scalar_bytes,
    scalar_from_wide, sha512, sha512_of, valid_point,
};
use crate::group::{
    base_mul_of, ed25519_verifies, public_key, public_key_of, random_scalar, scalar_add,
    scalar_mul, secret_scalar, secret_scalar_of, verify_signature,
};
use crate::serialization::{
    all_scalars_canonical, append_bytes, same_nonce, scalar_sum, sig_r,
    is_canonical_scalar, private_nonces_wf, public_nonces_wf, AggMessage1, PartialSignature,
    PrivatePartialNonces, PublicPartialNonces, SecretAggStepOne,
};
use crate::serialization;
use crate::token::{attach_signature, token_message, token_transfer_message, transaction_bytes};

verus! {

/// The aggregated public key of a participant list, with the coefficient of
/// one participant of the list.
#[derive(Debug, Clone, Copy, PartialEq, Eq)]
pub struct AggregatedKey {
    pub agg_public_key: [u8; 32],
    pub musig_coefficient: [u8; 32],
}

/// The participant keys, one after the other.
pub open spec fn keys_concat(keys: Seq<[u8; 32]>) -> Seq<u8>
    decreases keys.len(),
{
    if keys.len() == 0 {
        Seq::empty()
    } else {
        keys_concat(keys.drop_last()) + keys.last()@
    }
}

/// The digest that binds the coefficients to the whole ordered list.
pub open spec fn list_digest(keys: Seq<[u8; 32]>) -> Seq<u8> {
    sha512_of(keys_concat(keys))
}

/// A 64-byte digest reduced to a scalar.
pub open spec fn hash_scalar(h: Seq<u8>) -> Seq<u8> {
    scalar_bytes(le_value(h) % group_order())
}

/// The coefficient `a = H(L ‖ P)` of key `P` in list `L`; a list of one key
/// gives it the coefficient one, so that the key aggregates to itself.
pub open spec fn coefficient(keys: Seq<[u8; 32]>, p: Seq<u8>) -> Seq<u8> {
    if keys.len() == 1 {
        scalar_bytes(1)
    } else {
        hash_scalar(sha512_of(list_digest(keys) + p))
    }
}

/// `a_i · P_i` for the key at position `i`.
pub open spec fn weighted_key(keys: Seq<[u8; 32]>, i: int) -> Seq<u8> {
    point_mul_of(keys[i]@, coefficient(keys, keys[i]@))
}

/// The sum of the weighted keys at the first `n` positions, added in order.
pub open spec fn weighted_sum(keys: Seq<[u8; 32]>, n: nat) -> Seq<u8>
    decreases n,
{
    if n <= 1 {
        weighted_key(keys, 0)
    } else {
        point_add_of(weighted_sum(keys, (n - 1) as nat), weighted_key(keys, n - 1))
    }
}

/// The aggregated key `Σ a_i · P_i` of a list; a single key stands for itself.
pub open spec fn agg_key_of(keys: Seq<[u8; 32]>) -> Seq<u8> {
    if keys.len() == 1 {
        keys[0]@
    } else {
        weighted_sum(keys, keys.len())
    }
}

pub open spec fn contains_key(keys: Seq<[u8; 32]>, p: Seq<u8>) -> bool {
    exists|i: int| 0 <= i < keys.len() && #[trigger] keys[i]@ == p
}

pub open spec fn all_points_valid(keys: Seq<[u8; 32]>) -> bool {
    forall|i: int| 0 <= i < keys.len() ==> valid_point(#[trigger] keys[i]@)
}

/// The key whose coefficient is asked for: the one given, else the first.
pub open spec fn focus_of(keys: Seq<[u8; 32]>, key: Option<[u8; 32]>) -> Seq<u8> {
    match key {
        Some(k) => k@,
        None => keys[0]@,
    }
}

/// How aggregating `keys` with coefficient wanted for `key` must come out.
pub open spec fn key_agg_result(
    keys: Seq<[u8; 32]>,
    key: Option<[u8; 32]>,
    r: Result<AggregatedKey, Error>,
) -> bool {
    let f = focus_of(keys, key);
    if !contains_key(keys, f) {
        r == Err::<AggregatedKey, Error>(Error::KeyPairIsNotInKeys)
    } else if !all_points_valid(keys) {
        r == Err::<AggregatedKey, Error>(Error::PointDeserializationFailed)
    } else {
        r matches Ok(a) && a.agg_public_key@ == agg_key_of(keys) && a.musig_coefficient@
            == coefficient(keys, f) && canonical_scalar(a.musig_coefficient@)
    }
}

/// Whether two 32-byte strings are equal.
fn eq32(a: &[u8; 32], b: &[u8; 32]) -> (r: bool)
    ensures
        r == (a@ == b@),
{
    let mut k: usize = 0;
    while k < 32
        invariant
            k <= 32,
            forall|j: int| 0 <= j < k ==> a@[j] == b@[j],
        decreases 32 - k,
    {
        if a[k] != b[k] {
            return false;
        }
        k = k + 1;
    }
    assert(a@ =~= b@);
    true
}

fn has_key(keys: &Vec<[u8; 32]>, p: &[u8; 32]) -> (r: bool)
    ensures
        r == contains_key(keys@, p@),
{
    let mut i: usize = 0;
    while i < keys.len()
        invariant
            i <= keys@.len(),
            forall|j: int| 0 <= j < i ==> keys@[j]@ != p@,
        decreases keys@.len() - i,
    {
        if eq32(&keys[i], p) {
            return true;
        }
        i = i + 1;
    }
    false
}

/// The scalar that a 64-byte digest reduces to.
fn reduce_digest(h: &[u8; 64]) -> (r: [u8; 32])
    ensures
        r@ == hash_scalar(h@),
        le_value(r@) == le_value(h@) % group_order(),
        canonical_scalar(r@),
{
    let r = scalar_from_wide(h);
    proof {
        crate::group::lemma_group_order_pos();
        vstd::arithmetic::div_mod::lemma_mod_pos_bound(le_value(h@) as int, group_order() as int);
    }
    r
}

/// `H(L ‖ P)` reduced to a scalar, for the list digest `digest`.
fn hashed_coefficient(digest: &[u8; 64], p: &[u8; 32]) -> (r: [u8; 32])
    ensures
        r@ == hash_scalar(sha512_of(digest@ + p@)),
        canonical_scalar(r@),
{
    let mut data: Vec<u8> = Vec::new();
    append_bytes(&mut data, digest.as_slice());
    append_bytes(&mut data, p.as_slice());
    let h = sha512(&data);
    reduce_digest(&h)
}

/// The scalar one.
fn scalar_one() -> (r: [u8; 32])
    ensures
        r@ == scalar_bytes(1),
        canonical_scalar(r@),
{
    let mut r = [0u8; 32];
    r[0] = 1;
    proof {
        lemma_le_bytes_zero(31);
        assert(le_bytes(1, 32) == seq![1u8] + le_bytes(0, 31));
        assert(r@ =~= scalar_bytes(1));
        assert(r@ =~= seq![1u8] + r@.drop_first());
        crate::group::lemma_le_zero_pad(seq![1u8], r@.drop_first());
        assert(le_value(seq![1u8]) == 1) by {
            assert(seq![1u8].drop_first() =~= Seq::<u8>::empty());
            assert(le_value(Seq::<u8>::empty()) == 0);
            assert(seq![1u8][0] == 1u8);
        }
        crate::group::lemma_group_order_pos();
        vstd::arithmetic::power2::lemma2_to64();
    }
    r
}

/// Aggregates an ordered list of participant keys into one key, and gives the
/// coefficient of `key` (of the first key when `key` is `None`). The list's
/// order matters: the same keys in another order give another key. Fails with
/// `KeyPairIsNotInKeys` when `key` is not in the list, and with
/// `PointDeserializationFailed` when a key is not a valid point.
pub fn key_agg(keys: &Vec<[u8; 32]>, key: Option<[u8; 32]>) -> (r: Result<AggregatedKey, Error>)
    requires
        keys@.len() >= 1,
    ensures
        key_agg_result(keys@, key, r),
{
    let focus = match key {
        Some(k) => k,
        None => keys[0],
    };
    if !has_key(keys, &focus) {
        return Err(Error::KeyPairIsNotInKeys);
    }
    let n = keys.len();
    let mut i: usize = 0;
    while i < n
        invariant
            i <= n,
            n == keys@.len(),
            focus@ == focus_of(keys@, key),
            contains_key(keys@, focus@),
            forall|j: int| 0 <= j < i ==> valid_point(#[trigger] keys@[j]@),
        decreases n - i,
    {
        if !point_is_valid(&keys[i]) {
            return Err(Error::PointDeserializationFailed);
        }
        i = i + 1;
    }
    if n == 1 {
        return Ok(AggregatedKey { agg_public_key: keys[0], musig_coefficient: scalar_one() });
    }
    let mut all: Vec<u8> = Vec::new();
    let mut i: usize = 0;
    while i < n
        invariant
            i <= n,
            n == keys@.len(),
            all@ == keys_concat(keys@.take(i as int)),
        decreases n - i,
    {
        append_bytes(&mut all, keys[i].as_slice());
        proof {
            assert(keys@.take(i + 1).drop_last() =~= keys@.take(i as int));
        }
        i = i + 1;
    }
    assert(keys@.take(n as int) =~= keys@);
    let digest = sha512(&all);
    let coef = hashed_coefficient(&digest, &focus);
    let mut acc = point_mul(&keys[0], &hashed_coefficient(&digest, &keys[0]));
    let mut i: usize = 1;
    while i < n
        invariant
            1 <= i <= n,
            n == keys@.len(),
            n > 1,
            digest@ == list_digest(keys@),
            all_points_valid(keys@),
            acc@ == weighted_sum(keys@, i as nat),
            valid_point(acc@),
        decreases n - i,
    {
        let term = point_mul(&keys[i], &hashed_coefficient(&digest, &keys[i]));
        acc = point_add(&acc, &term);
        i = i + 1;
    }
    Ok(AggregatedKey { agg_public_key: acc, musig_coefficient: coef })
}

/// Aggregation is a function of the ordered list: two runs on the same list
/// and the same focus give the same outcome, byte for byte.
pub proof fn lemma_key_agg_deterministic(
    keys: Seq<[u8; 32]>,
    key: Option<[u8; 32]>,
    r1: Result<AggregatedKey, Error>,
    r2: Result<AggregatedKey, Error>,
)
    requires
        key_agg_result(keys, key, r1),
        key_agg_result(keys, key, r2),
    ensures
        match (r1, r2) {
            (Ok(a), Ok(b)) => a.agg_public_key@ == b.agg_public_key@ && a.musig_coefficient@
                == b.musig_coefficient@,
            (Err(e), Err(f)) => e == f,
            _ => false,
        },
{
}

/// A list of exactly one valid key aggregates to that key.
pub proof fn lemma_single_key_identity(keys: Seq<[u8; 32]>, r: Result<AggregatedKey, Error>)
    requires
        keys.len() == 1,
        valid_point(keys[0]@),
        key_agg_result(keys, None, r),
    ensures
        r matches Ok(a) && a.agg_public_key@ == keys[0]@,
{
    assert(keys[0]@ == keys[0]@);
    assert(contains_key(keys, keys[0]@));
}

/// Asking for the coefficient of a key that is not in the list fails with
/// `KeyPairIsNotInKeys`.
pub proof fn lemma_focus_not_in_list(keys: Seq<[u8; 32]>, p: [u8; 32], r: Result<AggregatedKey, Error>)
    requires
        !contains_key(keys, p@),
        key_agg_result(keys, Some(p), r),
    ensures
        r == Err::<AggregatedKey, Error>(Error::KeyPairIsNotInKeys),
{
}

/// The Ed25519 public key of a party's 32-byte secret seed.
pub fn public_key_from_secret(secret: &[u8; 32]) -> (r: [u8; 32])
    ensures
        r@ == public_key_of(secret@),
{
    public_key(secret)
}

/// The first round with the nonces `r0` and `r1` given: the public half goes
/// to the other parties with the party's public key, the whole pair stays with
/// the party for the second round. Nonces that are not canonical scalars are
/// refused with `ScalarDeserializationFailed`. Nonces must never be used for
/// two signing sessions.
pub fn step_one_with_nonces(secret: &[u8; 32], r0: &[u8; 32], r1: &[u8; 32]) -> (r: Result<
    (AggMessage1, SecretAggStepOne),
    Error,
>)
    ensures
        !(canonical_scalar(r0@) && canonical_scalar(r1@)) ==> r == Err::<
            (AggMessage1, SecretAggStepOne),
            Error,
        >(Error::ScalarDeserializationFailed),
        canonical_scalar(r0@) && canonical_scalar(r1@) ==> (r matches Ok(p) && p.0.sender@
            == public_key_of(secret@) && p.0.public_nonces == p.1.public_nonces && p.1.wf()
            && p.1.private_nonces.r0@ == r0@ && p.1.private_nonces.r1@ == r1@
            && p.1.public_nonces.big_r0@ == base_mul_of(r0@) && p.1.public_nonces.big_r1@
            == base_mul_of(r1@)),
{
    if !is_canonical_scalar(r0) || !is_canonical_scalar(r1) {
        return Err(Error::ScalarDeserializationFailed);
    }
    Ok(first_round(secret, r0, r1))
}

fn first_round(secret: &[u8; 32], r0: &[u8; 32], r1: &[u8; 32]) -> (r: (AggMessage1, SecretAggStepOne))
    requires
        canonical_scalar(r0@),
        canonical_scalar(r1@),
    ensures
        r.0.sender@ == public_key_of(secret@),
        r.0.public_nonces == r.1.public_nonces,
        r.1.wf(),
        r.1.private_nonces.r0@ == r0@,
        r.1.private_nonces.r1@ == r1@,
        r.1.public_nonces.big_r0@ == base_mul_of(r0@),
        r.1.public_nonces.big_r1@ == base_mul_of(r1@),
{
    let public_nonces = PublicPartialNonces { big_r0: base_mul(r0), big_r1: base_mul(r1) };
    let sender = public_key(secret);
    (
        AggMessage1 { public_nonces, sender },
        SecretAggStepOne { private_nonces: PrivatePartialNonces { r0: *r0, r1: *r1 }, public_nonces },
    )
}

/// Draws a fresh pair of nonces for the party with secret seed `secret` and
/// runs the first round with them.
pub fn step_one(secret: &[u8; 32]) -> (r: (AggMessage1, SecretAggStepOne))
    ensures
        r.0.sender@ == public_key_of(secret@),
        r.0.public_nonces == r.1.public_nonces,
        r.1.wf(),
        r.1.public_nonces.big_r0@ == base_mul_of(r.1.private_nonces.r0@),
        r.1.public_nonces.big_r1@ == base_mul_of(r.1.private_nonces.r1@),
{
    let r0 = random_scalar();
    let r1 = random_scalar();
    first_round(secret, &r0, &r1)
}

/// One of the two public nonces of a pair.
pub open spec fn nonce_at(n: PublicPartialNonces, j: int) -> Seq<u8> {
    if j == 0 {
        n.big_r0@
    } else {
        n.big_r1@
    }
}

/// The position of the first message from position `i` on whose sender is
/// `k`; the number of messages when there is none.
pub open spec fn find_sender(msgs: Seq<AggMessage1>, k: Seq<u8>, i: nat) -> nat
    decreases msgs.len() - i,
{
    if i >= msgs.len() {
        msgs.len()
    } else if msgs[i as int].sender@ == k {
        i
    } else {
        find_sender(msgs, k, i + 1)
    }
}

/// Whether the participant with key `k` has a nonce pair: the party itself,
/// or one that sent a message.
pub open spec fn has_contribution(msgs: Seq<AggMessage1>, me: Seq<u8>, k: Seq<u8>) -> bool {
    k == me || find_sender(msgs, k, 0) < msgs.len()
}

/// The nonce pair of the participant with key `k`: the party's own kept pair
/// for its own key, else that of the first message that `k` sent.
pub open spec fn contributed(
    own: PublicPartialNonces,
    msgs: Seq<AggMessage1>,
    me: Seq<u8>,
    k: Seq<u8>,
) -> PublicPartialNonces {
    if k == me {
        own
    } else {
        msgs[find_sender(msgs, k, 0) as int].public_nonces
    }
}

/// Every participant of the list has a nonce pair.
pub open spec fn all_contribute(msgs: Seq<AggMessage1>, me: Seq<u8>, keys: Seq<[u8; 32]>) -> bool {
    forall|t: int| 0 <= t < keys.len() ==> has_contribution(msgs, me, #[trigger] keys[t]@)
}

/// The sum of nonce `j` of the participants at the first `n` positions of
/// the list, added in the list's order.
pub open spec fn nonce_sum(
    own: PublicPartialNonces,
    msgs: Seq<AggMessage1>,
    me: Seq<u8>,
    keys: Seq<[u8; 32]>,
    j: int,
    n: nat,
) -> Seq<u8>
    decreases n,
{
    if n <= 1 {
        nonce_at(contributed(own, msgs, me, keys[0]@), j)
    } else {
        point_add_of(
            nonce_sum(own, msgs, me, keys, j, (n - 1) as nat),
            nonce_at(contributed(own, msgs, me, keys[n - 1]@), j),
        )
    }
}

/// The binding scalar `b = H(X ‖ R0 ‖ R1 ‖ m)`.
pub open spec fn binding_scalar(x: Seq<u8>, r0: Seq<u8>, r1: Seq<u8>, m: Seq<u8>) -> Seq<u8> {
    hash_scalar(sha512_of(x + r0 + r1 + m))
}

/// The round nonce `R = R0 + b · R1`.
pub open spec fn round_nonce(r0: Seq<u8>, r1: Seq<u8>, b: Seq<u8>) -> Seq<u8> {
    point_add_of(r0, point_mul_of(r1, b))
}

/// The Ed25519 challenge `c = H(R ‖ X ‖ m)`.
pub open spec fn challenge(big_r: Seq<u8>, x: Seq<u8>, m: Seq<u8>) -> Seq<u8> {
    hash_scalar(sha512_of(big_r + x + m))
}

/// The combined nonces, binding scalar and round nonce of a session, as the
/// party with key `me` and kept public nonces `own` derives them.
pub open spec fn session_binding(
    me: Seq<u8>,
    own: PublicPartialNonces,
    m: Seq<u8>,
    keys: Seq<[u8; 32]>,
    msgs: Seq<AggMessage1>,
) -> Seq<u8> {
    let rt0 = nonce_sum(own, msgs, me, keys, 0, keys.len());
    let rt1 = nonce_sum(own, msgs, me, keys, 1, keys.len());
    binding_scalar(agg_key_of(keys), rt0, rt1, m)
}

/// The round nonce `R` of a session, as the party with key `me` derives it.
pub open spec fn session_nonce(
    me: Seq<u8>,
    own: PublicPartialNonces,
    m: Seq<u8>,
    keys: Seq<[u8; 32]>,
    msgs: Seq<AggMessage1>,
) -> Seq<u8> {
    let rt0 = nonce_sum(own, msgs, me, keys, 0, keys.len());
    let rt1 = nonce_sum(own, msgs, me, keys, 1, keys.len());
    round_nonce(rt0, rt1, session_binding(me, own, m, keys, msgs))
}

/// The 64 bytes `R ‖ s` that the party with seed `seed` contributes, with
/// `s = r0 + b · r1 + c · a · x` modulo the group order.
pub open spec fn expected_partial(
    seed: Seq<u8>,
    m: Seq<u8>,
    keys: Seq<[u8; 32]>,
    msgs: Seq<AggMessage1>,
    st: SecretAggStepOne,
) -> Seq<u8> {
    let me = public_key_of(seed);
    let x_agg = agg_key_of(keys);
    let a = coefficient(keys, me);
    let b = session_binding(me, st.public_nonces, m, keys, msgs);
    let big_r = session_nonce(me, st.public_nonces, m, keys, msgs);
    let c = challenge(big_r, x_agg, m);
    big_r + scalar_bytes(
        (le_value(st.private_nonces.r0@) + le_value(b) * le_value(st.private_nonces.r1@)
            + le_value(c) * le_value(a) * le_value(secret_scalar_of(seed))) % group_order(),
    )
}

/// How partial signing must come out.
pub open spec fn partial_sign_result(
    seed: Seq<u8>,
    m: Seq<u8>,
    keys: Seq<[u8; 32]>,
    msgs: Seq<AggMessage1>,
    st: SecretAggStepOne,
    r: Result<PartialSignature, Error>,
) -> bool {
    let me = public_key_of(seed);
    if !contains_key(keys, me) {
        r == Err::<PartialSignature, Error>(Error::KeyPairIsNotInKeys)
    } else if !all_points_valid(keys) {
        r == Err::<PartialSignature, Error>(Error::PointDeserializationFailed)
    } else if !private_nonces_wf(st.private_nonces) {
        r == Err::<PartialSignature, Error>(Error::ScalarDeserializationFailed)
    } else if !public_nonces_wf(st.public_nonces) || !all_messages_wf(msgs) {
        r == Err::<PartialSignature, Error>(Error::PointDeserializationFailed)
    } else if !all_contribute(msgs, me, keys) {
        r == Err::<PartialSignature, Error>(Error::MissingFirstMessage)
    } else {
        r matches Ok(p) && p.0@ == expected_partial(seed, m, keys, msgs, st)
    }
}

/// Every first-round message carries valid points.
pub open spec fn all_messages_wf(msgs: Seq<AggMessage1>) -> bool {
    forall|i: int| 0 <= i < msgs.len() ==> (#[trigger] msgs[i]).wf()
}

fn public_nonces_valid(n: &PublicPartialNonces) -> (r: bool)
    ensures
        r == public_nonces_wf(*n),
{
    point_is_valid(&n.big_r0) && point_is_valid(&n.big_r1)
}

fn messages_valid(msgs: &Vec<AggMessage1>) -> (r: bool)
    ensures
        r == all_messages_wf(msgs@),
{
    let mut i: usize = 0;
    while i < msgs.len()
        invariant
            i <= msgs@.len(),
            forall|k: int| 0 <= k < i ==> (#[trigger] msgs@[k]).wf(),
        decreases msgs@.len() - i,
    {
        if !public_nonces_valid(&msgs[i].public_nonces) {
            return false;
        }
        i = i + 1;
    }
    true
}

/// The position of the first message that `k` sent, or the number of messages.
fn position_of_sender(msgs: &Vec<AggMessage1>, k: &[u8; 32]) -> (r: usize)
    ensures
        r == find_sender(msgs@, k@, 0),
{
    let mut i: usize = 0;
    while i < msgs.len()
        invariant
            i <= msgs@.len(),
            find_sender(msgs@, k@, 0) == find_sender(msgs@, k@, i as nat),
        decreases msgs@.len() - i,
    {
        if eq32(&msgs[i].sender, k) {
            return i;
        }
        i = i + 1;
    }
    i
}

/// The nonce pair of the participant with key `k`, if it has one.
fn contribution(
    own: &PublicPartialNonces,
    msgs: &Vec<AggMessage1>,
    me: &[u8; 32],
    k: &[u8; 32],
) -> (r: Option<PublicPartialNonces>)
    ensures
        r is Some == has_contribution(msgs@, me@, k@),
        r matches Some(n) ==> n == contributed(*own, msgs@, me@, k@),
{
    if eq32(k, me) {
        return Some(*own);
    }
    let i = position_of_sender(msgs, k);
    if i < msgs.len() {
        Some(msgs[i].public_nonces)
    } else {
        None
    }
}

fn all_keys_contribute(msgs: &Vec<AggMessage1>, me: &[u8; 32], keys: &Vec<[u8; 32]>) -> (r: bool)
    ensures
        r == all_contribute(msgs@, me@, keys@),
{
    let mut t: usize = 0;
    while t < keys.len()
        invariant
            t <= keys@.len(),
            forall|u: int| 0 <= u < t ==> has_contribution(msgs@, me@, #[trigger] keys@[u]@),
        decreases keys@.len() - t,
    {
        let own = PublicPartialNonces { big_r0: [0u8; 32], big_r1: [0u8; 32] };
        if contribution(&own, msgs, me, &keys[t]).is_none() {
            return false;
        }
        t = t + 1;
    }
    true
}

/// Nonce `j` of the nonce pair of the participant with key `k`.
fn contributed_nonce(
    own: &PublicPartialNonces,
    msgs: &Vec<AggMessage1>,
    me: &[u8; 32],
    k: &[u8; 32],
    j: usize,
) -> (r: [u8; 32])
    requires
        j <= 1,
        has_contribution(msgs@, me@, k@),
        public_nonces_wf(*own),
        all_messages_wf(msgs@),
    ensures
        r@ == nonce_at(contributed(*own, msgs@, me@, k@), j as int),
        valid_point(r@),
{
    let n = match contribution(own, msgs, me, k) {
        Some(n) => n,
        None => *own,
    };
    proof {
        if k@ != me@ {
            assert(msgs@[find_sender(msgs@, k@, 0) as int].wf());
        }
    }
    if j == 0 {
        n.big_r0
    } else {
        n.big_r1
    }
}

fn combine_nonces(
    own: &PublicPartialNonces,
    msgs: &Vec<AggMessage1>,
    me: &[u8; 32],
    keys: &Vec<[u8; 32]>,
    j: usize,
) -> (r: [u8; 32])
    requires
        j <= 1,
        keys@.len() >= 1,
        public_nonces_wf(*own),
        all_messages_wf(msgs@),
        all_contribute(msgs@, me@, keys@),
    ensures
        r@ == nonce_sum(*own, msgs@, me@, keys@, j as int, keys@.len()),
        valid_point(r@),
{
    assert(has_contribution(msgs@, me@, keys@[0]@));
    let mut acc = contributed_nonce(own, msgs, me, &keys[0], j);
    let mut t: usize = 1;
    while t < keys.len()
        invariant
            1 <= t <= keys@.len(),
            j <= 1,
            public_nonces_wf(*own),
            all_messages_wf(msgs@),
            all_contribute(msgs@, me@, keys@),
            acc@ == nonce_sum(*own, msgs@, me@, keys@, j as int, t as nat),
            valid_point(acc@),
        decreases keys@.len() - t,
    {
        assert(has_contribution(msgs@, me@, keys@[t as int]@));
        let next = contributed_nonce(own, msgs, me, &keys[t], j);
        acc = point_add(&acc, &next);
        t = t + 1;
    }
    acc
}

/// Hashes the concatenation of `parts` and the message into a scalar.
fn hash_points_and_message(parts: &Vec<[u8; 32]>, m: &Vec<u8>) -> (r: [u8; 32])
    ensures
        r@ == hash_scalar(sha512_of(keys_concat(parts@) + m@)),
        canonical_scalar(r@),
{
    let mut data: Vec<u8> = Vec::new();
    let mut i: usize = 0;
    while i < parts.len()
        invariant
            i <= parts@.len(),
            data@ == keys_concat(parts@.take(i as int)),
        decreases parts@.len() - i,
    {
        append_bytes(&mut data, parts[i].as_slice());
        proof {
            assert(parts@.take(i + 1).drop_last() =~= parts@.take(i as int));
        }
        i = i + 1;
    }
    assert(parts@.take(parts@.len() as int) =~= parts@);
    append_bytes(&mut data, m.as_slice());
    let h = sha512(&data);
    reduce_digest(&h)
}

/// The secret scalar of a seed, reduced modulo the group order.
fn reduced_secret(seed: &[u8; 32]) -> (r: [u8; 32])
    ensures
        le_value(r@) == le_value(secret_scalar_of(seed@)) % group_order(),
        canonical_scalar(r@),
{
    let x = secret_scalar(seed);
    let mut wide = [0u8; 64];
    let mut i: usize = 0;
    while i < 32
        invariant
            i <= 32,
            forall|k: int| 0 <= k < i ==> wide@[k] == x@[k],
            forall|k: int| 32 <= k < 64 ==> wide@[k] == 0,
        decreases 32 - i,
    {
        wide[i] = x[i];
        i = i + 1;
    }
    proof {
        assert(wide@ =~= x@ + wide@.subrange(32, 64));
        crate::group::lemma_le_zero_pad(x@, wide@.subrange(32, 64));
    }
    reduce_digest(&wide)
}

/// The second round for the party with secret seed `secret`: signs `message`
/// under the aggregated key of `keys`. The nonces are added up in the order of
/// the list: the party's own kept pair for its own key, and for every other
/// key the pair of the first message that it sent, in whatever order the
/// messages come. Fails as `key_agg` does when the party's key is not in the
/// list or a key is not a valid point; with `ScalarDeserializationFailed` or
/// `PointDeserializationFailed` for kept or received nonces that are not
/// valid; with `MissingFirstMessage` when a participant sent no message.
pub fn partial_sign(
    secret: &[u8; 32],
    message: &Vec<u8>,
    keys: &Vec<[u8; 32]>,
    first_messages: &Vec<AggMessage1>,
    secret_state: &SecretAggStepOne,
) -> (r: Result<PartialSignature, Error>)
    requires
        keys@.len() >= 1,
    ensures
        partial_sign_result(secret@, message@, keys@, first_messages@, *secret_state, r),
{
    let me = public_key(secret);
    let agg = match key_agg(keys, Some(me)) {
        Ok(a) => a,
        Err(e) => {
            return Err(e);
        },
    };
    if !is_canonical_scalar(&secret_state.private_nonces.r0) || !is_canonical_scalar(
        &secret_state.private_nonces.r1,
    ) {
        return Err(Error::ScalarDeserializationFailed);
    }
    if !public_nonces_valid(&secret_state.public_nonces) || !messages_valid(first_messages) {
        return Err(Error::PointDeserializationFailed);
    }
    let x_agg = agg.agg_public_key;
    proof {
        assert(keys@.len() == 1 ==> contains_key(keys@, keys@[0]@));
    }
    if !all_keys_contribute(first_messages, &me, keys) {
        return Err(Error::MissingFirstMessage);
    }
    let rt0 = combine_nonces(&secret_state.public_nonces, first_messages, &me, keys, 0);
    let rt1 = combine_nonces(&secret_state.public_nonces, first_messages, &me, keys, 1);
    let b = hash_points_and_message(&vec![x_agg, rt0, rt1], message);
    proof {
        assert(keys_concat(seq![x_agg, rt0, rt1]) =~= x_agg@ + rt0@ + rt1@) by {
            assert(seq![x_agg, rt0, rt1].drop_last() =~= seq![x_agg, rt0]);
            assert(seq![x_agg, rt0].drop_last() =~= seq![x_agg]);
            assert(seq![x_agg].drop_last() =~= Seq::<[u8; 32]>::empty());
            assert(keys_concat(Seq::<[u8; 32]>::empty()) == Seq::<u8>::empty());
            assert(keys_concat(seq![x_agg]) =~= x_agg@);
            assert(keys_concat(seq![x_agg, rt0]) =~= x_agg@ + rt0@);
        }
    }
    let big_r = point_add(&rt0, &point_mul(&rt1, &b));
    let c = hash_points_and_message(&vec![big_r, x_agg], message);
    proof {
        assert(keys_concat(seq![big_r, x_agg]) =~= big_r@ + x_agg@) by {
            assert(seq![big_r, x_agg].drop_last() =~= seq![big_r]);
            assert(seq![big_r].drop_last() =~= Seq::<[u8; 32]>::empty());
            assert(keys_concat(Seq::<[u8; 32]>::empty()) == Seq::<u8>::empty());
            assert(keys_concat(seq![big_r]) =~= big_r@);
        }
    }
    let x = reduced_secret(secret);
    let a = agg.musig_coefficient;
    let r0 = secret_state.private_nonces.r0;
    let r1 = secret_state.private_nonces.r1;
    let t = scalar_add(&r0, &scalar_mul(&b, &r1));
    let u = scalar_mul(&scalar_mul(&c, &a), &x);
    let s = scalar_add(&t, &u);
    proof {
        let l = group_order() as int;
        let rr0 = le_value(r0@) as int;
        let bb = le_value(b@) as int;
        let rr1 = le_value(r1@) as int;
        let cc = le_value(c@) as int;
        let aa = le_value(a@) as int;
        let xx = le_value(secret_scalar_of(secret@)) as int;
        crate::group::lemma_group_order_pos();
        vstd::arithmetic::div_mod::lemma_add_mod_noop_right(rr0, bb * rr1, l);
        vstd::arithmetic::div_mod::lemma_mul_mod_noop(cc * aa, xx, l);
        vstd::arithmetic::div_mod::lemma_add_mod_noop(rr0 + bb * rr1, cc * aa * xx, l);
        assert(le_value(t@) as int == (rr0 + bb * rr1) % l);
        assert(le_value(u@) as int == (cc * aa * xx) % l);
    }
    let mut out = [0u8; 64];
    let mut i: usize = 0;
    while i < 32
        invariant
            i <= 32,
            forall|k: int| 0 <= k < i ==> out@[k] == big_r@[k],
        decreases 32 - i,
    {
        out[i] = big_r[i];
        i = i + 1;
    }
    while i < 64
        invariant
            32 <= i <= 64,
            forall|k: int| 0 <= k < 32 ==> out@[k] == big_r@[k],
            forall|k: int| 32 <= k < i ==> out@[k] == s@[k - 32],
        decreases 64 - i,
    {
        out[i] = s[i - 32];
        i = i + 1;
    }
    assert(out@ =~= big_r@ + s@);
    Ok(PartialSignature(out))
}

/// The full signature that partial signatures add up to.
pub open spec fn aggregated_signature(ps: Seq<PartialSignature>) -> Seq<u8> {
    sig_r(ps[0].0@) + scalar_bytes(scalar_sum(ps) % group_order())
}

/// What aggregating and verifying the partial signatures `ps` of message `m`
/// must give: an error, or the 64-byte signature.
pub open spec fn finalize_outcome(
    keys: Seq<[u8; 32]>,
    m: Seq<u8>,
    ps: Seq<PartialSignature>,
) -> Result<Seq<u8>, Error> {
    if !all_points_valid(keys) {
        Err(Error::PointDeserializationFailed)
    } else if ps.len() == 0 {
        Err(Error::SerializationError(serialization::Error::InputTooShort { expected: 1, found: 0 }))
    } else if !same_nonce(ps) {
        Err(Error::MismatchMessages)
    } else if !valid_point(sig_r(ps[0].0@)) {
        Err(Error::SerializationError(serialization::Error::InvalidPoint))
    } else if !all_scalars_canonical(ps) {
        Err(Error::SerializationError(serialization::Error::InvalidScalar))
    } else if !ed25519_verifies(agg_key_of(keys), m, aggregated_signature(ps)) {
        Err(Error::InvalidSignature)
    } else {
        Ok(aggregated_signature(ps))
    }
}

/// How aggregating and verifying the partial signatures `ps` of message `m`
/// must come out.
pub open spec fn finalize_result(
    keys: Seq<[u8; 32]>,
    m: Seq<u8>,
    ps: Seq<PartialSignature>,
    r: Result<[u8; 64], Error>,
) -> bool {
    match r {
        Ok(sig) => finalize_outcome(keys, m, ps) == Ok::<Seq<u8>, Error>(sig@),
        Err(e) => finalize_outcome(keys, m, ps) == Err::<Seq<u8>, Error>(e),
    }
}

/// Adds up the partial signatures of `message` into one Ed25519 signature and
/// verifies it under the aggregated key of `keys`; a signature that does not
/// verify is refused with `InvalidSignature`.
pub fn finalize_signature(
    keys: &Vec<[u8; 32]>,
    message: &Vec<u8>,
    partials: &Vec<PartialSignature>,
) -> (r: Result<[u8; 64], Error>)
    requires
        keys@.len() >= 1,
    ensures
        finalize_result(keys@, message@, partials@, r),
{
    proof {
        assert(contains_key(keys@, keys@[0]@));
    }
    let agg = match key_agg(keys, None) {
        Ok(a) => a,
        Err(e) => {
            return Err(e);
        },
    };
    let sig = match PartialSignature::aggregate_signatures(partials.as_slice()) {
        Ok(s) => s,
        Err(e) => {
            return match e {
                serialization::Error::MismatchMessages => Err(Error::MismatchMessages),
                _ => Err(Error::SerializationError(e)),
            };
        },
    };
    if !verify_signature(&agg.agg_public_key, message, &sig) {
        return Err(Error::InvalidSignature);
    }
    Ok(sig)
}

/// The second round for a token transfer: signs, as `partial_sign` does, the
/// message of the transfer of `amount` of `mint` to `to` whose fee payer and
/// authority is the aggregated key of `keys`, with `recent_blockhash`.
/// `create_destination_account` says whether the recipient's associated token
/// account is still to be made; every party must pass the same answer.
pub fn step_two_token(
    secret: &[u8; 32],
    mint: &[u8; 32],
    amount: u64,
    decimals: u8,
    to: &[u8; 32],
    recent_blockhash: &[u8; 32],
    keys: &Vec<[u8; 32]>,
    first_messages: &Vec<AggMessage1>,
    secret_state: &SecretAggStepOne,
    create_destination_account: bool,
) -> (r: Result<PartialSignature, Error>)
    requires
        keys@.len() >= 1,
    ensures
        partial_sign_result(
            secret@,
            token_message(
                mint@,
                amount,
                decimals,
                to@,
                agg_key_of(keys@),
                create_destination_account,
                recent_blockhash@,
            ),
            keys@,
            first_messages@,
            *secret_state,
            r,
        ),
{
    let me = public_key(secret);
    let agg = match key_agg(keys, Some(me)) {
        Ok(a) => a,
        Err(e) => {
            return Err(e);
        },
    };
    let message = token_transfer_message(
        mint,
        amount,
        decimals,
        to,
        &agg.agg_public_key,
        create_destination_account,
        recent_blockhash,
    );
    partial_sign(secret, &message, keys, first_messages, secret_state)
}

/// What the last step for a token transfer must give: the error of
/// aggregation and verification, or the wire bytes of the transaction with
/// the aggregated signature in its slot.
pub open spec fn broadcast_result(
    keys: Seq<[u8; 32]>,
    m: Seq<u8>,
    ps: Seq<PartialSignature>,
    r: Result<Vec<u8>, Error>,
) -> bool {
    match r {
        Ok(tx) => finalize_outcome(keys, m, ps) == Ok::<Seq<u8>, Error>(aggregated_signature(ps))
            && tx@ == transaction_bytes(aggregated_signature(ps), m),
        Err(e) => finalize_outcome(keys, m, ps) == Err::<Seq<u8>, Error>(e),
    }
}

/// The last step for a token transfer: rebuilds the message that the parties
/// signed, adds up their partial signatures, verifies the result under the
/// aggregated key and returns the wire bytes of the signed transaction. Nothing
/// is sent.
pub fn sign_and_broadcast_token(
    mint: &[u8; 32],
    amount: u64,
    decimals: u8,
    to: &[u8; 32],
    recent_blockhash: &[u8; 32],
    keys: &Vec<[u8; 32]>,
    signatures: &Vec<PartialSignature>,
    create_destination_account: bool,
) -> (r: Result<Vec<u8>, Error>)
    requires
        keys@.len() >= 1,
    ensures
        broadcast_result(
            keys@,
            token_message(
                mint@,
                amount,
                decimals,
                to@,
                agg_key_of(keys@),
                create_destination_account,
                recent_blockhash@,
            ),
            signatures@,
            r,
        ),
{
    proof {
        assert(contains_key(keys@, keys@[0]@));
    }
    let agg = match key_agg(keys, None) {
        Ok(a) => a,
        Err(e) => {
            return Err(e);
        },
    };
    let message = token_transfer_message(
        mint,
        amount,
        decimals,
        to,
        &agg.agg_public_key,
        create_destination_account,
        recent_blockhash,
    );
    match finalize_signature(keys, &message, signatures) {
        Ok(sig) => Ok(attach_signature(&message, &sig)),
        Err(e) => Err(e),
    }
}

proof fn lemma_find_sender(msgs: Seq<AggMessage1>, k: Seq<u8>, i: nat)
    requires
        i <= msgs.len(),
    ensures
        i <= find_sender(msgs, k, i) <= msgs.len(),
        find_sender(msgs, k, i) < msgs.len() ==> msgs[find_sender(msgs, k, i) as int].sender@ == k,
        forall|a: int| i <= a < find_sender(msgs, k, i) ==> (#[trigger] msgs[a]).sender@ != k,
    decreases msgs.len() - i,
{
    if i < msgs.len() && msgs[i as int].sender@ != k {
        lemma_find_sender(msgs, k, i + 1);
    }
}

proof fn lemma_nonce_sums_agree(
    own1: PublicPartialNonces,
    msgs1: Seq<AggMessage1>,
    me1: Seq<u8>,
    own2: PublicPartialNonces,
    msgs2: Seq<AggMessage1>,
    me2: Seq<u8>,
    keys: Seq<[u8; 32]>,
    j: int,
    n: nat,
)
    requires
        1 <= n <= keys.len(),
        forall|t: int|
            0 <= t < keys.len() ==> contributed(own1, msgs1, me1, #[trigger] keys[t]@) == contributed(
                own2,
                msgs2,
                me2,
                keys[t]@,
            ),
    ensures
        nonce_sum(own1, msgs1, me1, keys, j, n) == nonce_sum(own2, msgs2, me2, keys, j, n),
    decreases n,
{
    assert(contributed(own1, msgs1, me1, keys[0]@) == contributed(own2, msgs2, me2, keys[0]@));
    if n > 1 {
        assert(contributed(own1, msgs1, me1, keys[n - 1]@) == contributed(
            own2,
            msgs2,
            me2,
            keys[n - 1]@,
        ));
        lemma_nonce_sums_agree(own1, msgs1, me1, own2, msgs2, me2, keys, j, (n - 1) as nat);
    }
}

/// The first-round message that the party with key `me` sent is among
/// `msgs`, and carries the public nonces `own` that the party kept.
pub open spec fn own_message_matches(msgs: Seq<AggMessage1>, me: Seq<u8>, own: PublicPartialNonces) -> bool {
    find_sender(msgs, me, 0) < msgs.len() && msgs[find_sender(msgs, me, 0) as int].public_nonces
        == own
}

/// Every participant of the list sent a first-round message.
pub open spec fn every_key_sent(msgs: Seq<AggMessage1>, keys: Seq<[u8; 32]>) -> bool {
    forall|t: int| 0 <= t < keys.len() ==> find_sender(msgs, #[trigger] keys[t]@, 0) < msgs.len()
}

/// Two parties of one session derive the same round nonce `R`: they sign the
/// same message under the same list, every participant sent a first-round
/// message, and each party's own message carries the nonces it kept.
pub proof fn lemma_parties_derive_same_nonce(
    me_i: Seq<u8>,
    own_i: PublicPartialNonces,
    me_k: Seq<u8>,
    own_k: PublicPartialNonces,
    m: Seq<u8>,
    keys: Seq<[u8; 32]>,
    msgs: Seq<AggMessage1>,
)
    requires
        keys.len() >= 1,
        every_key_sent(msgs, keys),
        own_message_matches(msgs, me_i, own_i),
        own_message_matches(msgs, me_k, own_k),
    ensures
        session_nonce(me_i, own_i, m, keys, msgs) == session_nonce(me_k, own_k, m, keys, msgs),
{
    assert forall|t: int| 0 <= t < keys.len() implies contributed(
        own_i,
        msgs,
        me_i,
        #[trigger] keys[t]@,
    ) == contributed(own_k, msgs, me_k, keys[t]@) by {
        assert(find_sender(msgs, keys[t]@, 0) < msgs.len());
    }
    lemma_nonce_sums_agree(own_i, msgs, me_i, own_k, msgs, me_k, keys, 0, keys.len());
    lemma_nonce_sums_agree(own_i, msgs, me_i, own_k, msgs, me_k, keys, 1, keys.len());
}

/// In one session, the partial signatures of any two parties carry the same
/// first 32 bytes, the round nonce `R`.
pub proof fn lemma_partials_share_nonce(
    seed_i: Seq<u8>,
    st_i: SecretAggStepOne,
    r_i: Result<PartialSignature, Error>,
    seed_k: Seq<u8>,
    st_k: SecretAggStepOne,
    r_k: Result<PartialSignature, Error>,
    m: Seq<u8>,
    keys: Seq<[u8; 32]>,
    msgs: Seq<AggMessage1>,
)
    requires
        keys.len() >= 1,
        every_key_sent(msgs, keys),
        own_message_matches(msgs, public_key_of(seed_i), st_i.public_nonces),
        own_message_matches(msgs, public_key_of(seed_k), st_k.public_nonces),
        partial_sign_result(seed_i, m, keys, msgs, st_i, r_i),
        partial_sign_result(seed_k, m, keys, msgs, st_k, r_k),
    ensures
        match (r_i, r_k) {
            (Ok(a), Ok(b)) => a.0@.subrange(0, 32) == b.0@.subrange(0, 32),
            _ => true,
        },
{
    let me_i = public_key_of(seed_i);
    let me_k = public_key_of(seed_k);
    lemma_parties_derive_same_nonce(me_i, st_i.public_nonces, me_k, st_k.public_nonces, m, keys, msgs);
    if let (Ok(a), Ok(b)) = (r_i, r_k) {
        let big_r = session_nonce(me_i, st_i.public_nonces, m, keys, msgs);
        let sa = a.0@.subrange(32, 64);
        let sb = b.0@.subrange(32, 64);
        let ea = expected_partial(seed_i, m, keys, msgs, st_i);
        let eb = expected_partial(seed_k, m, keys, msgs, st_k);
        assert(a.0@ == ea);
        assert(b.0@ == eb);
        let xa = (le_value(st_i.private_nonces.r0@) + le_value(session_binding(me_i, st_i.public_nonces, m, keys, msgs)) * le_value(st_i.private_nonces.r1@)
            + le_value(challenge(big_r, agg_key_of(keys), m)) * le_value(coefficient(keys, me_i)) * le_value(secret_scalar_of(seed_i))) % group_order();
        crate::group::lemma_le_bytes_len(xa, 32);
        assert(ea == big_r + scalar_bytes(xa));
        assert(big_r.len() == 32);
        assert(a.0@.subrange(0, 32) =~= big_r);
        let big_r_k = session_nonce(me_k, st_k.public_nonces, m, keys, msgs);
        let xb = (le_value(st_k.private_nonces.r0@) + le_value(session_binding(me_k, st_k.public_nonces, m, keys, msgs)) * le_value(st_k.private_nonces.r1@)
            + le_value(challenge(big_r_k, agg_key_of(keys), m)) * le_value(coefficient(keys, me_k)) * le_value(secret_scalar_of(seed_k))) % group_order();
        crate::group::lemma_le_bytes_len(xb, 32);
        assert(eb == big_r_k + scalar_bytes(xb));
        assert(b.0@.subrange(0, 32) =~= big_r_k);
    }
}

/// No two first-round messages have the same sender.
pub open spec fn senders_unique(msgs: Seq<AggMessage1>) -> bool {
    forall|a: int, b: int|
        0 <= a < msgs.len() && 0 <= b < msgs.len() && (#[trigger] msgs[a]).sender@ == (
        #[trigger] msgs[b]).sender@ ==> a == b
}

proof fn lemma_same_sender_message(msgs1: Seq<AggMessage1>, msgs2: Seq<AggMessage1>, k: Seq<u8>)
    requires
        msgs1.to_multiset() == msgs2.to_multiset(),
        senders_unique(msgs1),
    ensures
        (find_sender(msgs1, k, 0) < msgs1.len()) == (find_sender(msgs2, k, 0) < msgs2.len()),
        find_sender(msgs1, k, 0) < msgs1.len() ==> msgs1[find_sender(msgs1, k, 0) as int]
            == msgs2[find_sender(msgs2, k, 0) as int],
{
    broadcast use vstd::seq_lib::group_to_multiset_ensures;

    lemma_find_sender(msgs1, k, 0);
    lemma_find_sender(msgs2, k, 0);
    let f1 = find_sender(msgs1, k, 0);
    let f2 = find_sender(msgs2, k, 0);
    if f1 < msgs1.len() {
        assert(msgs1.to_multiset().count(msgs1[f1 as int]) > 0);
        assert(msgs2.contains(msgs1[f1 as int]));
        let b = choose|b: int| 0 <= b < msgs2.len() && msgs2[b] == msgs1[f1 as int];
        assert(msgs2[b].sender@ == k);
        assert(f2 <= b);
    }
    if f2 < msgs2.len() {
        assert(msgs2.to_multiset().count(msgs2[f2 as int]) > 0);
        assert(msgs1.contains(msgs2[f2 as int]));
        let a = choose|a: int| 0 <= a < msgs1.len() && msgs1[a] == msgs2[f2 as int];
        assert(msgs1[a].sender@ == k);
        assert(f1 <= a);
        if f1 < msgs1.len() {
            assert(msgs1[f1 as int].sender@ == msgs1[a].sender@);
        }
    }
}

/// The order of the first-round messages does not matter: the same messages
/// in another order give the same outcome, when no two have the same sender.
pub proof fn lemma_message_order_irrelevant(
    seed: Seq<u8>,
    m: Seq<u8>,
    keys: Seq<[u8; 32]>,
    msgs1: Seq<AggMessage1>,
    msgs2: Seq<AggMessage1>,
    st: SecretAggStepOne,
    r1: Result<PartialSignature, Error>,
    r2: Result<PartialSignature, Error>,
)
    requires
        keys.len() >= 1,
        msgs1.to_multiset() == msgs2.to_multiset(),
        senders_unique(msgs1),
        partial_sign_result(seed, m, keys, msgs1, st, r1),
        partial_sign_result(seed, m, keys, msgs2, st, r2),
    ensures
        match (r1, r2) {
            (Ok(a), Ok(b)) => a.0@ == b.0@,
            (Err(e), Err(f)) => e == f,
            _ => false,
        },
{
    broadcast use vstd::seq_lib::group_to_multiset_ensures;

    let me = public_key_of(seed);
    let own = st.public_nonces;
    assert(all_messages_wf(msgs1) == all_messages_wf(msgs2)) by {
        if all_messages_wf(msgs1) {
            assert forall|i: int| 0 <= i < msgs2.len() implies (#[trigger] msgs2[i]).wf() by {
                assert(msgs2.to_multiset().count(msgs2[i]) > 0);
                assert(msgs1.contains(msgs2[i]));
            }
        }
        if all_messages_wf(msgs2) {
            assert forall|i: int| 0 <= i < msgs1.len() implies (#[trigger] msgs1[i]).wf() by {
                assert(msgs1.to_multiset().count(msgs1[i]) > 0);
                assert(msgs2.contains(msgs1[i]));
            }
        }
    }
    assert forall|t: int| 0 <= t < keys.len() implies has_contribution(msgs1, me, #[trigger] keys[t]@)
        == has_contribution(msgs2, me, keys[t]@) && (has_contribution(msgs1, me, keys[t]@)
        ==> contributed(own, msgs1, me, keys[t]@) == contributed(own, msgs2, me, keys[t]@)) by {
        lemma_same_sender_message(msgs1, msgs2, keys[t]@);
    }
    assert(all_contribute(msgs1, me, keys) == all_contribute(msgs2, me, keys));
    if all_contribute(msgs1, me, keys) {
        lemma_nonce_sums_agree(own, msgs1, me, own, msgs2, me, keys, 0, keys.len());
        lemma_nonce_sums_agree(own, msgs1, me, own, msgs2, me, keys, 1, keys.len());
        assert(expected_partial(seed, m, keys, msgs1, st) == expected_partial(seed, m, keys, msgs2, st));
    }
}

} // verus!
