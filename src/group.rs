//! The Ed25519 group as byte strings: points in their 32-byte compressed
//! encoding, scalars as 32 little-endian bytes. Every operation of the group,
//! the hash and signature verification is a call into an outside crate.
use vstd::prelude::*;

use curv::arithmetic::Converter;
use curv::elliptic::curves::{Ed25519, Point, Scalar};
use curv::BigInt;
use sha2::Digest;
use vstd::arithmetic::power2::pow2;

verus! {

/// The order of the prime-order subgroup of Ed25519.
pub open spec fn group_order() -> nat {
    pow2(252) + 27742317777372353535851937790883648493
}

/// The number that a byte string stands for, least significant byte first.
pub open spec fn le_value(s: Seq<u8>) -> nat
    decreases s.len(),
{
    if s.len() == 0 {
        0
    } else {
        s[0] as nat + 256 * le_value(s.drop_first())
    }
}

/// The `k` bytes of a number, least significant first.
pub open spec fn le_bytes(n: nat, k: nat) -> Seq<u8>
    decreases k,
{
    if k == 0 {
        Seq::empty()
    } else {
        seq![(n % 256) as u8] + le_bytes(n / 256, (k - 1) as nat)
    }
}

/// The 32-byte encoding of a scalar.
pub open spec fn scalar_bytes(n: nat) -> Seq<u8> {
    le_bytes(n, 32)
}

/// A scalar field that holds a number below the group order.
pub open spec fn canonical_scalar(s: Seq<u8>) -> bool {
    s.len() == 32 && le_value(s) < group_order()
}

/// The encoding of zero is all zero bytes.
pub proof fn lemma_le_bytes_zero(k: nat)
    ensures
        le_bytes(0, k) == Seq::new(k, |i: int| 0u8),
    decreases k,
{
    if k > 0 {
        lemma_le_bytes_zero((k - 1) as nat);
        assert(le_bytes(0, k) =~= Seq::new(k, |i: int| 0u8));
    } else {
        assert(le_bytes(0, k) =~= Seq::new(k, |i: int| 0u8));
    }
}

/// The encoding of a number in `k` bytes has `k` bytes.
pub proof fn lemma_le_bytes_len(n: nat, k: nat)
    ensures
        le_bytes(n, k).len() == k,
    decreases k,
{
    if k > 0 {
        lemma_le_bytes_len(n / 256, (k - 1) as nat);
    }
}

pub proof fn lemma_group_order_pos()
    ensures
        group_order() > 0,
{
    vstd::arithmetic::power2::lemma_pow2_pos(252);
}

/// Bytes that are all zero add nothing to the number that precedes them.
pub proof fn lemma_le_zero_pad(s: Seq<u8>, z: Seq<u8>)
    requires
        forall|i: int| 0 <= i < z.len() ==> z[i] == 0,
    ensures
        le_value(s + z) == le_value(s),
    decreases s.len() + z.len(),
{
    if s.len() == 0 {
        assert(s + z =~= z);
        if z.len() > 0 {
            lemma_le_zero_pad(s, z.drop_first());
            assert(s + z.drop_first() =~= z.drop_first());
        }
    } else {
        assert((s + z).drop_first() =~= s.drop_first() + z);
        lemma_le_zero_pad(s.drop_first(), z);
    }
}

/// Two byte strings of one length that stand for the same number are equal.
pub proof fn lemma_le_injective(a: Seq<u8>, b: Seq<u8>)
    requires
        a.len() == b.len(),
        le_value(a) == le_value(b),
    ensures
        a == b,
    decreases a.len(),
{
    if a.len() > 0 {
        let x = le_value(a.drop_first());
        let y = le_value(b.drop_first());
        assert(a[0] == b[0] && x == y);
        lemma_le_injective(a.drop_first(), b.drop_first());
        assert(a =~= seq![a[0]] + a.drop_first());
        assert(b =~= seq![b[0]] + b.drop_first());
    } else {
        assert(a =~= b);
    }
}

/// Whether `Point::<Ed25519>::from_bytes` accepts the bytes.
pub uninterp spec fn valid_point(b: Seq<u8>) -> bool;

/// The encoding of the sum of two points.
pub uninterp spec fn point_add_of(p: Seq<u8>, q: Seq<u8>) -> Seq<u8>;

/// The encoding of a point multiplied by a scalar.
pub uninterp spec fn point_mul_of(p: Seq<u8>, k: Seq<u8>) -> Seq<u8>;

/// The encoding of the base point multiplied by a scalar.
pub uninterp spec fn base_mul_of(k: Seq<u8>) -> Seq<u8>;

/// The SHA-512 digest of a byte string.
pub uninterp spec fn sha512_of(data: Seq<u8>) -> Seq<u8>;

/// The Ed25519 public key of a 32-byte secret seed.
pub uninterp spec fn public_key_of(seed: Seq<u8>) -> Seq<u8>;

/// The clamped secret scalar of the standard expansion of a 32-byte seed.
pub uninterp spec fn secret_scalar_of(seed: Seq<u8>) -> Seq<u8>;

/// Whether a 64-byte signature verifies for a message under a public key.
pub uninterp spec fn ed25519_verifies(pk: Seq<u8>, msg: Seq<u8>, sig: Seq<u8>) -> bool;

/// Relies on `Point::<Ed25519>::from_bytes`: whether the bytes decode.
#[verifier::external_body]
pub(crate) fn point_is_valid(b: &[u8; 32]) -> (r: bool)
    ensures
        r == valid_point(b@),
{
    Point::<Ed25519>::from_bytes(b).is_ok()
}

/// Relies on curv's point addition; the sum of two group elements is one too.
#[verifier::external_body]
pub(crate) fn point_add(p: &[u8; 32], q: &[u8; 32]) -> (r: [u8; 32])
    requires
        valid_point(p@),
        valid_point(q@),
    ensures
        r@ == point_add_of(p@, q@),
        valid_point(r@),
{
    let a = Point::<Ed25519>::from_bytes(p).unwrap();
    let b = Point::<Ed25519>::from_bytes(q).unwrap();
    let mut out = [0u8; 32];
    out.copy_from_slice(&(a + b).to_bytes(true));
    out
}

/// Relies on curv's multiplication of a point by a scalar.
#[verifier::external_body]
pub(crate) fn point_mul(p: &[u8; 32], k: &[u8; 32]) -> (r: [u8; 32])
    requires
        valid_point(p@),
    ensures
        r@ == point_mul_of(p@, k@),
        valid_point(r@),
{
    let a = Point::<Ed25519>::from_bytes(p).unwrap();
    let s = Scalar::<Ed25519>::from_bytes(k).unwrap();
    let mut out = [0u8; 32];
    out.copy_from_slice(&(a * s).to_bytes(true));
    out
}

/// Relies on curv's multiplication of the generator by a scalar.
#[verifier::external_body]
pub(crate) fn base_mul(k: &[u8; 32]) -> (r: [u8; 32])
    ensures
        r@ == base_mul_of(k@),
        valid_point(r@),
{
    let s = Scalar::<Ed25519>::from_bytes(k).unwrap();
    let mut out = [0u8; 32];
    out.copy_from_slice(&(Point::<Ed25519>::generator() * s).to_bytes(true));
    out
}

/// Relies on curv's scalar addition, which is modulo the group order.
#[verifier::external_body]
pub(crate) fn scalar_add(a: &[u8; 32], b: &[u8; 32]) -> (r: [u8; 32])
    requires
        canonical_scalar(a@),
        canonical_scalar(b@),
    ensures
        le_value(r@) == (le_value(a@) + le_value(b@)) % group_order(),
        r@ == scalar_bytes((le_value(a@) + le_value(b@)) % group_order()),
{
    let x = Scalar::<Ed25519>::from_bytes(a).unwrap();
    let y = Scalar::<Ed25519>::from_bytes(b).unwrap();
    let mut out = [0u8; 32];
    out.copy_from_slice(&(x + y).to_bytes());
    out
}

/// Relies on curv's scalar multiplication, which is modulo the group order.
#[verifier::external_body]
pub(crate) fn scalar_mul(a: &[u8; 32], b: &[u8; 32]) -> (r: [u8; 32])
    requires
        canonical_scalar(a@),
        canonical_scalar(b@),
    ensures
        le_value(r@) == (le_value(a@) * le_value(b@)) % group_order(),
        r@ == scalar_bytes((le_value(a@) * le_value(b@)) % group_order()),
{
    let x = Scalar::<Ed25519>::from_bytes(a).unwrap();
    let y = Scalar::<Ed25519>::from_bytes(b).unwrap();
    let mut out = [0u8; 32];
    out.copy_from_slice(&(x * y).to_bytes());
    out
}

/// Relies on curv's `Scalar::from_bigint`, which reduces modulo the group
/// order; the 64 bytes are read least significant first.
#[verifier::external_body]
pub(crate) fn scalar_from_wide(h: &[u8; 64]) -> (r: [u8; 32])
    ensures
        le_value(r@) == le_value(h@) % group_order(),
        r@ == scalar_bytes(le_value(h@) % group_order()),
{
    let mut be = h.to_vec();
    be.reverse();
    let s = Scalar::<Ed25519>::from_bigint(&BigInt::from_bytes(&be));
    let mut out = [0u8; 32];
    out.copy_from_slice(&s.to_bytes());
    out
}

/// Relies on curv's `Scalar::random`: a fresh scalar below the group order.
#[verifier::external_body]
pub(crate) fn random_scalar() -> (r: [u8; 32])
    ensures
        le_value(r@) < group_order(),
{
    let mut out = [0u8; 32];
    out.copy_from_slice(&Scalar::<Ed25519>::random().to_bytes());
    out
}

/// Relies on `sha2::Sha512`.
#[verifier::external_body]
pub(crate) fn sha512(data: &Vec<u8>) -> (r: [u8; 64])
    ensures
        r@ == sha512_of(data@),
{
    let mut out = [0u8; 64];
    out.copy_from_slice(&sha2::Sha512::digest(data));
    out
}

/// Relies on ed25519-dalek's `PublicKey::from(&SecretKey)`.
#[verifier::external_body]
pub(crate) fn public_key(seed: &[u8; 32]) -> (r: [u8; 32])
    ensures
        r@ == public_key_of(seed@),
{
    let secret = ed25519_dalek::SecretKey::from_bytes(seed).unwrap();
    ed25519_dalek::PublicKey::from(&secret).to_bytes()
}

/// Relies on ed25519-dalek's `ExpandedSecretKey::from(&SecretKey)`: its first
/// 32 bytes are the clamped secret scalar.
#[verifier::external_body]
pub(crate) fn secret_scalar(seed: &[u8; 32]) -> (r: [u8; 32])
    ensures
        r@ == secret_scalar_of(seed@),
{
    let secret = ed25519_dalek::SecretKey::from_bytes(seed).unwrap();
    let expanded = ed25519_dalek::ExpandedSecretKey::from(&secret).to_bytes();
    let mut out = [0u8; 32];
    out.copy_from_slice(&expanded[..32]);
    out
}

/// Relies on `solana_sdk::signature::Signature::verify`.
#[verifier::external_body]
pub(crate) fn verify_signature(pk: &[u8; 32], msg: &Vec<u8>, sig: &[u8; 64]) -> (r: bool)
    ensures
        r == ed25519_verifies(pk@, msg@, sig@),
{
    solana_sdk::signature::Signature::from(*sig).verify(pk, msg)
}

} // verus!
