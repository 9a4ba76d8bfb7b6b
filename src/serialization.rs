use vstd::prelude::*;

use bs58::decode::Error as Bs58DecodeError;

use crate::group::{canonical_scalar, le_value, scalar_bytes, point_is_valid, scalar_from_wide, valid_point};
use crate::group::{group_order, lemma_group_order_pos, lemma_le_injective, lemma_le_zero_pad, scalar_add};

verus! {

/// The first byte of every wire artifact, naming its kind.
#[derive(Debug, Clone, Copy, PartialEq, Eq, Structural)]
pub enum Tag {
    AggMessage1,
    PartialSignature,
    SecretAggStepOne,
    /// Any byte that names no kind; it never matches an expected kind.
    Unknown,
}

/// The byte that stands for each known kind.
pub open spec fn tag_byte(t: Tag) -> u8 {
    match t {
        Tag::AggMessage1 => 1,
        Tag::PartialSignature => 2,
        Tag::SecretAggStepOne => 3,
        Tag::Unknown => 0,
    }
}

pub open spec fn tag_of_byte(b: u8) -> Tag {
    if b == 1 {
        Tag::AggMessage1
    } else if b == 2 {
        Tag::PartialSignature
    } else if b == 3 {
        Tag::SecretAggStepOne
    } else {
        Tag::Unknown
    }
}

impl Tag {
    pub fn from_byte(b: u8) -> (r: Tag)
        ensures
            r == tag_of_byte(b),
    {
        if b == 1 {
            Tag::AggMessage1
        } else if b == 2 {
            Tag::PartialSignature
        } else if b == 3 {
            Tag::SecretAggStepOne
        } else {
            Tag::Unknown
        }
    }

    /// The byte written for a known kind (zero for `Unknown`).
    pub fn to_byte(&self) -> (r: u8)
        ensures
            r == tag_byte(*self),
    {
        match self {
            Tag::AggMessage1 => 1,
            Tag::PartialSignature => 2,
            Tag::SecretAggStepOne => 3,
            Tag::Unknown => 0,
        }
    }

    /// A human-readable name of the kind.
    pub fn name(&self) -> &'static str {
        match self {
            Tag::AggMessage1 => "Aggregation Message 1",
            Tag::PartialSignature => "Partial Signature",
            Tag::SecretAggStepOne => "Secret Aggregation Step One",
            Tag::Unknown => "Unknown",
        }
    }
}

impl From<u8> for Tag {
    fn from(b: u8) -> (r: Tag) {
        Tag::from_byte(b)
    }
}

impl vstd::std_specs::convert::FromSpecImpl<u8> for Tag {
    open spec fn obeys_from_spec() -> bool {
        true
    }

    open spec fn from_spec(b: u8) -> Tag {
        tag_of_byte(b)
    }
}

/// Failures of the wire codec.
#[allow(inconsistent_fields)]
#[derive(Debug, Clone, Copy, PartialEq, Eq, Structural)]
pub enum Error {
    /// The decoded bytes are fewer than the kind needs.
    InputTooShort { expected: usize, found: usize },
    /// The text is not base58.
    BadBase58,
    /// A point field does not hold a valid group element.
    InvalidPoint,
    /// A scalar field is not canonical modulo the group order.
    InvalidScalar,
    /// The tag byte names another kind than the one asked for.
    WrongTag { expected: Tag, found: Tag },
    /// Partial signatures disagree on the round nonce.
    MismatchMessages,
}

/// The pair of secret nonces that one party draws for a signing session.
#[derive(Debug, Clone, Copy, PartialEq, Eq)]
pub struct PrivatePartialNonces {
    pub r0: [u8; 32],
    pub r1: [u8; 32],
}

/// The public commitments to a pair of nonces: each nonce times the base point.
#[derive(Debug, Clone, Copy, PartialEq, Eq)]
pub struct PublicPartialNonces {
    pub big_r0: [u8; 32],
    pub big_r1: [u8; 32],
}

/// The first-round message: a party's public nonces and its public key.
#[derive(Debug, Clone, Copy, PartialEq, Eq)]
pub struct AggMessage1 {
    pub public_nonces: PublicPartialNonces,
    pub sender: [u8; 32],
}

/// What a party keeps from the first round to the second.
#[derive(Debug, Clone, Copy, PartialEq, Eq)]
pub struct SecretAggStepOne {
    pub private_nonces: PrivatePartialNonces,
    pub public_nonces: PublicPartialNonces,
}

/// One party's share of the signature: the round nonce `R` and the party's
/// scalar `s_i`, 64 bytes as `R ‖ s_i`.
#[derive(Debug, Clone, Copy, PartialEq, Eq)]
pub struct PartialSignature(pub [u8; 64]);

pub open spec fn public_nonces_wf(n: PublicPartialNonces) -> bool {
    valid_point(n.big_r0@) && valid_point(n.big_r1@)
}

pub open spec fn private_nonces_wf(n: PrivatePartialNonces) -> bool {
    canonical_scalar(n.r0@) && canonical_scalar(n.r1@)
}

impl AggMessage1 {
    pub open spec fn wf(&self) -> bool {
        public_nonces_wf(self.public_nonces)
    }
}

impl SecretAggStepOne {
    pub open spec fn wf(&self) -> bool {
        private_nonces_wf(self.private_nonces) && public_nonces_wf(self.public_nonces)
    }
}

/// The nonce half of a partial signature.
pub open spec fn sig_r(s: Seq<u8>) -> Seq<u8> {
    s.subrange(0, 32)
}

/// The scalar half of a partial signature.
pub open spec fn sig_s(s: Seq<u8>) -> Seq<u8> {
    s.subrange(32, 64)
}

impl PartialSignature {
    pub open spec fn wf(&self) -> bool {
        valid_point(sig_r(self.0@)) && canonical_scalar(sig_s(self.0@))
    }
}

pub const AGG_MESSAGE1_LEN: usize = 97;

pub const SECRET_STEP_ONE_LEN: usize = 129;

pub const PARTIAL_SIGNATURE_LEN: usize = 65;

/// The wire bytes of a first-round message.
pub open spec fn agg_message1_bytes(m: AggMessage1) -> Seq<u8> {
    seq![1u8] + m.public_nonces.big_r0@ + m.public_nonces.big_r1@ + m.sender@
}

/// The wire bytes of the state kept between rounds.
pub open spec fn secret_step_one_bytes(m: SecretAggStepOne) -> Seq<u8> {
    seq![3u8] + m.private_nonces.r0@ + m.private_nonces.r1@ + m.public_nonces.big_r0@
        + m.public_nonces.big_r1@
}

/// The wire bytes of a partial signature.
pub open spec fn partial_signature_bytes(p: PartialSignature) -> Seq<u8> {
    seq![2u8] + p.0@
}

/// How decoding the bytes `b` as a first-round message must come out.
pub open spec fn agg_message1_decodes(b: Seq<u8>, r: Result<AggMessage1, Error>) -> bool {
    if b.len() < AGG_MESSAGE1_LEN {
        r == Err::<AggMessage1, Error>(
            Error::InputTooShort { expected: AGG_MESSAGE1_LEN, found: b.len() as usize },
        )
    } else if tag_of_byte(b[0]) != Tag::AggMessage1 {
        r == Err::<AggMessage1, Error>(
            Error::WrongTag { expected: Tag::AggMessage1, found: tag_of_byte(b[0]) },
        )
    } else if !valid_point(b.subrange(1, 33)) || !valid_point(b.subrange(33, 65)) {
        r == Err::<AggMessage1, Error>(Error::InvalidPoint)
    } else {
        r matches Ok(m) && m.public_nonces.big_r0@ == b.subrange(1, 33)
            && m.public_nonces.big_r1@ == b.subrange(33, 65) && m.sender@ == b.subrange(65, 97)
    }
}

/// How decoding the bytes `b` as the state kept between rounds must come out.
pub open spec fn secret_step_one_decodes(b: Seq<u8>, r: Result<SecretAggStepOne, Error>) -> bool {
    if b.len() < SECRET_STEP_ONE_LEN {
        r == Err::<SecretAggStepOne, Error>(
            Error::InputTooShort { expected: SECRET_STEP_ONE_LEN, found: b.len() as usize },
        )
    } else if tag_of_byte(b[0]) != Tag::SecretAggStepOne {
        r == Err::<SecretAggStepOne, Error>(
            Error::WrongTag { expected: Tag::SecretAggStepOne, found: tag_of_byte(b[0]) },
        )
    } else if !canonical_scalar(b.subrange(1, 33)) || !canonical_scalar(b.subrange(33, 65)) {
        r == Err::<SecretAggStepOne, Error>(Error::InvalidScalar)
    } else if !valid_point(b.subrange(65, 97)) || !valid_point(b.subrange(97, 129)) {
        r == Err::<SecretAggStepOne, Error>(Error::InvalidPoint)
    } else {
        r matches Ok(m) && m.private_nonces.r0@ == b.subrange(1, 33)
            && m.private_nonces.r1@ == b.subrange(33, 65)
            && m.public_nonces.big_r0@ == b.subrange(65, 97)
            && m.public_nonces.big_r1@ == b.subrange(97, 129)
    }
}

/// How decoding the bytes `b` as a partial signature must come out.
pub open spec fn partial_signature_decodes(b: Seq<u8>, r: Result<PartialSignature, Error>) -> bool {
    if b.len() < PARTIAL_SIGNATURE_LEN {
        r == Err::<PartialSignature, Error>(
            Error::InputTooShort { expected: PARTIAL_SIGNATURE_LEN, found: b.len() as usize },
        )
    } else if tag_of_byte(b[0]) != Tag::PartialSignature {
        r == Err::<PartialSignature, Error>(
            Error::WrongTag { expected: Tag::PartialSignature, found: tag_of_byte(b[0]) },
        )
    } else if !valid_point(b.subrange(1, 33)) {
        r == Err::<PartialSignature, Error>(Error::InvalidPoint)
    } else if !canonical_scalar(b.subrange(33, 65)) {
        r == Err::<PartialSignature, Error>(Error::InvalidScalar)
    } else {
        r matches Ok(p) && p.0@ == b.subrange(1, 65)
    }
}

/// Copies 32 bytes of `b` from `start` on.
fn read32(b: &[u8], start: usize) -> (r: [u8; 32])
    requires
        start + 32 <= b@.len(),
    ensures
        r@ == b@.subrange(start as int, start + 32),
{
    let n = b.len();
    let mut out = [0u8; 32];
    let mut i: usize = 0;
    while i < 32
        invariant
            i <= 32,
            n == b@.len(),
            start + 32 <= n,
            forall|j: int| 0 <= j < i ==> out@[j] == b@[start + j],
        decreases 32 - i,
    {
        out[i] = b[start + i];
        i = i + 1;
    }
    assert(out@ =~= b@.subrange(start as int, start + 32));
    out
}

/// Appends the bytes of `a` to `out`.
pub(crate) fn append_bytes(out: &mut Vec<u8>, a: &[u8]) 
    ensures
        final(out)@ == old(out)@ + a@,
{
    let mut i: usize = 0;
    while i < a.len()
        invariant
            i <= a@.len(),
            out@ == old(out)@ + a@.subrange(0, i as int),
        decreases a@.len() - i,
    {
        out.push(a[i]);
        i = i + 1;
        assert(a@.subrange(0, i as int) =~= a@.subrange(0, i - 1) + seq![a@[i - 1]]);
    }
    assert(a@.subrange(0, i as int) =~= a@);
}

/// Whether 32 bytes hold a number below the group order. The bytes are
/// reduced modulo the order; they are canonical exactly when that changes
/// nothing.
pub fn is_canonical_scalar(s: &[u8; 32]) -> (r: bool)
    ensures
        r == canonical_scalar(s@),
{
    let mut wide = [0u8; 64];
    let mut i: usize = 0;
    while i < 32
        invariant
            i <= 32,
            forall|j: int| 0 <= j < i ==> wide@[j] == s@[j],
            forall|j: int| 32 <= j < 64 ==> wide@[j] == 0,
        decreases 32 - i,
    {
        wide[i] = s[i];
        i = i + 1;
    }
    proof {
        assert(wide@ =~= s@ + wide@.subrange(32, 64));
        lemma_le_zero_pad(s@, wide@.subrange(32, 64));
    }
    let reduced = scalar_from_wide(&wide);
    let mut same = true;
    let mut k: usize = 0;
    while k < 32
        invariant
            k <= 32,
            same == (forall|j: int| 0 <= j < k ==> reduced@[j] == s@[j]),
        decreases 32 - k,
    {
        if reduced[k] != s[k] {
            same = false;
        }
        k = k + 1;
    }
    proof {
        if same {
            assert(reduced@ =~= s@);
        } else if le_value(s@) < group_order() {
            vstd::arithmetic::div_mod::lemma_small_mod(le_value(s@), group_order());
            lemma_le_injective(reduced@, s@);
        }
    }
    same
}

impl AggMessage1 {
    pub fn size_hint(&self) -> (r: usize)
        ensures
            r == AGG_MESSAGE1_LEN,
    {
        AGG_MESSAGE1_LEN
    }

    /// Appends the wire bytes of the message.
    pub fn serialize(&self, append_to: &mut Vec<u8>)
        ensures
            final(append_to)@ == old(append_to)@ + agg_message1_bytes(*self),
    {
        append_to.push(1u8);
        append_bytes(append_to, self.public_nonces.big_r0.as_slice());
        append_bytes(append_to, self.public_nonces.big_r1.as_slice());
        append_bytes(append_to, self.sender.as_slice());
        proof {
            assert(final(append_to)@ =~= old(append_to)@ + agg_message1_bytes(*self));
        }
    }

    pub fn deserialize(b: &[u8]) -> (r: Result<AggMessage1, Error>)
        ensures
            agg_message1_decodes(b@, r),
    {
        if b.len() < AGG_MESSAGE1_LEN {
            return Err(Error::InputTooShort { expected: AGG_MESSAGE1_LEN, found: b.len() });
        }
        let tag = Tag::from_byte(b[0]);
        if tag != Tag::AggMessage1 {
            return Err(Error::WrongTag { expected: Tag::AggMessage1, found: tag });
        }
        let big_r0 = read32(b, 1);
        let big_r1 = read32(b, 33);
        if !point_is_valid(&big_r0) || !point_is_valid(&big_r1) {
            return Err(Error::InvalidPoint);
        }
        let sender = read32(b, 65);
        Ok(AggMessage1 { public_nonces: PublicPartialNonces { big_r0, big_r1 }, sender })
    }
}

impl SecretAggStepOne {
    pub fn size_hint(&self) -> (r: usize)
        ensures
            r == SECRET_STEP_ONE_LEN,
    {
        SECRET_STEP_ONE_LEN
    }

    /// Appends the wire bytes of the state.
    pub fn serialize(&self, append_to: &mut Vec<u8>)
        ensures
            final(append_to)@ == old(append_to)@ + secret_step_one_bytes(*self),
    {
        append_to.push(3u8);
        append_bytes(append_to, self.private_nonces.r0.as_slice());
        append_bytes(append_to, self.private_nonces.r1.as_slice());
        append_bytes(append_to, self.public_nonces.big_r0.as_slice());
        append_bytes(append_to, self.public_nonces.big_r1.as_slice());
        proof {
            assert(final(append_to)@ =~= old(append_to)@ + secret_step_one_bytes(*self));
        }
    }

    pub fn deserialize(b: &[u8]) -> (r: Result<SecretAggStepOne, Error>)
        ensures
            secret_step_one_decodes(b@, r),
    {
        if b.len() < SECRET_STEP_ONE_LEN {
            return Err(Error::InputTooShort { expected: SECRET_STEP_ONE_LEN, found: b.len() });
        }
        let tag = Tag::from_byte(b[0]);
        if tag != Tag::SecretAggStepOne {
            return Err(Error::WrongTag { expected: Tag::SecretAggStepOne, found: tag });
        }
        let r0 = read32(b, 1);
        let r1 = read32(b, 33);
        if !is_canonical_scalar(&r0) || !is_canonical_scalar(&r1) {
            return Err(Error::InvalidScalar);
        }
        let big_r0 = read32(b, 65);
        let big_r1 = read32(b, 97);
        if !point_is_valid(&big_r0) || !point_is_valid(&big_r1) {
            return Err(Error::InvalidPoint);
        }
        Ok(
            SecretAggStepOne {
                private_nonces: PrivatePartialNonces { r0, r1 },
                public_nonces: PublicPartialNonces { big_r0, big_r1 },
            },
        )
    }
}

impl PartialSignature {
    pub fn size_hint(&self) -> (r: usize)
        ensures
            r == PARTIAL_SIGNATURE_LEN,
    {
        PARTIAL_SIGNATURE_LEN
    }

    /// Appends the wire bytes of the partial signature.
    pub fn serialize(&self, append_to: &mut Vec<u8>)
        ensures
            final(append_to)@ == old(append_to)@ + partial_signature_bytes(*self),
    {
        append_to.push(2u8);
        append_bytes(append_to, self.0.as_slice());
        proof {
            assert(final(append_to)@ =~= old(append_to)@ + partial_signature_bytes(*self));
        }
    }

    pub fn deserialize(b: &[u8]) -> (r: Result<PartialSignature, Error>)
        ensures
            partial_signature_decodes(b@, r),
    {
        if b.len() < PARTIAL_SIGNATURE_LEN {
            return Err(Error::InputTooShort { expected: PARTIAL_SIGNATURE_LEN, found: b.len() });
        }
        let tag = Tag::from_byte(b[0]);
        if tag != Tag::PartialSignature {
            return Err(Error::WrongTag { expected: Tag::PartialSignature, found: tag });
        }
        let big_r = read32(b, 1);
        if !point_is_valid(&big_r) {
            return Err(Error::InvalidPoint);
        }
        let s = read32(b, 33);
        if !is_canonical_scalar(&s) {
            return Err(Error::InvalidScalar);
        }
        let mut sig = [0u8; 64];
        let mut i: usize = 0;
        while i < 64
            invariant
                i <= 64,
                b@.len() >= 65,
                forall|j: int| 0 <= j < i ==> sig@[j] == b@[1 + j],
            decreases 64 - i,
        {
            sig[i] = b[1 + i];
            i = i + 1;
        }
        assert(sig@ =~= b@.subrange(1, 65));
        Ok(PartialSignature(sig))
    }
}

/// The number that a byte string stands for, most significant byte first.
pub open spec fn be_value(b: Seq<u8>) -> nat
    decreases b.len(),
{
    if b.len() == 0 {
        0
    } else {
        be_value(b.drop_last()) * 256 + b.last() as nat
    }
}

/// The number of zero bytes that a byte string starts with.
pub open spec fn leading_zeros(b: Seq<u8>) -> nat
    decreases b.len(),
{
    if b.len() > 0 && b[0] == 0 {
        1 + leading_zeros(b.drop_first())
    } else {
        0
    }
}

/// The base58 digit `d` of the Bitcoin alphabet.
pub open spec fn base58_char(d: nat) -> char {
    "123456789ABCDEFGHJKLMNPQRSTUVWXYZabcdefghijkmnopqrstuvwxyz"@[d as int]
}

/// The base58 digits of a number, most significant first; none for zero.
pub open spec fn base58_digits(n: nat) -> Seq<char>
    decreases n,
{
    if n == 0 {
        Seq::empty()
    } else {
        base58_digits(n / 58).push(base58_char(n % 58))
    }
}

/// The base58 text of a byte string: a `1` for each leading zero byte, then
/// the digits of the number that the bytes stand for.
pub open spec fn bs58_text(b: Seq<u8>) -> Seq<char> {
    Seq::new(leading_zeros(b), |i: int| '1') + base58_digits(be_value(b))
}

/// The bytes that a base58 text stands for, if it is base58 at all.
pub uninterp spec fn bs58_decode_of(s: Seq<char>) -> Option<Seq<u8>>;

#[verifier::external_type_specification]
#[verifier::external_body]
pub struct ExBs58DecodeError(Bs58DecodeError);

/// Relies on `bs58::encode(..).into_string()` with the default (Bitcoin)
/// alphabet; base58 is a lossless encoding, so decoding the text gives the
/// bytes back.
#[verifier::external_body]
fn bs58_encode(b: &Vec<u8>) -> (r: String)
    ensures
        r@ == bs58_text(b@),
        bs58_decode_of(r@) == Some(b@),
{
    bs58::encode(b).into_string()
}

/// Relies on `bs58::decode(..).into_vec()`.
#[verifier::external_body]
fn bs58_decode(s: &str) -> (r: Result<Vec<u8>, Bs58DecodeError>)
    ensures
        match r {
            Ok(v) => bs58_decode_of(s@) == Some(v@),
            Err(_) => bs58_decode_of(s@) is None,
        },
{
    bs58::decode(s).into_vec()
}

impl AggMessage1 {
    /// The wire bytes, in base58.
    pub fn serialize_bs58(&self) -> (r: String)
        ensures
            r@ == bs58_text(agg_message1_bytes(*self)),
            bs58_decode_of(r@) == Some(agg_message1_bytes(*self)),
    {
        let mut v: Vec<u8> = Vec::new();
        self.serialize(&mut v);
        assert(v@ =~= agg_message1_bytes(*self));
        bs58_encode(&v)
    }

    pub fn deserialize_bs58(s: &str) -> (r: Result<AggMessage1, Error>)
        ensures
            match bs58_decode_of(s@) {
                None => r == Err::<AggMessage1, Error>(Error::BadBase58),
                Some(b) => agg_message1_decodes(b, r),
            },
    {
        match bs58_decode(s) {
            Ok(v) => AggMessage1::deserialize(v.as_slice()),
            Err(_) => Err(Error::BadBase58),
        }
    }
}

impl SecretAggStepOne {
    /// The wire bytes, in base58.
    pub fn serialize_bs58(&self) -> (r: String)
        ensures
            r@ == bs58_text(secret_step_one_bytes(*self)),
            bs58_decode_of(r@) == Some(secret_step_one_bytes(*self)),
    {
        let mut v: Vec<u8> = Vec::new();
        self.serialize(&mut v);
        assert(v@ =~= secret_step_one_bytes(*self));
        bs58_encode(&v)
    }

    pub fn deserialize_bs58(s: &str) -> (r: Result<SecretAggStepOne, Error>)
        ensures
            match bs58_decode_of(s@) {
                None => r == Err::<SecretAggStepOne, Error>(Error::BadBase58),
                Some(b) => secret_step_one_decodes(b, r),
            },
    {
        match bs58_decode(s) {
            Ok(v) => SecretAggStepOne::deserialize(v.as_slice()),
            Err(_) => Err(Error::BadBase58),
        }
    }
}

impl PartialSignature {
    /// The wire bytes, in base58.
    pub fn serialize_bs58(&self) -> (r: String)
        ensures
            r@ == bs58_text(partial_signature_bytes(*self)),
            bs58_decode_of(r@) == Some(partial_signature_bytes(*self)),
    {
        let mut v: Vec<u8> = Vec::new();
        self.serialize(&mut v);
        assert(v@ =~= partial_signature_bytes(*self));
        bs58_encode(&v)
    }

    pub fn deserialize_bs58(s: &str) -> (r: Result<PartialSignature, Error>)
        ensures
            match bs58_decode_of(s@) {
                None => r == Err::<PartialSignature, Error>(Error::BadBase58),
                Some(b) => partial_signature_decodes(b, r),
            },
    {
        match bs58_decode(s) {
            Ok(v) => PartialSignature::deserialize(v.as_slice()),
            Err(_) => Err(Error::BadBase58),
        }
    }
}

/// Decoding the wire bytes of a well-formed first-round message succeeds, and
/// every decoding holds the same bytes in every field.
pub proof fn lemma_agg_message1_round_trip(m: AggMessage1, r: Result<AggMessage1, Error>)
    requires
        m.wf(),
        agg_message1_decodes(agg_message1_bytes(m), r),
    ensures
        r matches Ok(d) && d.public_nonces.big_r0@ == m.public_nonces.big_r0@
            && d.public_nonces.big_r1@ == m.public_nonces.big_r1@ && d.sender@ == m.sender@,
{
    let b = agg_message1_bytes(m);
    assert(b.subrange(1, 33) =~= m.public_nonces.big_r0@);
    assert(b.subrange(33, 65) =~= m.public_nonces.big_r1@);
    assert(b.subrange(65, 97) =~= m.sender@);
}

/// Decoding the wire bytes of well-formed state kept between rounds succeeds,
/// and every decoding holds the same bytes in every field.
pub proof fn lemma_secret_step_one_round_trip(m: SecretAggStepOne, r: Result<SecretAggStepOne, Error>)
    requires
        m.wf(),
        secret_step_one_decodes(secret_step_one_bytes(m), r),
    ensures
        r matches Ok(d) && d.private_nonces.r0@ == m.private_nonces.r0@
            && d.private_nonces.r1@ == m.private_nonces.r1@
            && d.public_nonces.big_r0@ == m.public_nonces.big_r0@
            && d.public_nonces.big_r1@ == m.public_nonces.big_r1@,
{
    let b = secret_step_one_bytes(m);
    assert(b.subrange(1, 33) =~= m.private_nonces.r0@);
    assert(b.subrange(33, 65) =~= m.private_nonces.r1@);
    assert(b.subrange(65, 97) =~= m.public_nonces.big_r0@);
    assert(b.subrange(97, 129) =~= m.public_nonces.big_r1@);
}

/// Decoding the wire bytes of a well-formed partial signature succeeds, and
/// every decoding holds the same 64 bytes.
pub proof fn lemma_partial_signature_round_trip(p: PartialSignature, r: Result<PartialSignature, Error>)
    requires
        p.wf(),
        partial_signature_decodes(partial_signature_bytes(p), r),
    ensures
        r matches Ok(d) && d.0@ == p.0@,
{
    let b = partial_signature_bytes(p);
    assert(b.subrange(1, 65) =~= p.0@);
    assert(b.subrange(1, 33) =~= sig_r(p.0@));
    assert(b.subrange(33, 65) =~= sig_s(p.0@));
}

/// The wire bytes of one kind, decoded as another kind whose length they
/// reach, are refused with `WrongTag` naming both kinds.
pub proof fn lemma_tag_discrimination(
    m: AggMessage1,
    st: SecretAggStepOne,
    r1: Result<PartialSignature, Error>,
    r2: Result<AggMessage1, Error>,
    r3: Result<PartialSignature, Error>,
)
    requires
        partial_signature_decodes(agg_message1_bytes(m), r1),
        agg_message1_decodes(secret_step_one_bytes(st), r2),
        partial_signature_decodes(secret_step_one_bytes(st), r3),
    ensures
        r1 == Err::<PartialSignature, Error>(
            Error::WrongTag { expected: Tag::PartialSignature, found: Tag::AggMessage1 },
        ),
        r2 == Err::<AggMessage1, Error>(
            Error::WrongTag { expected: Tag::AggMessage1, found: Tag::SecretAggStepOne },
        ),
        r3 == Err::<PartialSignature, Error>(
            Error::WrongTag { expected: Tag::PartialSignature, found: Tag::SecretAggStepOne },
        ),
{
    assert(agg_message1_bytes(m)[0] == 1u8);
    assert(secret_step_one_bytes(st)[0] == 3u8);
}

/// All partial signatures carry the same round nonce.
pub open spec fn same_nonce(ps: Seq<PartialSignature>) -> bool {
    forall|i: int, j: int|
        0 <= i < ps.len() && 0 <= j < ps.len() ==> #[trigger] sig_r(ps[i].0@) == #[trigger] sig_r(
            ps[j].0@,
        )
}

/// Every partial signature carries a canonical scalar.
pub open spec fn all_scalars_canonical(ps: Seq<PartialSignature>) -> bool {
    forall|i: int| 0 <= i < ps.len() ==> canonical_scalar(#[trigger] sig_s(ps[i].0@))
}

/// The sum of the scalars of the partial signatures, as a number.
pub open spec fn scalar_sum(ps: Seq<PartialSignature>) -> nat
    decreases ps.len(),
{
    if ps.len() == 0 {
        0
    } else {
        scalar_sum(ps.drop_last()) + le_value(sig_s(ps.last().0@))
    }
}

/// How aggregating the partial signatures `ps` must come out: refused when
/// there are none, when they disagree on the nonce, when the nonce is no point
/// or a scalar is not canonical; otherwise the shared nonce followed by the
/// sum of the scalars modulo the group order.
pub open spec fn aggregation_result(ps: Seq<PartialSignature>, r: Result<[u8; 64], Error>) -> bool {
    if ps.len() == 0 {
        r == Err::<[u8; 64], Error>(Error::InputTooShort { expected: 1, found: 0 })
    } else if !same_nonce(ps) {
        r == Err::<[u8; 64], Error>(Error::MismatchMessages)
    } else if !valid_point(sig_r(ps[0].0@)) {
        r == Err::<[u8; 64], Error>(Error::InvalidPoint)
    } else if !all_scalars_canonical(ps) {
        r == Err::<[u8; 64], Error>(Error::InvalidScalar)
    } else {
        r matches Ok(sig) && sig@ == sig_r(ps[0].0@) + scalar_bytes(scalar_sum(ps) % group_order())
    }
}

/// Whether the first 32 bytes of two signatures agree.
fn same_r(a: &[u8; 64], b: &[u8; 64]) -> (r: bool)
    ensures
        r == (sig_r(a@) == sig_r(b@)),
{
    let mut k: usize = 0;
    while k < 32
        invariant
            k <= 32,
            forall|j: int| 0 <= j < k ==> a@[j] == b@[j],
        decreases 32 - k,
    {
        if a[k] != b[k] {
            assert(sig_r(a@)[k as int] != sig_r(b@)[k as int]);
            return false;
        }
        k = k + 1;
    }
    assert(sig_r(a@) =~= sig_r(b@));
    true
}

impl PartialSignature {
    /// Adds up partial signatures that share one round nonce into a full
    /// 64-byte signature `R ‖ s`, with `s` the sum of the scalars.
    pub fn aggregate_signatures(signatures: &[PartialSignature]) -> (r: Result<[u8; 64], Error>)
        ensures
            aggregation_result(signatures@, r),
    {
        let n = signatures.len();
        if n == 0 {
            return Err(Error::InputTooShort { expected: 1, found: 0 });
        }
        let first = signatures[0].0;
        let mut i: usize = 1;
        while i < n
            invariant
                1 <= i <= n,
                n == signatures@.len(),
                first == signatures@[0].0,
                forall|j: int| 0 <= j < i ==> sig_r(#[trigger] signatures@[j].0@) == sig_r(first@),
            decreases n - i,
        {
            if !same_r(&signatures[i].0, &first) {
                return Err(Error::MismatchMessages);
            }
            i = i + 1;
        }
        let big_r = read32(first.as_slice(), 0);
        if !point_is_valid(&big_r) {
            return Err(Error::InvalidPoint);
        }
        let ghost ps = signatures@;
        assert(same_nonce(ps));
        assert(big_r@ == sig_r(ps[0].0@));
        let mut acc = [0u8; 32];
        proof {
            lemma_group_order_pos();
            assert(forall|j: int| 0 <= j < 32 ==> acc@[j] == 0);
            lemma_le_zero_pad(Seq::<u8>::empty(), acc@);
            assert(Seq::<u8>::empty() + acc@ =~= acc@);
            assert(le_value(acc@) == 0);
            vstd::arithmetic::div_mod::lemma_small_mod(0, group_order());
            assert(ps.take(0) =~= Seq::<PartialSignature>::empty());
        }
        let mut k: usize = 0;
        while k < n
            invariant
                k <= n,
                n == ps.len(),
                ps == signatures@,
                same_nonce(ps),
                valid_point(sig_r(ps[0].0@)),
                le_value(acc@) == scalar_sum(ps.take(k as int)) % group_order(),
                k >= 1 ==> acc@ == scalar_bytes(scalar_sum(ps.take(k as int)) % group_order()),
                forall|j: int| 0 <= j < k ==> canonical_scalar(#[trigger] sig_s(ps[j].0@)),
            decreases n - k,
        {
            let s = read32(signatures[k].0.as_slice(), 32);
            assert(s@ == sig_s(ps[k as int].0@));
            if !is_canonical_scalar(&s) {
                return Err(Error::InvalidScalar);
            }
            proof {
                assert(s@ == sig_s(ps[k as int].0@));
                assert(ps.take(k + 1).drop_last() =~= ps.take(k as int));
                vstd::arithmetic::div_mod::lemma_add_mod_noop(
                    scalar_sum(ps.take(k as int)) as int,
                    le_value(s@) as int,
                    group_order() as int,
                );
                vstd::arithmetic::div_mod::lemma_small_mod(le_value(s@), group_order());
                vstd::arithmetic::div_mod::lemma_mod_pos_bound(
                    scalar_sum(ps.take(k as int)) as int,
                    group_order() as int,
                );
            }
            acc = scalar_add(&acc, &s);
            k = k + 1;
        }
        assert(ps.take(n as int) =~= ps);
        let mut sig = [0u8; 64];
        let mut m: usize = 0;
        while m < 32
            invariant
                m <= 32,
                forall|j: int| 0 <= j < m ==> sig@[j] == big_r@[j],
            decreases 32 - m,
        {
            sig[m] = big_r[m];
            m = m + 1;
        }
        while m < 64
            invariant
                32 <= m <= 64,
                forall|j: int| 0 <= j < 32 ==> sig@[j] == big_r@[j],
                forall|j: int| 32 <= j < m ==> sig@[j] == acc@[j - 32],
            decreases 64 - m,
        {
            sig[m] = acc[m - 32];
            m = m + 1;
        }
        assert(sig@ =~= big_r@ + acc@);
        Ok(sig)
    }
}

proof fn lemma_scalar_sum_remove(ps: Seq<PartialSignature>, j: int)
    requires
        0 <= j < ps.len(),
    ensures
        scalar_sum(ps) == scalar_sum(ps.remove(j)) + le_value(sig_s(ps[j].0@)),
    decreases ps.len(),
{
    if j == ps.len() - 1 {
        assert(ps.remove(j) =~= ps.drop_last());
    } else {
        assert(ps.remove(j).drop_last() =~= ps.drop_last().remove(j));
        assert(ps.remove(j).last() == ps.last());
        lemma_scalar_sum_remove(ps.drop_last(), j);
    }
}

proof fn lemma_scalar_sum_permutation(a: Seq<PartialSignature>, b: Seq<PartialSignature>)
    requires
        a.to_multiset() == b.to_multiset(),
    ensures
        scalar_sum(a) == scalar_sum(b),
    decreases a.len(),
{
    broadcast use vstd::seq_lib::group_to_multiset_ensures;

    assert(a.len() == a.to_multiset().len());
    assert(b.len() == b.to_multiset().len());
    if a.len() == 0 {
        assert(b.len() == 0);
        assert(a =~= b);
    } else {
        let x = a.last();
        assert(a =~= a.drop_last().push(x));
        assert(a.to_multiset().count(x) > 0);
        assert(b.contains(x));
        let j = choose|j: int| 0 <= j < b.len() && b[j] == x;
        lemma_scalar_sum_remove(b, j);
        assert(b.remove(j).to_multiset() =~= b.to_multiset().remove(x));
        assert(a.drop_last().to_multiset() =~= a.to_multiset().remove(x));
        lemma_scalar_sum_permutation(a.drop_last(), b.remove(j));
    }
}

/// Aggregation does not depend on the order of the partial signatures: two
/// lists with the same members give the same outcome, byte for byte.
pub proof fn lemma_aggregation_commutes(
    a: Seq<PartialSignature>,
    b: Seq<PartialSignature>,
    ra: Result<[u8; 64], Error>,
    rb: Result<[u8; 64], Error>,
)
    requires
        a.to_multiset() == b.to_multiset(),
        aggregation_result(a, ra),
        aggregation_result(b, rb),
    ensures
        match (ra, rb) {
            (Ok(x), Ok(y)) => x@ == y@,
            (Err(e), Err(f)) => e == f,
            _ => false,
        },
{
    broadcast use vstd::seq_lib::group_to_multiset_ensures;

    assert(a.len() == a.to_multiset().len());
    assert(b.len() == b.to_multiset().len());
    if a.len() > 0 {
        assert(a.to_multiset().count(b[0]) > 0);
        let i0 = choose|i: int| 0 <= i < a.len() && a[i] == b[0];
        assert(b.to_multiset().count(a[0]) > 0);
        assert(same_nonce(a) == same_nonce(b)) by {
            if same_nonce(a) {
                assert forall|i: int, j: int| 0 <= i < b.len() && 0 <= j < b.len() implies #[trigger] sig_r(
                    b[i].0@,
                ) == #[trigger] sig_r(b[j].0@) by {
                    assert(a.to_multiset().count(b[i]) > 0);
                    assert(a.to_multiset().count(b[j]) > 0);
                    let p = choose|p: int| 0 <= p < a.len() && a[p] == b[i];
                    let q = choose|q: int| 0 <= q < a.len() && a[q] == b[j];
                    assert(sig_r(a[p].0@) == sig_r(a[q].0@));
                }
            }
            if same_nonce(b) {
                assert forall|i: int, j: int| 0 <= i < a.len() && 0 <= j < a.len() implies #[trigger] sig_r(
                    a[i].0@,
                ) == #[trigger] sig_r(a[j].0@) by {
                    assert(b.to_multiset().count(a[i]) > 0);
                    assert(b.to_multiset().count(a[j]) > 0);
                    let p = choose|p: int| 0 <= p < b.len() && b[p] == a[i];
                    let q = choose|q: int| 0 <= q < b.len() && b[q] == a[j];
                    assert(sig_r(b[p].0@) == sig_r(b[q].0@));
                }
            }
        }
        if same_nonce(a) {
            assert(sig_r(a[i0].0@) == sig_r(a[0].0@));
            assert(all_scalars_canonical(a) == all_scalars_canonical(b)) by {
                if all_scalars_canonical(a) {
                    assert forall|i: int| 0 <= i < b.len() implies canonical_scalar(
                        #[trigger] sig_s(b[i].0@),
                    ) by {
                        assert(a.to_multiset().count(b[i]) > 0);
                        let p = choose|p: int| 0 <= p < a.len() && a[p] == b[i];
                        assert(canonical_scalar(sig_s(a[p].0@)));
                    }
                }
                if all_scalars_canonical(b) {
                    assert forall|i: int| 0 <= i < a.len() implies canonical_scalar(
                        #[trigger] sig_s(a[i].0@),
                    ) by {
                        assert(b.to_multiset().count(a[i]) > 0);
                        let p = choose|p: int| 0 <= p < b.len() && b[p] == a[i];
                        assert(canonical_scalar(sig_s(b[p].0@)));
                    }
                }
            }
            lemma_scalar_sum_permutation(a, b);
        }
    }
}

/// Among partial signatures that agree on the nonce, putting in one place a
/// partial signature with another nonce makes aggregation fail with
/// `MismatchMessages`.
pub proof fn lemma_nonce_mismatch_detected(
    ps: Seq<PartialSignature>,
    k: int,
    p: PartialSignature,
    r: Result<[u8; 64], Error>,
)
    requires
        ps.len() >= 2,
        0 <= k < ps.len(),
        same_nonce(ps),
        sig_r(p.0@) != sig_r(ps[k].0@),
        aggregation_result(ps.update(k, p), r),
    ensures
        r == Err::<[u8; 64], Error>(Error::MismatchMessages),
{
    let q = ps.update(k, p);
    let other = if k == 0 { 1int } else { 0int };
    assert(sig_r(q[other].0@) == sig_r(ps[k].0@));
    assert(sig_r(q[k].0@) != sig_r(q[other].0@));
}

/// The two halves of a partial signature, each validated.
#[derive(Debug, Clone, Copy, PartialEq, Eq)]
pub struct SignatureParts {
    pub big_r: [u8; 32],
    pub my_partial_s: [u8; 32],
}

impl PartialSignature {
    /// The nonce half, when it is a valid point.
    pub fn deserialize_r(s: &[u8; 32]) -> (r: Result<[u8; 32], Error>)
        ensures
            match r {
                Ok(p) => valid_point(s@) && p@ == s@,
                Err(e) => !valid_point(s@) && e == Error::InvalidPoint,
            },
    {
        if point_is_valid(s) {
            Ok(*s)
        } else {
            Err(Error::InvalidPoint)
        }
    }

    /// The scalar half, when it is canonical.
    pub fn deserialize_s(s: &[u8; 32]) -> (r: Result<[u8; 32], Error>)
        ensures
            match r {
                Ok(p) => canonical_scalar(s@) && p@ == s@,
                Err(e) => !canonical_scalar(s@) && e == Error::InvalidScalar,
            },
    {
        if is_canonical_scalar(s) {
            Ok(*s)
        } else {
            Err(Error::InvalidScalar)
        }
    }

    /// Splits the signature into its validated nonce and scalar.
    pub fn to_musig2_partial_signature(&self) -> (r: Result<SignatureParts, Error>)
        ensures
            !valid_point(sig_r(self.0@)) ==> r == Err::<SignatureParts, Error>(Error::InvalidPoint),
            valid_point(sig_r(self.0@)) && !canonical_scalar(sig_s(self.0@)) ==> r == Err::<
                SignatureParts,
                Error,
            >(Error::InvalidScalar),
            self.wf() ==> (r matches Ok(p) && p.big_r@ == sig_r(self.0@) && p.my_partial_s@
                == sig_s(self.0@)),
    {
        let big_r = read32(self.0.as_slice(), 0);
        let s = read32(self.0.as_slice(), 32);
        let big_r = match PartialSignature::deserialize_r(&big_r) {
            Ok(p) => p,
            Err(e) => {
                return Err(e);
            },
        };
        let my_partial_s = match PartialSignature::deserialize_s(&s) {
            Ok(p) => p,
            Err(e) => {
                return Err(e);
            },
        };
        Ok(SignatureParts { big_r, my_partial_s })
    }
}

/// The wire form shared by the artifacts that parties exchange or keep.
pub trait Serialize: Sized {
    /// Appends the wire bytes.
    fn serialize(&self, append_to: &mut Vec<u8>);

    /// Reads the wire bytes.
    fn deserialize(b: &[u8]) -> Result<Self, Error>;

    /// The length of the wire bytes.
    fn size_hint(&self) -> usize;

    /// The wire bytes, in base58.
    fn serialize_bs58(&self) -> String;

    /// Reads the wire bytes from base58 text.
    fn deserialize_bs58(s: &str) -> Result<Self, Error>;
}

impl Serialize for AggMessage1 {
    fn serialize(&self, append_to: &mut Vec<u8>) {
        AggMessage1::serialize(self, append_to)
    }

    fn deserialize(b: &[u8]) -> Result<AggMessage1, Error> {
        AggMessage1::deserialize(b)
    }

    fn size_hint(&self) -> usize {
        AggMessage1::size_hint(self)
    }

    fn serialize_bs58(&self) -> String {
        AggMessage1::serialize_bs58(self)
    }

    fn deserialize_bs58(s: &str) -> Result<AggMessage1, Error> {
        AggMessage1::deserialize_bs58(s)
    }
}

impl Serialize for SecretAggStepOne {
    fn serialize(&self, append_to: &mut Vec<u8>) {
        SecretAggStepOne::serialize(self, append_to)
    }

    fn deserialize(b: &[u8]) -> Result<SecretAggStepOne, Error> {
        SecretAggStepOne::deserialize(b)
    }

    fn size_hint(&self) -> usize {
        SecretAggStepOne::size_hint(self)
    }

    fn serialize_bs58(&self) -> String {
        SecretAggStepOne::serialize_bs58(self)
    }

    fn deserialize_bs58(s: &str) -> Result<SecretAggStepOne, Error> {
        SecretAggStepOne::deserialize_bs58(s)
    }
}

impl Serialize for PartialSignature {
    fn serialize(&self, append_to: &mut Vec<u8>) {
        PartialSignature::serialize(self, append_to)
    }

    fn deserialize(b: &[u8]) -> Result<PartialSignature, Error> {
        PartialSignature::deserialize(b)
    }

    fn size_hint(&self) -> usize {
        PartialSignature::size_hint(self)
    }

    fn serialize_bs58(&self) -> String {
        PartialSignature::serialize_bs58(self)
    }

    fn deserialize_bs58(s: &str) -> Result<PartialSignature, Error> {
        PartialSignature::deserialize_bs58(s)
    }
}

/// The wire bytes of a first-round message with another tag byte, or cut
/// short, never decode: the first fail with `WrongTag`, the second with
/// `InputTooShort`.
pub proof fn lemma_agg_message1_corruption_refused(
    m: AggMessage1,
    x: u8,
    n: int,
    r1: Result<AggMessage1, Error>,
    r2: Result<AggMessage1, Error>,
)
    requires
        x != 1,
        0 <= n < AGG_MESSAGE1_LEN,
        agg_message1_decodes(agg_message1_bytes(m).update(0, x), r1),
        agg_message1_decodes(agg_message1_bytes(m).take(n), r2),
    ensures
        r1 == Err::<AggMessage1, Error>(
            Error::WrongTag { expected: Tag::AggMessage1, found: tag_of_byte(x) },
        ),
        r2 == Err::<AggMessage1, Error>(
            Error::InputTooShort { expected: AGG_MESSAGE1_LEN, found: n as usize },
        ),
{
}

/// The wire bytes of the state kept between rounds with another tag byte, or
/// cut short, never decode.
pub proof fn lemma_secret_step_one_corruption_refused(
    st: SecretAggStepOne,
    x: u8,
    n: int,
    r1: Result<SecretAggStepOne, Error>,
    r2: Result<SecretAggStepOne, Error>,
)
    requires
        x != 3,
        0 <= n < SECRET_STEP_ONE_LEN,
        secret_step_one_decodes(secret_step_one_bytes(st).update(0, x), r1),
        secret_step_one_decodes(secret_step_one_bytes(st).take(n), r2),
    ensures
        r1 == Err::<SecretAggStepOne, Error>(
            Error::WrongTag { expected: Tag::SecretAggStepOne, found: tag_of_byte(x) },
        ),
        r2 == Err::<SecretAggStepOne, Error>(
            Error::InputTooShort { expected: SECRET_STEP_ONE_LEN, found: n as usize },
        ),
{
}

/// The wire bytes of a partial signature with another tag byte, or cut
/// short, never decode.
pub proof fn lemma_partial_signature_corruption_refused(
    p: PartialSignature,
    x: u8,
    n: int,
    r1: Result<PartialSignature, Error>,
    r2: Result<PartialSignature, Error>,
)
    requires
        x != 2,
        0 <= n < PARTIAL_SIGNATURE_LEN,
        partial_signature_decodes(partial_signature_bytes(p).update(0, x), r1),
        partial_signature_decodes(partial_signature_bytes(p).take(n), r2),
    ensures
        r1 == Err::<PartialSignature, Error>(
            Error::WrongTag { expected: Tag::PartialSignature, found: tag_of_byte(x) },
        ),
        r2 == Err::<PartialSignature, Error>(
            Error::InputTooShort { expected: PARTIAL_SIGNATURE_LEN, found: n as usize },
        ),
{
}

} // verus!
