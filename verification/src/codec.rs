//! The claim codec: how a claim's identifier is derived from its content.

use vstd::prelude::*;
use vstd::utf8::encode_utf8;
use sha2::Digest;
use crate::error::{ContractError, ErrorView, fails_with};
use crate::state::{Claim, ClaimView};

verus! {

/// The SHA-256 digest of a byte string.
pub uninterp spec fn sha256(data: Seq<u8>) -> Seq<u8>;

/// `sha2::Sha256::digest`: the returned bytes are the SHA-256 digest of
/// `data`, which is 32 bytes long. Nothing else of the digest is proved
/// here; it is only given its name.
#[verifier::external_body]
pub(crate) fn sha256_digest(data: &[u8]) -> (digest: Vec<u8>)
    ensures
        digest@ == sha256(data@),
        digest@.len() == 32,
{
    sha2::Sha256::digest(data).to_vec()
}

/// The lower-case hexadecimal digit for a value below sixteen.
pub open spec fn hex_digit(n: int) -> char {
    seq!['0', '1', '2', '3', '4', '5', '6', '7', '8', '9', 'a', 'b', 'c', 'd', 'e', 'f'][n]
}

/// Lower-case hexadecimal text: two digits for each byte, the high half
/// first, in the order of the bytes.
pub open spec fn hex_lower(data: Seq<u8>) -> Seq<char> {
    Seq::new(
        2 * data.len(),
        |i: int| if i % 2 == 0 {
            hex_digit(data[i / 2] as int / 16)
        } else {
            hex_digit(data[i / 2] as int % 16)
        },
    )
}

/// `hex::encode`: the returned text is `data` in lower-case hexadecimal,
/// two digits per byte.
#[verifier::external_body]
fn hex_encode(data: &[u8]) -> (text: String)
    ensures
        text@ == hex_lower(data@),
{
    hex::encode(data)
}

/// The ASCII code of a decimal digit.
pub open spec fn digit_byte(d: nat) -> u8 {
    (48 + d) as u8
}

/// A number in decimal ASCII, without sign or leading zeros.
pub open spec fn decimal(n: nat) -> Seq<u8>
    decreases n,
{
    if n < 10 {
        seq![digit_byte(n)]
    } else {
        decimal(n / 10).push(digit_byte(n % 10))
    }
}

/// Writes a topic code as decimal ASCII text.
pub fn decimal_bytes(n: u128) -> (out: Vec<u8>)
    ensures
        out@ == decimal(n as nat),
{
    let mut low_first: Vec<u8> = Vec::new();
    let mut rest: u128 = n;
    let ghost mut tail: Seq<u8> = Seq::empty();
    while rest >= 10
        invariant
            decimal(n as nat) == decimal(rest as nat) + tail,
            tail.len() == low_first.len(),
            forall|i: int| 0 <= i < tail.len() ==> tail[i] == low_first[low_first.len() - 1 - i],
        decreases rest,
    {
        let d: u8 = (rest % 10) as u8;
        proof {
            let digit = digit_byte(rest as nat % 10);
            let higher = decimal(rest as nat / 10);
            assert(decimal(rest as nat) == higher.push(digit));
            assert(higher.push(digit) + tail == higher + (seq![digit] + tail));
            tail = seq![digit] + tail;
        }
        low_first.push(48 + d);
        rest = rest / 10;
    }
    let mut out: Vec<u8> = Vec::new();
    out.push(48 + (rest as u8));
    assert(out@ == decimal(rest as nat));
    let mut i: usize = low_first.len();
    while i > 0
        invariant
            i <= low_first.len(),
            tail.len() == low_first.len(),
            forall|j: int| 0 <= j < tail.len() ==> tail[j] == low_first[low_first.len() - 1 - j],
            out@ == decimal(rest as nat) + tail.subrange(0, low_first.len() - i),
        decreases i,
    {
        i = i - 1;
        out.push(low_first[i]);
        let ghost written = low_first.len() - i;
        assert(tail.subrange(0, written) == tail.subrange(0, written - 1).push(tail[written - 1]));
    }
    assert(tail.subrange(0, tail.len() as int) == tail);
    out
}

/// Whether a byte is the ASCII code of a decimal digit.
pub open spec fn is_digit(b: u8) -> bool {
    48 <= b <= 57
}

/// Whether every byte is a decimal digit.
pub open spec fn all_digits(digits: Seq<u8>) -> bool {
    forall|i: int| 0 <= i < digits.len() ==> is_digit(#[trigger] digits[i])
}

/// The number that a string of decimal digits denotes.
pub open spec fn digits_value(digits: Seq<u8>) -> nat
    decreases digits.len(),
{
    if digits.len() == 0 {
        0
    } else {
        digits_value(digits.drop_last()) * 10 + (digits.last() - 48) as nat
    }
}

/// The topic code that a text denotes: the text must be one or more
/// decimal digits and nothing else, and the number must fit a topic code.
pub open spec fn topic_named(text: Seq<char>) -> Option<u128> {
    let digits = encode_utf8(text);
    if digits.len() > 0 && all_digits(digits) && digits_value(digits) <= u128::MAX {
        Some(digits_value(digits) as u128)
    } else {
        None
    }
}

/// A longer string of digits denotes no smaller number than its beginning.
proof fn lemma_digits_value_grows(digits: Seq<u8>, n: int)
    requires
        0 <= n <= digits.len(),
        all_digits(digits),
    ensures
        digits_value(digits.subrange(0, n)) <= digits_value(digits),
    decreases digits.len() - n,
{
    if n < digits.len() {
        lemma_digits_value_grows(digits, n + 1);
        let longer = digits.subrange(0, n + 1);
        assert(longer.drop_last() =~= digits.subrange(0, n));
        assert(is_digit(digits[n]));
    } else {
        assert(digits.subrange(0, n) =~= digits);
    }
}

/// Reads a topic code from decimal text; any other text is rejected and
/// handed back in the error.
pub fn parse_topic(text: &str) -> (r: Result<u128, ContractError>)
    ensures
        match topic_named(text@) {
            Some(topic) => r == Ok::<u128, ContractError>(topic),
            None => fails_with(r, ErrorView::InvalidClaimTopic { topic: text@ }),
        },
{
    let digits = text.as_bytes();
    if digits.len() == 0 {
        return Err(ContractError::InvalidClaimTopic { topic: text.to_owned() });
    }
    let mut value: u128 = 0;
    let mut i: usize = 0;
    while i < digits.len()
        invariant
            i <= digits.len(),
            digits@ == encode_utf8(text@),
            forall|j: int| 0 <= j < i ==> is_digit(#[trigger] digits@[j]),
            value == digits_value(digits@.subrange(0, i as int)),
        decreases digits.len() - i,
    {
        let b = digits[i];
        if b < 48 || b > 57 {
            return Err(ContractError::InvalidClaimTopic { topic: text.to_owned() });
        }
        let d: u128 = (b - 48) as u128;
        let ghost longer = digits@.subrange(0, i + 1);
        assert(longer.drop_last() =~= digits@.subrange(0, i as int));
        assert(longer.last() == b);
        if value > (u128::MAX - d) / 10 {
            proof {
                assert(digits_value(longer) > u128::MAX);
                if all_digits(digits@) {
                    lemma_digits_value_grows(digits@, i + 1);
                }
            }
            return Err(ContractError::InvalidClaimTopic { topic: text.to_owned() });
        }
        value = value * 10 + d;
        i = i + 1;
    }
    assert(digits@.subrange(0, digits@.len() as int) == digits@);
    Ok(value)
}

/// Appends `part` to `out`.
fn append_bytes(out: &mut Vec<u8>, part: &[u8])
    ensures
        final(out)@ == old(out)@ + part@,
{
    let mut i: usize = 0;
    while i < part.len()
        invariant
            i <= part.len(),
            out@ == old(out)@ + part@.subrange(0, i as int),
        decreases part.len() - i,
    {
        out.push(part[i]);
        i = i + 1;
        assert(part@.subrange(0, i as int) == part@.subrange(0, i - 1).push(part@[i - 1]));
    }
    assert(part@.subrange(0, part@.len() as int) == part@);
}

/// The bytes that a claim's identifier is the fingerprint of: the topic in
/// decimal, then the issuer, the signature, the data and the URI, each as
/// it stands and nothing between them. The claim's own `id` is no part of it.
pub open spec fn id_preimage(claim: ClaimView) -> Seq<u8> {
    decimal(claim.topic as nat) + claim.issuer + claim.signature + claim.data
        + encode_utf8(claim.uri)
}

/// The identifier of a claim: the SHA-256 digest of its preimage, in
/// lower-case hexadecimal.
pub open spec fn claim_id(claim: ClaimView) -> Seq<char> {
    hex_lower(sha256(id_preimage(claim)))
}

/// Builds the bytes that are hashed into a claim's identifier.
pub fn claim_id_preimage(claim: &Claim) -> (bytes: Vec<u8>)
    ensures
        bytes@ == id_preimage(claim@),
{
    let mut bytes = decimal_bytes(claim.topic);
    append_bytes(&mut bytes, claim.issuer.as_slice());
    append_bytes(&mut bytes, claim.signature.as_slice());
    append_bytes(&mut bytes, claim.data.as_slice());
    append_bytes(&mut bytes, claim.uri.as_str().as_bytes());
    bytes
}

/// Writes a digest as the text of an identifier.
pub fn claim_id_of_digest(digest: &[u8]) -> (id: String)
    ensures
        id@ == hex_lower(digest@),
{
    hex_encode(digest)
}

/// Derives the identifier of a claim from its content: 64 hexadecimal
/// digits.
pub fn derive_claim_id(claim: &Claim) -> (id: String)
    ensures
        id@ == claim_id(claim@),
        id@.len() == 64,
{
    let preimage = claim_id_preimage(claim);
    let digest = sha256_digest(preimage.as_slice());
    claim_id_of_digest(digest.as_slice())
}

/// Derives the claim's identifier and stores it in the claim, over
/// whatever `id` held before.
pub fn generate_claim_id(claim: &mut Claim)
    ensures
        final(claim)@ == (ClaimView { id: Some(claim_id(old(claim)@)), ..old(claim)@ }),
{
    let id = derive_claim_id(claim);
    claim.id = Some(id);
}

/// The identifier is a function of the five content fields alone: two
/// claims that agree on topic, issuer, signature, data and URI have the
/// same identifier, whatever their `id` fields hold.
pub proof fn claim_id_is_content_fingerprint(a: ClaimView, b: ClaimView)
    requires
        a.topic == b.topic,
        a.issuer == b.issuer,
        a.signature == b.signature,
        a.data == b.data,
        a.uri == b.uri,
    ensures
        claim_id(a) == claim_id(b),
{
}

} // verus!
