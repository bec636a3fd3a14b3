//! Secrets: random values, the proof key's challenge, comparison that takes no shortcut, and
//! wiping.
use crate::encoding::{
    base64_len, base64_url, encode_url, form_has_length, url_form_is_url_safe, url_safe, Alphabet,
};
use crate::text::encoding_is_injective;
use vstd::prelude::*;
use vstd::utf8::*;

verus! {

/// The SHA-256 digest of the bytes.
pub uninterp spec fn sha256(bytes: Seq<u8>) -> Seq<u8>;

/// Wraps `sha2::Sha256::digest`. Claimed: the digest is a function of the bytes and has 32 bytes.
#[verifier::external_body]
fn digest(bytes: &[u8]) -> (r: Vec<u8>)
    ensures
        r@ == sha256(bytes@),
        r@.len() == 32,
{
    <sha2::Sha256 as sha2::Digest>::digest(bytes).to_vec()
}

/// Wraps `rand::rngs::OsRng::fill_bytes`, which overwrites every byte with one from the system's
/// source of randomness. Claimed: the number of bytes stays; what they are is left open. It
/// panics only if the system has no working source.
#[verifier::external_body]
fn fill_random(bytes: Vec<u8>) -> (r: Vec<u8>)
    ensures
        r@.len() == bytes@.len(),
{
    let mut bytes = bytes;
    rand::RngCore::fill_bytes(&mut rand::rngs::OsRng, &mut bytes);
    bytes
}

/// Wraps `zeroize::Zeroize` of a `Vec<u8>`, which overwrites the bytes and the spare room and
/// empties the vector. Claimed: the vector is empty afterwards.
#[verifier::external_body]
pub(crate) fn wipe_bytes(bytes: &mut Vec<u8>)
    ensures
        final(bytes)@ == Seq::<u8>::empty(),
{
    zeroize::Zeroize::zeroize(bytes)
}

/// Wraps `zeroize::Zeroize` of a `String`, which wipes its bytes as those of a vector. Claimed:
/// the text is empty afterwards.
#[verifier::external_body]
pub(crate) fn wipe_text(text: &mut String)
    ensures
        final(text)@ == Seq::<char>::empty(),
{
    zeroize::Zeroize::zeroize(text)
}

/// The system's source of randomness gave these bytes, this many.
pub closed spec fn system_drew(count: nat, bytes: Vec<u8>) -> bool {
    exists|room: Vec<u8>| room@.len() == count && #[trigger] call_ensures(
        fill_random,
        (room,),
        bytes,
    )
}

/// What the function returns for the bytes.
fn result_of<F: Fn(Vec<u8>) -> Vec<u8>>(fill: F, bytes: Vec<u8>) -> (r: Vec<u8>)
    requires
        call_requires(fill, (bytes,)),
    ensures
        call_ensures(fill, (bytes,), r),
{
    fill(bytes)
}

/// So many bytes from the system's source of randomness.
fn draw(count: usize) -> (r: Vec<u8>)
    ensures
        system_drew(count as nat, r),
        r@.len() == count,
{
    let room: Vec<u8> = vec![0u8; count];
    result_of(fill_random, room)
}

/// The text of URL-safe characters that holds the bytes.
pub fn urlsafe_text(random: &[u8]) -> (r: String)
    requires
        base64_len(false, random@.len()) <= isize::MAX,
    ensures
        r@ == base64_url(random@),
        r@.len() == base64_len(false, random@.len()),
        forall|i: int| 0 <= i < r@.len() ==> url_safe(#[trigger] r@[i]),
{
    proof {
        form_has_length(Alphabet::UrlSafe, false, random@);
        url_form_is_url_safe(random@);
    }
    encode_url(random)
}

/// A random text of URL-safe characters that holds `bytes` random bytes.
pub fn random_urlsafe(bytes: usize) -> (r: String)
    requires
        base64_len(false, bytes as nat) <= isize::MAX,
    ensures
        r@.len() == base64_len(false, bytes as nat),
        forall|i: int| 0 <= i < r@.len() ==> url_safe(#[trigger] r@[i]),
        exists|random: Seq<u8>| random.len() == bytes && r@ == #[trigger] base64_url(random),
        exists|random: Vec<u8>| #[trigger]
            system_drew(bytes as nat, random) && random@.len() == bytes && r@ == base64_url(
                random@,
            ),
{
    let mut random: Vec<u8> = draw(bytes);
    let ghost drawn = random;
    let encoded = urlsafe_text(random.as_slice());
    wipe_bytes(&mut random);
    assert(system_drew(bytes as nat, drawn));
    encoded
}

/// The S256 challenge of a proof key: the base64 form of the digest of its bytes.
pub open spec fn challenge_of(verifier: Seq<char>) -> Seq<char> {
    base64_url(sha256(encode_utf8(verifier)))
}

/// The S256 challenge of `verifier`.
pub fn code_challenge(verifier: &str) -> (r: String)
    ensures
        r@ == challenge_of(verifier@),
        r@.len() == 43,
        forall|i: int| 0 <= i < r@.len() ==> url_safe(#[trigger] r@[i]),
{
    let hash = digest(verifier.as_bytes());
    urlsafe_text(hash.as_slice())
}

/// Whether the two texts are the same. Of texts of one length every byte is looked at, whatever
/// the bytes before it.
pub fn constant_time_eq(left: &str, right: &str) -> (r: bool)
    ensures
        r == (left@ == right@),
{
    let a = left.as_bytes();
    let b = right.as_bytes();
    proof {
        encoding_is_injective(left@, right@);
    }
    if a.len() != b.len() {
        return false;
    }
    let mut difference: u8 = 0;
    let mut i: usize = 0;
    assert(a@.take(0) == b@.take(0));
    while i < a.len()
        invariant
            i <= a.len() == b.len(),
            difference == 0 <==> a@.take(i as int) == b@.take(i as int),
        decreases a.len() - i,
    {
        let x = a[i];
        let y = b[i];
        assert((difference | (x ^ y)) == 0 <==> difference == 0 && x == y) by (bit_vector);
        assert(a@.take(i + 1) == a@.take(i as int).push(x));
        assert(b@.take(i + 1) == b@.take(i as int).push(y));
        assert(a@.take(i + 1) == b@.take(i + 1) <==> a@.take(i as int) == b@.take(i as int) && x
            == y) by {
            if a@.take(i + 1) == b@.take(i + 1) {
                assert(a@.take(i as int) == a@.take(i + 1).drop_last());
                assert(b@.take(i as int) == b@.take(i + 1).drop_last());
                assert(a@.take(i + 1).last() == x);
                assert(b@.take(i + 1).last() == y);
            }
        }
        difference = difference | (x ^ y);
        i = i + 1;
    }
    assert(a@.take(i as int) == a@);
    assert(b@.take(i as int) == b@);
    difference == 0
}

/// The challenge is made from every byte of the proof key.
pub proof fn challenge_is_of_the_whole_key(verifier: Seq<char>)
    ensures
        challenge_of(verifier) == base64_url(sha256(encode_utf8(verifier))),
{
}

} // verus!
