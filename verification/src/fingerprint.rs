use base64::Engine;
use sha2::Digest;
use vstd::prelude::*;

verus! {

/// The SHA-256 digest of a byte sequence.
pub uninterp spec fn sha256(data: Seq<u8>) -> Seq<u8>;

/// The sixty-four symbols of the URL-safe alphabet, by value.
pub open spec fn alphabet() -> Seq<char> {
    "ABCDEFGHIJKLMNOPQRSTUVWXYZabcdefghijklmnopqrstuvwxyz0123456789-_"@
}

/// The byte at `index`, or zero past the end of the data.
pub open spec fn byte_or_zero(data: Seq<u8>, index: int) -> int {
    if 0 <= index < data.len() {
        data[index] as int
    } else {
        0
    }
}

/// The `index`-th group of six bits of the data, read most significant bit
/// first and continued with zero bits past the end.
pub open spec fn sextet(data: Seq<u8>, index: int) -> int {
    let group = index / 4;
    let first = byte_or_zero(data, 3 * group);
    let second = byte_or_zero(data, 3 * group + 1);
    let third = byte_or_zero(data, 3 * group + 2);
    if index % 4 == 0 {
        first / 4
    } else if index % 4 == 1 {
        (first % 4) * 16 + second / 16
    } else if index % 4 == 2 {
        (second % 16) * 4 + third / 64
    } else {
        third % 64
    }
}

/// How many symbols encode `len` bytes when no padding is written.
pub open spec fn encoded_len(len: nat) -> nat {
    ((4 * len + 2) / 3) as nat
}

/// The unpadded base64 encoding of the data over the URL-safe alphabet.
pub open spec fn url_safe_no_pad(data: Seq<u8>) -> Seq<char> {
    Seq::new(encoded_len(data.len()), |i: int| alphabet()[sextet(data, i)])
}

/// The identifier under which content is addressed.
pub open spec fn fingerprint(contents: Seq<u8>) -> Seq<char> {
    url_safe_no_pad(sha256(contents))
}

/// Whether a character may stand in a URL path segment without escaping, as
/// every symbol of the alphabet may.
pub open spec fn is_url_safe(c: char) -> bool {
    ||| 'A' <= c <= 'Z'
    ||| 'a' <= c <= 'z'
    ||| '0' <= c <= '9'
    ||| c == '-'
    ||| c == '_'
}

/// Every sextet is a value of the alphabet.
pub proof fn lemma_sextet_range(data: Seq<u8>, index: int)
    ensures
        0 <= sextet(data, index) < 64,
{
}

/// The alphabet has sixty-four symbols, all of them URL-safe and no two alike.
pub proof fn lemma_alphabet()
    ensures
        alphabet().len() == 64,
        forall|v: int| 0 <= v < 64 ==> is_url_safe(#[trigger] alphabet()[v]),
        forall|v: int, w: int|
            0 <= v < 64 && 0 <= w < 64 && #[trigger] alphabet()[v] == #[trigger] alphabet()[w]
                ==> v == w,
{
    reveal_strlit("ABCDEFGHIJKLMNOPQRSTUVWXYZabcdefghijklmnopqrstuvwxyz0123456789-_");
}

/// An identifier holds URL-safe characters only.
pub proof fn lemma_encoding_is_url_safe(data: Seq<u8>)
    ensures
        forall|i: int|
            0 <= i < url_safe_no_pad(data).len() ==> is_url_safe(#[trigger] url_safe_no_pad(data)[i]),
{
    lemma_alphabet();
    assert forall|i: int| 0 <= i < url_safe_no_pad(data).len() implies is_url_safe(
        #[trigger] url_safe_no_pad(data)[i],
    ) by {
        lemma_sextet_range(data, i);
    }
}

/// The encoding loses nothing: equal encodings come from equal data.
pub proof fn lemma_encoding_injective(a: Seq<u8>, b: Seq<u8>)
    requires
        url_safe_no_pad(a) == url_safe_no_pad(b),
    ensures
        a == b,
{
    lemma_alphabet();
    assert(encoded_len(a.len()) == url_safe_no_pad(a).len());
    assert(encoded_len(b.len()) == url_safe_no_pad(b).len());
    assert(a.len() == b.len());
    assert forall|i: int| 0 <= i < encoded_len(a.len()) implies sextet(a, i) == sextet(b, i) by {
        lemma_sextet_range(a, i);
        lemma_sextet_range(b, i);
        assert(url_safe_no_pad(a)[i] == alphabet()[sextet(a, i)]);
        assert(url_safe_no_pad(b)[i] == alphabet()[sextet(b, i)]);
    }
    assert forall|k: int| 0 <= k < a.len() implies a[k] == b[k] by {
        let group = k / 3;
        assert(sextet(a, 4 * group) == sextet(b, 4 * group));
        assert(sextet(a, 4 * group + 1) == sextet(b, 4 * group + 1));
        if k % 3 >= 1 {
            assert(sextet(a, 4 * group + 2) == sextet(b, 4 * group + 2));
        }
        if k % 3 == 2 {
            assert(sextet(a, 4 * group + 3) == sextet(b, 4 * group + 3));
        }
    }
    assert(a =~= b);
}

/// The same bytes always have the same identifier, and two contents share an
/// identifier exactly when they share a digest: the identifier is as
/// collision-resistant as the hash.
pub proof fn lemma_fingerprint_collisions(first: Seq<u8>, second: Seq<u8>)
    ensures
        first == second ==> fingerprint(first) == fingerprint(second),
        fingerprint(first) == fingerprint(second) <==> sha256(first) == sha256(second),
{
    if fingerprint(first) == fingerprint(second) {
        lemma_encoding_injective(sha256(first), sha256(second));
    }
}

/// Calls `sha2::Sha256::digest`. Trusted: the result is the SHA-256 digest of
/// the data, a function of the data alone.
#[verifier::external_body]
fn sha256_digest(data: &[u8]) -> (digest: [u8; 32])
    ensures
        digest@ == sha256(data@),
{
    sha2::Sha256::digest(data).into()
}

/// Calls `base64::Engine::encode` on the `URL_SAFE_NO_PAD` engine. Trusted:
/// symbol `i` of the result is the alphabet's symbol for the `i`-th six bits
/// of the data, most significant bit first, the last group filled up with
/// zero bits; the result has as many symbols as it takes to hold every bit
/// of the data, and no padding. The engine panics where that number does not
/// fit in a `usize`, so such data is kept out.
#[verifier::external_body]
fn encode_url_safe(data: &[u8]) -> (text: String)
    requires
        encoded_len(data@.len()) <= usize::MAX,
    ensures
        text@ == url_safe_no_pad(data@),
{
    base64::engine::general_purpose::URL_SAFE_NO_PAD.encode(data)
}

/// Writes a digest as an identifier: forty-three URL-safe characters.
pub fn encode_digest(digest: &[u8; 32]) -> (identifier: String)
    ensures
        identifier@ == url_safe_no_pad(digest@),
        identifier@.len() == 43,
        forall|i: int| 0 <= i < 43 ==> is_url_safe(#[trigger] identifier@[i]),
{
    proof {
        lemma_encoding_is_url_safe(digest@);
    }
    encode_url_safe(digest.as_slice())
}

/// Computes the identifier of a file from its contents.
pub fn generate_file_hash(contents: &[u8]) -> (identifier: String)
    ensures
        identifier@ == fingerprint(contents@),
        identifier@.len() == 43,
        forall|i: int| 0 <= i < 43 ==> is_url_safe(#[trigger] identifier@[i]),
{
    let digest = sha256_digest(contents);
    encode_digest(&digest)
}

} // verus!
