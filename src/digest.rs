use vstd::prelude::*;
use sha2::Digest;

verus! {

/// The SHA-256 of a byte sequence (32 bytes).
pub uninterp spec fn sha256_of(data: Seq<u8>) -> Seq<u8>;

/// The sixteen lowercase hexadecimal digits, in order.
pub open spec fn hex_alphabet() -> Seq<char> {
    seq!['0', '1', '2', '3', '4', '5', '6', '7', '8', '9', 'a', 'b', 'c', 'd', 'e', 'f']
}

/// Lowercase hexadecimal digit of a value below 16.
pub open spec fn hex_digit(n: u8) -> char {
    hex_alphabet()[(n % 16) as int]
}

/// Lowercase hexadecimal text of a byte sequence: two digits per byte,
/// the high nibble first.
pub open spec fn hex_lower(b: Seq<u8>) -> Seq<char> {
    Seq::new(
        (2 * b.len()) as nat,
        |i: int| if i % 2 == 0 { hex_digit(b[i / 2] / 16) } else { hex_digit(b[i / 2] % 16) },
    )
}

/// The algorithm prefix of every digest.
pub open spec fn sha256_prefix() -> Seq<char> {
    seq!['s', 'h', 'a', '2', '5', '6', ':']
}

/// A lowercase hexadecimal digit.
pub open spec fn is_lower_hex(c: char) -> bool {
    ('0' <= c && c <= '9') || ('a' <= c && c <= 'f')
}

/// `sha256:` followed by exactly 64 lowercase hexadecimal digits.
pub open spec fn is_digest_form(s: Seq<char>) -> bool {
    &&& s.len() == 71
    &&& s.subrange(0, 7) == sha256_prefix()
    &&& forall|i: int| 7 <= i < 71 ==> #[trigger] is_lower_hex(s[i])
}

/// The digest string that names a byte sequence.
pub open spec fn digest_of(data: Seq<u8>) -> Seq<char> {
    sha256_prefix() + hex_lower(sha256_of(data))
}

/// Relies on sha2::Sha256::digest: the SHA-256 of the input, whose output
/// type holds 32 bytes.
#[verifier::external_body]
fn sha256_bytes(data: &[u8]) -> (r: Vec<u8>)
    ensures
        r@ == sha256_of(data@),
        r@.len() == 32,
{
    sha2::Sha256::digest(data).to_vec()
}

/// Relies on hex::encode: two lowercase hexadecimal digits per byte, the
/// high nibble first.
#[verifier::external_body]
fn hex_encode(b: &[u8]) -> (r: String)
    ensures
        r@ == hex_lower(b@),
{
    hex::encode(b)
}

/// Every digest computed from bytes has the digest form.
pub proof fn lemma_digest_of_is_form(data: Seq<u8>)
    requires
        sha256_of(data).len() == 32,
    ensures
        is_digest_form(digest_of(data)),
{
    let d = digest_of(data);
    let h = hex_lower(sha256_of(data));
    assert(d.subrange(0, 7) =~= sha256_prefix());
    assert forall|i: int| 7 <= i < 71 implies #[trigger] is_lower_hex(d[i]) by {
        assert(d[i] == h[i - 7]);
        let b = sha256_of(data)[(i - 7) / 2];
        let n: u8 = if (i - 7) % 2 == 0 { b / 16 } else { b % 16 };
        assert(h[i - 7] == hex_alphabet()[(n % 16) as int]);
        let k = (n % 16) as int;
        assert(0 <= k < 16);
        assert(is_lower_hex(hex_alphabet()[k]));
    }
}

/// The digest string `sha256:<hex>` of `data`.
pub fn sha256_digest(data: &[u8]) -> (r: String)
    ensures
        r@ == digest_of(data@),
        is_digest_form(r@),
{
    let h = sha256_bytes(data);
    let hx = hex_encode(h.as_slice());
    let prefix = String::from_str("sha256:");
    proof {
        reveal_strlit("sha256:");
        assert("sha256:"@ =~= sha256_prefix());
        lemma_digest_of_is_form(data@);
    }
    prefix.concat(hx.as_str())
}

} // verus!
