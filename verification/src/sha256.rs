//! SHA-256 digests of byte contents, written as lowercase hexadecimal.
use vstd::prelude::*;
use sha2::Digest;
use crate::text::string_of;

verus! {

/// The SHA-256 digest of `data`.
pub uninterp spec fn sha256_of(data: Seq<u8>) -> Seq<u8>;

/// The lowercase hexadecimal digit for `n` (below sixteen).
pub open spec fn hex_digit(n: int) -> char {
    if n < 10 {
        ('0' as int + n) as char
    } else {
        ('a' as int + (n - 10)) as char
    }
}

/// Each byte of `bytes` as two lowercase hexadecimal digits, high first.
pub open spec fn hex_text(bytes: Seq<u8>) -> Seq<char>
    decreases bytes.len(),
{
    if bytes.len() == 0 {
        Seq::empty()
    } else {
        seq![hex_digit(bytes[0] as int / 16), hex_digit(bytes[0] as int % 16)] + hex_text(bytes.skip(1))
    }
}

/// Two digits per byte.
pub proof fn lemma_hex_text_len(bytes: Seq<u8>)
    ensures
        hex_text(bytes).len() == 2 * bytes.len(),
    decreases bytes.len(),
{
    if bytes.len() > 0 {
        lemma_hex_text_len(bytes.skip(1));
    }
}

/// `sha2::Sha256::digest`: the SHA-256 digest of `data`, thirty-two bytes.
#[verifier::external_body]
fn sha256_bytes(data: &[u8]) -> (r: Vec<u8>)
    ensures
        r@ == sha256_of(data@),
        r@.len() == 32,
{
    sha2::Sha256::digest(data).to_vec()
}

fn hex_digit_char(n: u8) -> (r: char)
    requires
        n < 16,
    ensures
        r == hex_digit(n as int),
{
    if n < 10 {
        ((48 + n) as u8) as char
    } else {
        ((87 + n) as u8) as char
    }
}

/// Each byte as two lowercase hexadecimal digits, in order (what
/// `hex::encode` writes).
fn hex_encode(data: &[u8]) -> (r: String)
    ensures
        r@ == hex_text(data@),
{
    let mut out: Vec<char> = Vec::new();
    let mut i: usize = 0;
    proof {
        assert(data@.skip(0) =~= data@);
    }
    while i < data.len()
        invariant
            i <= data@.len(),
            out@ + hex_text(data@.skip(i as int)) == hex_text(data@),
        decreases data.len() - i,
    {
        let b = data[i];
        let ghost rest = data@.skip(i as int);
        proof {
            assert(rest[0] == b);
            assert(rest.skip(1) =~= data@.skip(i + 1));
        }
        let ghost before = out@;
        out.push(hex_digit_char(b / 16));
        out.push(hex_digit_char(b % 16));
        proof {
            assert(before + (seq![hex_digit(b as int / 16), hex_digit(b as int % 16)] + hex_text(data@.skip(i + 1))) =~= out@ + hex_text(data@.skip(i + 1)));
        }
        i = i + 1;
    }
    proof {
        assert(data@.skip(i as int) =~= Seq::<u8>::empty());
        assert(out@ + Seq::<char>::empty() =~= out@);
    }
    string_of(&out)
}

/// A digest written as lowercase hexadecimal.
pub fn hex_digest(digest: &[u8]) -> (r: String)
    ensures
        r@ == hex_text(digest@),
        r@.len() == 2 * digest@.len(),
{
    proof {
        lemma_hex_text_len(digest@);
    }
    hex_encode(digest)
}

/// The SHA-256 digest of `data` as sixty-four lowercase hexadecimal digits.
pub fn sha256_digest(data: &[u8]) -> (r: String)
    ensures
        r@ == hex_text(sha256_of(data@)),
        r@.len() == 64,
{
    let digest = sha256_bytes(data);
    hex_digest(digest.as_slice())
}

} // verus!
