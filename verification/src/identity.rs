//! The identity of a catalog: one catalog per root path, stored in a file
//! that is named after the SHA-256 digest of the path string.

use sha2::Digest;
use vstd::prelude::*;
use vstd::string::StringSliceAdditionalSpecFns;

verus! {

/// The SHA-256 digest of a byte string, as `Sha256::digest` computes it.
pub uninterp spec fn sha256_digest(data: Seq<u8>) -> Seq<u8>;

/// `Sha256::digest`: the hash of `data`, 32 bytes that depend on nothing but
/// the bytes given.
#[verifier::external_body]
fn sha256(data: &[u8]) -> (digest: Vec<u8>)
    ensures
        digest@ == sha256_digest(data@),
        digest@.len() == 32,
{
    sha2::Sha256::digest(data).to_vec()
}

/// The lower-case hexadecimal digit of a value below 16.
pub open spec fn hex_digit(value: u8) -> char {
    if value < 10 {
        ((48 + value) as u8) as char
    } else {
        ((87 + value) as u8) as char
    }
}

/// The lower-case hexadecimal text of a byte string: two digits per byte,
/// the high half first.
pub open spec fn hex(bytes: Seq<u8>) -> Seq<char> {
    Seq::new(
        2 * bytes.len(),
        |i: int|
            if i % 2 == 0 {
                hex_digit(bytes[i / 2] / 16)
            } else {
                hex_digit(bytes[i / 2] % 16)
            },
    )
}

/// The name of the catalog file for a digest.
pub open spec fn file_name_of(digest: Seq<u8>) -> Seq<char> {
    "index_"@ + hex(digest) + ".db"@
}

/// The name of the catalog file for a root path.
pub open spec fn file_name_for(root: Seq<char>) -> Seq<char> {
    file_name_of(sha256_digest(vstd::utf8::encode_utf8(root)))
}

/// The lower-case hexadecimal digit of a value below 16.
fn hex_char(value: u8) -> (digit: char)
    requires
        value < 16,
    ensures
        digit == hex_digit(value),
{
    if value < 10 {
        (48 + value) as char
    } else {
        (87 + value) as char
    }
}

/// Appends the lower-case hexadecimal text of `bytes` to `text`.
fn push_hex(text: &mut String, bytes: &[u8])
    ensures
        final(text)@ == old(text)@ + hex(bytes@),
{
    let ghost start = text@;
    let mut i: usize = 0;
    while i < bytes.len()
        invariant
            i <= bytes.len(),
            text@ == start + hex(bytes@).take(2 * i),
        decreases bytes.len() - i,
    {
        let byte = bytes[i];
        text.push(hex_char(byte / 16));
        text.push(hex_char(byte % 16));
        proof {
            let all = hex(bytes@);
            assert((2 * i) / 2 == i && (2 * i) % 2 == 0);
            assert((2 * i + 1) / 2 == i && (2 * i + 1) % 2 == 1);
            assert(all.take(2 * i + 2) =~= all.take(2 * i).push(all[2 * i]).push(all[2 * i + 1]));
            assert(text@ =~= start + all.take(2 * i + 2));
        }
        i += 1;
    }
    assert(hex(bytes@).take(2 * bytes.len()) =~= hex(bytes@));
}

/// The name of the catalog file for a digest: `index_`, the digest in
/// lower-case hexadecimal, and `.db`.
pub fn digest_file_name(digest: &[u8]) -> (name: String)
    ensures
        name@ == file_name_of(digest@),
{
    let mut name = String::new();
    name.append("index_");
    push_hex(&mut name, digest);
    name.append(".db");
    assert(name@ =~= file_name_of(digest@));
    name
}

/// The name of the catalog file for the root path `directory_path`: the
/// file is named after the SHA-256 digest of the path string, so that the
/// same root always finds the same catalog.
pub fn index_db_file_name(directory_path: &str) -> (name: String)
    ensures
        name@ == file_name_for(directory_path@),
{
    let digest = sha256(directory_path.as_bytes());
    digest_file_name(digest.as_slice())
}

/// Different digests give different file names.
pub proof fn lemma_file_name_injective(a: Seq<u8>, b: Seq<u8>)
    requires
        file_name_of(a) == file_name_of(b),
    ensures
        a == b,
{
    reveal_strlit("index_");
    reveal_strlit(".db");
    let left = file_name_of(a);
    let right = file_name_of(b);
    assert(left.len() == 6 + 2 * a.len() + 3);
    assert(right.len() == 6 + 2 * b.len() + 3);
    assert(a.len() == b.len());
    assert forall|k: int| 0 <= k < a.len() implies a[k] == b[k] by {
        assert(left[6 + 2 * k] == hex(a)[2 * k]);
        assert(right[6 + 2 * k] == hex(b)[2 * k]);
        assert(left[6 + 2 * k + 1] == hex(a)[2 * k + 1]);
        assert(right[6 + 2 * k + 1] == hex(b)[2 * k + 1]);
        assert((2 * k) / 2 == k && (2 * k) % 2 == 0);
        assert((2 * k + 1) / 2 == k && (2 * k + 1) % 2 == 1);
        lemma_hex_digit_injective(a[k] / 16, b[k] / 16);
        lemma_hex_digit_injective(a[k] % 16, b[k] % 16);
    }
    assert(a =~= b);
}

/// Different values below 16 have different digits.
proof fn lemma_hex_digit_injective(x: u8, y: u8)
    requires
        x < 16,
        y < 16,
        hex_digit(x) == hex_digit(y),
    ensures
        x == y,
{
    let cx = if x < 10 {
        (48 + x) as u8
    } else {
        (87 + x) as u8
    };
    let cy = if y < 10 {
        (48 + y) as u8
    } else {
        (87 + y) as u8
    };
    assert((cx as char) as u8 == cx);
    assert((cy as char) as u8 == cy);
}

} // verus!
