//! SHA-256 digests as text.
use crate::json::hex_digit;
use sha2::Digest;
use vstd::prelude::*;

verus! {

/// The SHA-256 digest of a sequence of bytes.
pub uninterp spec fn sha256_of(bytes: Seq<u8>) -> Seq<u8>;

/// `sha2::Sha256::digest`: the SHA-256 digest of the bytes, 32 bytes long.
#[verifier::external_body]
pub(crate) fn sha256(bytes: &[u8]) -> (r: Vec<u8>)
    ensures
        r@ == sha256_of(bytes@),
        r@.len() == 32,
{
    sha2::Sha256::digest(bytes).to_vec()
}

/// Bytes as hexadecimal digits, two for each.
pub open spec fn hex_of(b: Seq<u8>) -> Seq<char> {
    Seq::new(
        2 * b.len(),
        |i: int|
            if i % 2 == 0 {
                hex_digit(b[i / 2] as int / 16)
            } else {
                hex_digit(b[i / 2] as int % 16)
            },
    )
}

/// The hexadecimal digit of a number.
pub fn hex_char(d: u8) -> (r: char)
    requires
        d < 16,
    ensures
        r == hex_digit(d as int),
{
    if d < 10 {
        (48 + d) as char
    } else {
        (87 + d) as char
    }
}

/// The first `n` bytes as hexadecimal digits.
pub fn hex(b: &Vec<u8>, n: usize) -> (r: String)
    requires
        n <= b@.len(),
    ensures
        r@ == hex_of(b@.take(n as int)),
{
    let mut s = String::new();
    let mut i: usize = 0;
    while i < n
        invariant
            i <= n <= b@.len(),
            s@ =~= hex_of(b@.take(i as int)),
        decreases n - i,
    {
        let d: u8 = b[i];
        let ghost was = s@;
        s.push(hex_char(d / 16));
        s.push(hex_char(d % 16));
        assert(s@ =~= hex_of(b@.take(i + 1))) by {
            let x = hex_of(b@.take(i + 1));
            assert forall|j: int| 0 <= j < x.len() implies #[trigger] x[j] == s@[j] by {
                if j < 2 * i {
                    assert(was[j] == hex_of(b@.take(i as int))[j]);
                    assert(b@.take(i + 1)[j / 2] == b@.take(i as int)[j / 2]);
                }
            }
        }
        i += 1;
    }
    s
}

/// The SHA-256 digest of the bytes, in hexadecimal digits.
pub fn sha256_hex(bytes: &[u8]) -> (r: String)
    ensures
        r@ == hex_of(sha256_of(bytes@)),
        r@.len() == 64,
{
    let d = sha256(bytes);
    assert(d@.take(32) =~= d@);
    hex(&d, d.len())
}

} // verus!
