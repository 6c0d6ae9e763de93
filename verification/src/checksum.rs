//! Content checksums of canonical definitions: `sha256:` followed by the lowercase
//! hexadecimal SHA-256 digest of the canonical bytes.

use crate::text::push_char;
use sha2::{Digest, Sha256};
use vstd::prelude::*;

verus! {

/// The SHA-256 digest of the bytes, as computed by the `sha2` crate.
pub uninterp spec fn sha256_digest_of(data: Seq<u8>) -> Seq<u8>;

/// `sha2::Sha256::digest`: the digest of the bytes, named `sha256_digest_of`; it is 32
/// bytes long (`OutputSize = U32` for SHA-256 in sha2's `core_api.rs`). Nothing else
/// about its value is stated.
#[verifier::external_body]
fn sha256_digest(data: &[u8]) -> (r: Vec<u8>)
    ensures
        r@ == sha256_digest_of(data@),
        r@.len() == 32,
{
    Sha256::digest(data).to_vec()
}

/// The lowercase hexadecimal digit of a value below 16.
pub open spec fn hex_digit(n: int) -> char {
    if n < 10 {
        (48 + n) as char
    } else {
        (87 + n) as char
    }
}

/// Two lowercase hexadecimal digits per byte, high nibble first.
pub open spec fn lower_hex(bytes: Seq<u8>) -> Seq<char>
    decreases bytes.len(),
{
    if bytes.len() == 0 {
        seq![]
    } else {
        lower_hex(bytes.drop_last()) + seq![
            hex_digit(bytes.last() as int / 16),
            hex_digit(bytes.last() as int % 16),
        ]
    }
}

/// The checksum text of the bytes.
pub open spec fn checksum_text(data: Seq<u8>) -> Seq<char> {
    seq!['s', 'h', 'a', '2', '5', '6', ':'] + lower_hex(sha256_digest_of(data))
}

fn hex_character(n: u8) -> (c: char)
    requires
        n < 16,
    ensures
        c == hex_digit(n as int),
{
    if n < 10 {
        ((48 + n) as u8) as char
    } else {
        ((87 + n) as u8) as char
    }
}

/// `sha256:` and the lowercase hexadecimal SHA-256 digest of the bytes.
pub fn sha256_checksum(data: &[u8]) -> (r: String)
    ensures
        r@ == checksum_text(data@),
{
    let digest = sha256_digest(data);
    let mut r = String::new();
    push_char(&mut r, 's');
    push_char(&mut r, 'h');
    push_char(&mut r, 'a');
    push_char(&mut r, '2');
    push_char(&mut r, '5');
    push_char(&mut r, '6');
    push_char(&mut r, ':');
    let ghost prefix = r@;
    assert(prefix =~= seq!['s', 'h', 'a', '2', '5', '6', ':']);
    let mut k: usize = 0;
    assert(digest@.take(0) =~= Seq::<u8>::empty());
    while k < digest.len()
        invariant
            k <= digest@.len(),
            prefix == seq!['s', 'h', 'a', '2', '5', '6', ':'],
            r@ == prefix + lower_hex(digest@.take(k as int)),
        decreases digest@.len() - k,
    {
        let b = digest[k];
        assert(digest@.take(k + 1).drop_last() =~= digest@.take(k as int));
        assert(digest@.take(k + 1).last() == b);
        push_char(&mut r, hex_character(b / 16));
        push_char(&mut r, hex_character(b % 16));
        assert(r@ =~= prefix + lower_hex(digest@.take(k + 1)));
        k = k + 1;
    }
    assert(digest@.take(k as int) =~= digest@);
    r
}

/// A checksum text has 71 characters: `sha256:` and 64 lowercase hexadecimal digits.
pub proof fn lemma_checksum_shape(data: Seq<u8>)
    requires
        sha256_digest_of(data).len() == 32,
    ensures
        checksum_text(data).len() == 71,
        forall|i: int|
            7 <= i < 71 ==> {
                let c = #[trigger] checksum_text(data)[i];
                ('0' <= c <= '9') || ('a' <= c <= 'f')
            },
{
    lemma_lower_hex_shape(sha256_digest_of(data));
    assert forall|i: int| 7 <= i < 71 implies {
        let c = #[trigger] checksum_text(data)[i];
        ('0' <= c <= '9') || ('a' <= c <= 'f')
    } by {
        assert(checksum_text(data)[i] == lower_hex(sha256_digest_of(data))[i - 7]);
    }
}

proof fn lemma_lower_hex_shape(bytes: Seq<u8>)
    ensures
        lower_hex(bytes).len() == 2 * bytes.len(),
        forall|i: int|
            0 <= i < lower_hex(bytes).len() ==> {
                let c = #[trigger] lower_hex(bytes)[i];
                ('0' <= c <= '9') || ('a' <= c <= 'f')
            },
    decreases bytes.len(),
{
    if bytes.len() > 0 {
        lemma_lower_hex_shape(bytes.drop_last());
        let prev = lower_hex(bytes.drop_last());
        let hi = bytes.last() as int / 16;
        let lo = bytes.last() as int % 16;
        assert(0 <= hi < 16);
        assert(0 <= lo < 16);
        assert forall|i: int| 0 <= i < lower_hex(bytes).len() implies {
            let c = #[trigger] lower_hex(bytes)[i];
            ('0' <= c <= '9') || ('a' <= c <= 'f')
        } by {
            if i < prev.len() {
                assert(lower_hex(bytes)[i] == prev[i]);
            } else if i == prev.len() {
                assert(lower_hex(bytes)[i] == hex_digit(hi));
            } else {
                assert(lower_hex(bytes)[i] == hex_digit(lo));
            }
        }
    }
}

} // verus!
