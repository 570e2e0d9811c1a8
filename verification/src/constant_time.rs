//! Comparison of secrets: every byte is looked at, whatever the others hold.

use vstd::prelude::*;

verus! {

proof fn lemma_or_is_zero(x: usize, y: usize)
    ensures
        (x | y) == 0 <==> x == 0 && y == 0,
{
    assert((x | y) == 0 <==> x == 0 && y == 0) by (bit_vector);
}

proof fn lemma_xor_is_zero(x: usize, y: usize)
    ensures
        (x ^ y) == 0 <==> x == y,
{
    assert((x ^ y) == 0 <==> x == y) by (bit_vector);
}

proof fn lemma_xor_byte_is_zero(x: u8, y: u8)
    ensures
        (x ^ y) == 0 <==> x == y,
{
    assert((x ^ y) == 0 <==> x == y) by (bit_vector);
}

// A byte, or zero behind the end.
spec fn byte_at(s: Seq<u8>, i: int) -> u8 {
    if 0 <= i < s.len() {
        s[i]
    } else {
        0
    }
}

/// Whether two runs of bytes are the same. The differences of all bytes are
/// gathered before anything is decided.
pub fn constant_time_eq(a: &[u8], b: &[u8]) -> (r: bool)
    ensures
        r == (a@ == b@),
{
    let mut diff: usize = a.len() ^ b.len();
    proof {
        lemma_xor_is_zero(a.len(), b.len());
    }
    let n: usize = if a.len() < b.len() {
        b.len()
    } else {
        a.len()
    };
    let mut i: usize = 0;
    while i < n
        invariant
            i <= n,
            n == (if a@.len() < b@.len() {
                b@.len()
            } else {
                a@.len()
            }),
            diff == 0 <==> a@.len() == b@.len() && forall|j: int|
                0 <= j < i ==> #[trigger] byte_at(a@, j) == byte_at(b@, j),
        decreases n - i,
    {
        let left: u8 = if i < a.len() {
            a[i]
        } else {
            0
        };
        let right: u8 = if i < b.len() {
            b[i]
        } else {
            0
        };
        let bits: u8 = left ^ right;
        proof {
            lemma_xor_byte_is_zero(left, right);
            lemma_or_is_zero(diff, bits as usize);
            assert(byte_at(a@, i as int) == left);
            assert(byte_at(b@, i as int) == right);
        }
        diff = diff | bits as usize;
        i = i + 1;
    }
    proof {
        if diff == 0 {
            assert forall|j: int| 0 <= j < a@.len() implies a@[j] == b@[j] by {
                assert(byte_at(a@, j) == byte_at(b@, j));
            }
            assert(a@ =~= b@);
        }
    }
    diff == 0
}

/// Two texts are the same where their bytes are.
pub proof fn lemma_same_bytes_same_text(a: Seq<char>, b: Seq<char>)
    ensures
        vstd::utf8::encode_utf8(a) == vstd::utf8::encode_utf8(b) <==> a == b,
{
    vstd::utf8::encode_utf8_decode_utf8(a);
    vstd::utf8::encode_utf8_decode_utf8(b);
}

/// Whether two texts are the same, by their bytes.
pub fn same_secret(a: &str, b: &str) -> (r: bool)
    ensures
        r == (a@ == b@),
{
    proof {
        lemma_same_bytes_same_text(a@, b@);
    }
    constant_time_eq(a.as_bytes(), b.as_bytes())
}

} // verus!
