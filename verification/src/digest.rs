//! Content digests of serialized operations: `sha256:` followed by the
//! lowercase hexadecimal SHA-256 of the bytes.
use sha2::Digest;
use vstd::prelude::*;

verus! {

/// What SHA-256 computes of a byte string.
pub uninterp spec fn sha256_of(data: Seq<u8>) -> Seq<u8>;

/// The SHA-256 of `data`, computed by the `sha2` crate's `Sha256::digest`.
/// Claimed: the result is a function of `data` alone, 32 bytes long (the
/// algorithm's output size).
#[verifier::external_body]
fn sha256(data: &[u8]) -> (r: Vec<u8>)
    ensures
        r@ == sha256_of(data@),
        r@.len() == 32,
{
    sha2::Sha256::digest(data).to_vec()
}

/// The ASCII lowercase hexadecimal digit of a value below 16.
pub open spec fn hex_digit(v: nat) -> u8 {
    if v < 10 {
        (v + 48) as u8
    } else {
        (v + 87) as u8
    }
}

/// Two lowercase hexadecimal digits per byte, high nibble first.
pub open spec fn hex(b: Seq<u8>) -> Seq<u8>
    decreases b.len(),
{
    if b.len() == 0 {
        Seq::empty()
    } else {
        hex(b.drop_last()) + seq![hex_digit(b.last() as nat / 16), hex_digit(b.last() as nat % 16)]
    }
}

/// The ASCII bytes of `sha256:`.
pub open spec fn digest_prefix() -> Seq<u8> {
    seq![115u8, 104u8, 97u8, 50u8, 53u8, 54u8, 58u8]
}

/// The digest of `data`, as ASCII bytes.
pub open spec fn digest_of(data: Seq<u8>) -> Seq<u8> {
    digest_prefix() + hex(sha256_of(data))
}

/// ASCII bytes read as characters.
pub open spec fn ascii_chars(b: Seq<u8>) -> Seq<char> {
    b.map_values(|x: u8| x as char)
}

pub proof fn lemma_hex_len(b: Seq<u8>)
    ensures
        hex(b).len() == 2 * b.len(),
    decreases b.len(),
{
    if b.len() > 0 {
        lemma_hex_len(b.drop_last());
    }
}

/// Every character of a hex string is a lowercase hexadecimal digit.
pub proof fn lemma_hex_digits(b: Seq<u8>)
    ensures
        forall|i: int|
            0 <= i < hex(b).len() ==> {
                let c = #[trigger] hex(b)[i];
                (48 <= c <= 57) || (97 <= c <= 102)
            },
    decreases b.len(),
{
    lemma_hex_len(b);
    if b.len() > 0 {
        lemma_hex_digits(b.drop_last());
        lemma_hex_len(b.drop_last());
        let last = b.last() as nat;
        assert(last / 16 < 16);
        assert(last % 16 < 16);
        assert forall|i: int| 0 <= i < hex(b).len() implies {
            let c = #[trigger] hex(b)[i];
            (48 <= c <= 57) || (97 <= c <= 102)
        } by {
            if i < hex(b.drop_last()).len() {
                assert(hex(b)[i] == hex(b.drop_last())[i]);
            }
        }
    }
}

/// Appends the hexadecimal form of `b`.
fn put_hex(out: &mut Vec<u8>, b: &[u8])
    ensures
        final(out)@ == old(out)@ + hex(b@),
{
    let ghost init = out@;
    let n = b.len();
    let mut i: usize = 0;
    while i < n
        invariant
            n == b@.len(),
            i <= n,
            out@ == init + hex(b@.subrange(0, i as int)),
        decreases n - i,
    {
        let x = b[i];
        let hi = x / 16;
        let lo = x % 16;
        let h: u8 = if hi < 10 { hi + 48 } else { hi + 87 };
        let l: u8 = if lo < 10 { lo + 48 } else { lo + 87 };
        let ghost before = out@;
        out.push(h);
        out.push(l);
        let ghost s = b@.subrange(0, i + 1);
        assert(s.drop_last() =~= b@.subrange(0, i as int));
        i = i + 1;
        assert(out@ =~= init + hex(b@.subrange(0, i as int)));
    }
    assert(b@.subrange(0, n as int) =~= b@);
}

/// Every digest begins with `sha256:`.
pub proof fn lemma_digest_prefix(data: Seq<u8>)
    ensures
        ascii_chars(digest_of(data)).subrange(0, 7) == "sha256:"@,
{
    reveal_strlit("sha256:");
    assert(ascii_chars(digest_of(data)).subrange(0, 7) =~= "sha256:"@);
}

/// The digest of `data` as ASCII bytes: `sha256:` and 64 lowercase hex digits.
pub fn digest_bytes(data: &[u8]) -> (r: Vec<u8>)
    ensures
        r@ == digest_of(data@),
        r@.len() == 71,
{
    let h = sha256(data);
    let mut out: Vec<u8> = Vec::new();
    out.push(115u8);
    out.push(104u8);
    out.push(97u8);
    out.push(50u8);
    out.push(53u8);
    out.push(54u8);
    out.push(58u8);
    assert(out@ =~= digest_prefix());
    put_hex(&mut out, h.as_slice());
    proof {
        lemma_hex_len(h@);
    }
    out
}

/// ASCII bytes as a string.
pub fn ascii_to_string(b: &[u8]) -> (r: String)
    ensures
        r@ == ascii_chars(b@),
{
    let mut r = String::new();
    let n = b.len();
    let mut i: usize = 0;
    while i < n
        invariant
            n == b@.len(),
            i <= n,
            r@ == ascii_chars(b@.subrange(0, i as int)),
        decreases n - i,
    {
        crate::text::push_char(&mut r, b[i] as char);
        i = i + 1;
        assert(r@ =~= ascii_chars(b@.subrange(0, i as int)));
    }
    assert(b@.subrange(0, n as int) =~= b@);
    r
}

/// The content digest of a byte string: `sha256:` and the lowercase
/// hexadecimal SHA-256 of `bytes`.
pub fn digest(bytes: &[u8]) -> (r: String)
    ensures
        r@ == ascii_chars(digest_of(bytes@)),
        r@.len() == 71,
{
    let d = digest_bytes(bytes);
    ascii_to_string(d.as_slice())
}

} // verus!
