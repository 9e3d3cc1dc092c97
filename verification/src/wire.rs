//! Protocol-buffer wire encoding (proto3 rules) for the LLB messages.
//!
//! Every writer appends to an output buffer and states exactly which bytes it
//! appended, in terms of the spec functions of this module.
use vstd::prelude::*;
use vstd::utf8::encode_utf8;

verus! {

/// The base-128 varint encoding of `n`, least significant group first.
pub open spec fn varint(n: nat) -> Seq<u8>
    decreases n,
{
    if n < 128 {
        seq![n as u8]
    } else {
        seq![(n % 128 + 128) as u8] + varint(n / 128)
    }
}

/// The key of a field: its number and wire type, as a varint.
pub open spec fn key(field: nat, wire_type: nat) -> Seq<u8> {
    varint(field * 8 + wire_type)
}

/// A varint-typed scalar field; proto3 leaves out the default value 0.
pub open spec fn uint_field(field: nat, v: nat) -> Seq<u8> {
    if v == 0 {
        Seq::empty()
    } else {
        key(field, 0) + varint(v)
    }
}

/// The 64-bit two's complement bits of a signed value, as protobuf sends
/// `int32` and `int64` fields.
pub open spec fn int_bits(v: int) -> nat {
    if v >= 0 {
        v as nat
    } else {
        (v + 0x1_0000_0000_0000_0000) as nat
    }
}

/// An `int32` or `int64` field.
pub open spec fn int_field(field: nat, v: int) -> Seq<u8> {
    uint_field(field, int_bits(v))
}

/// A `bool` field; `false` is left out.
pub open spec fn bool_field(field: nat, b: bool) -> Seq<u8> {
    if b {
        key(field, 0) + seq![1u8]
    } else {
        Seq::empty()
    }
}

/// A length-delimited record: key, length, payload. Used for embedded
/// messages and for each element of a repeated field.
pub open spec fn len_delim(field: nat, payload: Seq<u8>) -> Seq<u8> {
    key(field, 2) + varint(payload.len()) + payload
}

/// A singular `bytes` field; the empty value is left out.
pub open spec fn bytes_field(field: nat, b: Seq<u8>) -> Seq<u8> {
    if b.len() == 0 {
        Seq::empty()
    } else {
        len_delim(field, b)
    }
}

/// A singular `string` field: its UTF-8 bytes as a `bytes` field.
pub open spec fn str_field(field: nat, s: Seq<char>) -> Seq<u8> {
    bytes_field(field, encode_utf8(s))
}

/// A repeated `string` field: every element is sent, empty ones too.
pub open spec fn repeated_str(field: nat, ss: Seq<String>) -> Seq<u8>
    decreases ss.len(),
{
    if ss.len() == 0 {
        Seq::empty()
    } else {
        repeated_str(field, ss.drop_last()) + len_delim(field, encode_utf8(ss.last()@))
    }
}

pub proof fn lemma_varint_nonempty(n: nat)
    ensures
        varint(n).len() >= 1,
    decreases n,
{
    if n >= 128 {
        lemma_varint_nonempty(n / 128);
    }
}

/// A varint is read back from the front of a stream: equal streams that
/// start with varints start with the same one, and continue alike.
pub proof fn lemma_varint_prefix(a: nat, x: Seq<u8>, b: nat, y: Seq<u8>)
    requires
        varint(a) + x == varint(b) + y,
    ensures
        a == b,
        x == y,
    decreases a,
{
    let s = varint(a) + x;
    let t = varint(b) + y;
    assert(s[0] == varint(a)[0]);
    assert(t[0] == varint(b)[0]);
    if a < 128 && b < 128 {
        assert(x =~= s.subrange(1, s.len() as int));
        assert(y =~= t.subrange(1, t.len() as int));
    } else if a >= 128 && b >= 128 {
        assert(varint(a) == seq![(a % 128 + 128) as u8] + varint(a / 128));
        assert(varint(b) == seq![(b % 128 + 128) as u8] + varint(b / 128));
        assert(a % 128 == b % 128);
        assert(varint(a / 128) + x =~= s.subrange(1, s.len() as int));
        assert(varint(b / 128) + y =~= t.subrange(1, t.len() as int));
        lemma_varint_prefix(a / 128, x, b / 128, y);
    } else {
        assert(false);
    }
}

/// A length-delimited record is read back from the front of a stream.
pub proof fn lemma_len_delim_prefix(field: nat, p: Seq<u8>, x: Seq<u8>, q: Seq<u8>, y: Seq<u8>)
    requires
        len_delim(field, p) + x == len_delim(field, q) + y,
    ensures
        p == q,
        x == y,
{
    assert(len_delim(field, p) + x =~= varint(field * 8 + 2) + (varint(p.len()) + (p + x)));
    assert(len_delim(field, q) + y =~= varint(field * 8 + 2) + (varint(q.len()) + (q + y)));
    lemma_varint_prefix(field * 8 + 2, varint(p.len()) + (p + x), field * 8 + 2, varint(q.len()) + (q + y));
    lemma_varint_prefix(p.len(), p + x, q.len(), q + y);
    assert(p =~= (p + x).subrange(0, p.len() as int));
    assert(q =~= (q + y).subrange(0, q.len() as int));
    assert(x =~= (p + x).subrange(p.len() as int, (p + x).len() as int));
    assert(y =~= (q + y).subrange(q.len() as int, (q + y).len() as int));
}

/// An `int32`/`int64` field of a non-negative value names the value.
pub proof fn lemma_int_field_injective(field: nat, a: int, b: int)
    requires
        0 <= a,
        0 <= b,
        int_field(field, a) == int_field(field, b),
    ensures
        a == b,
{
    if a != 0 && b != 0 {
        lemma_varint_prefix(field * 8, varint(a as nat), field * 8, varint(b as nat));
        assert(varint(a as nat) + Seq::<u8>::empty() =~= varint(a as nat));
        assert(varint(b as nat) + Seq::<u8>::empty() =~= varint(b as nat));
        lemma_varint_prefix(a as nat, Seq::empty(), b as nat, Seq::empty());
    } else if a != 0 {
        lemma_varint_nonempty(field * 8);
        assert(int_field(field, a).len() > 0);
    } else if b != 0 {
        lemma_varint_nonempty(field * 8);
        assert(int_field(field, b).len() > 0);
    }
}

/// Appends `varint(v)`.
pub fn put_varint(out: &mut Vec<u8>, v: u64)
    ensures
        final(out)@ == old(out)@ + varint(v as nat),
{
    let ghost init = out@;
    let mut x: u64 = v;
    while x >= 128
        invariant
            out@ + varint(x as nat) == init + varint(v as nat),
        decreases x,
    {
        let b: u8 = (x % 128 + 128) as u8;
        let ghost before = out@;
        assert(varint(x as nat) == seq![b] + varint((x / 128) as nat));
        out.push(b);
        assert(out@ + varint((x / 128) as nat) =~= before + varint(x as nat));
        x = x / 128;
    }
    let ghost before = out@;
    out.push(x as u8);
    assert(out@ =~= before + varint(x as nat));
}

/// Appends the key of a field.
pub fn put_key(out: &mut Vec<u8>, field: u64, wire_type: u64)
    requires
        field < 0x2000_0000,
        wire_type < 8,
    ensures
        final(out)@ == old(out)@ + key(field as nat, wire_type as nat),
{
    put_varint(out, field * 8 + wire_type);
}

/// Appends all of `b`.
pub fn put_raw(out: &mut Vec<u8>, b: &[u8])
    ensures
        final(out)@ == old(out)@ + b@,
{
    let ghost init = out@;
    let n = b.len();
    let mut i: usize = 0;
    while i < n
        invariant
            n == b@.len(),
            i <= n,
            out@ == init + b@.subrange(0, i as int),
        decreases n - i,
    {
        out.push(b[i]);
        i = i + 1;
        assert(out@ =~= init + b@.subrange(0, i as int));
    }
    assert(b@.subrange(0, n as int) =~= b@);
}

/// Appends a varint-typed field.
pub fn put_uint_field(out: &mut Vec<u8>, field: u64, v: u64)
    requires
        field < 0x2000_0000,
    ensures
        final(out)@ == old(out)@ + uint_field(field as nat, v as nat),
{
    if v != 0 {
        let ghost init = out@;
        put_key(out, field, 0);
        put_varint(out, v);
        assert(out@ =~= init + uint_field(field as nat, v as nat));
    } else {
        assert(out@ =~= old(out)@ + uint_field(field as nat, v as nat));
    }
}

/// The two's complement bits of a signed value.
pub fn i64_bits(v: i64) -> (r: u64)
    ensures
        r as nat == int_bits(v as int),
{
    if v >= 0 {
        v as u64
    } else {
        let m: u64 = (-(v + 1)) as u64;
        0xffff_ffff_ffff_ffffu64 - m
    }
}

/// Appends an `int64` (or sign-extended `int32`) field.
pub fn put_int_field(out: &mut Vec<u8>, field: u64, v: i64)
    requires
        field < 0x2000_0000,
    ensures
        final(out)@ == old(out)@ + int_field(field as nat, v as int),
{
    let bits = i64_bits(v);
    put_uint_field(out, field, bits);
}

/// Appends a `bool` field.
pub fn put_bool_field(out: &mut Vec<u8>, field: u64, b: bool)
    requires
        field < 0x2000_0000,
    ensures
        final(out)@ == old(out)@ + bool_field(field as nat, b),
{
    if b {
        let ghost init = out@;
        put_key(out, field, 0);
        out.push(1u8);
        assert(out@ =~= init + bool_field(field as nat, b));
    } else {
        assert(out@ =~= old(out)@ + bool_field(field as nat, b));
    }
}

/// Appends a length-delimited record with the given payload.
pub fn put_len_delim(out: &mut Vec<u8>, field: u64, payload: &[u8])
    requires
        field < 0x2000_0000,
    ensures
        final(out)@ == old(out)@ + len_delim(field as nat, payload@),
{
    let ghost init = out@;
    put_key(out, field, 2);
    put_varint(out, payload.len() as u64);
    put_raw(out, payload);
    assert(out@ =~= init + len_delim(field as nat, payload@));
}

/// Appends a singular `bytes` field.
pub fn put_bytes_field(out: &mut Vec<u8>, field: u64, b: &[u8])
    requires
        field < 0x2000_0000,
    ensures
        final(out)@ == old(out)@ + bytes_field(field as nat, b@),
{
    if b.len() != 0 {
        put_len_delim(out, field, b);
    } else {
        assert(out@ =~= old(out)@ + bytes_field(field as nat, b@));
    }
}

/// Appends a singular `string` field.
pub fn put_str_field(out: &mut Vec<u8>, field: u64, s: &str)
    requires
        field < 0x2000_0000,
    ensures
        final(out)@ == old(out)@ + str_field(field as nat, s@),
{
    put_bytes_field(out, field, s.as_bytes());
}

/// Appends a repeated `string` field.
pub fn put_repeated_str(out: &mut Vec<u8>, field: u64, ss: &Vec<String>)
    requires
        field < 0x2000_0000,
    ensures
        final(out)@ == old(out)@ + repeated_str(field as nat, ss@),
{
    let ghost init = out@;
    let n = ss.len();
    let mut i: usize = 0;
    while i < n
        invariant
            n == ss@.len(),
            i <= n,
            field < 0x2000_0000,
            out@ == init + repeated_str(field as nat, ss@.subrange(0, i as int)),
        decreases n - i,
    {
        let ghost before = out@;
        put_len_delim(out, field, ss[i].as_str().as_bytes());
        assert(ss@.subrange(0, i + 1).drop_last() =~= ss@.subrange(0, i as int));
        i = i + 1;
        assert(out@ =~= init + repeated_str(field as nat, ss@.subrange(0, i as int)));
    }
    assert(ss@.subrange(0, n as int) =~= ss@);
}

} // verus!
