//! Little-endian base-128 variable-length integers: the wire format, its
//! decoder's behaviour on arbitrary input, and the facts that make it
//! self-delimiting.

use vstd::prelude::*;
use integer_encoding::VarInt;

use crate::coders::DecodeError;

verus! {

/// The canonical encoding of `v`: seven payload bits per byte, lowest first,
/// with the continuation bit set on every byte but the last.
pub open spec fn varint_bytes(v: nat) -> Seq<u8>
    decreases v,
{
    if v < 128 {
        seq![v as u8]
    } else {
        seq![(v % 128 + 128) as u8] + varint_bytes(v / 128)
    }
}

/// The number that the bytes of `s` spell as base-128 digits, lowest first,
/// ignoring each byte's continuation bit.
pub open spec fn digits_value(s: Seq<u8>) -> nat
    decreases s.len(),
{
    if s.len() == 0 {
        0
    } else {
        (s[0] % 128) as nat + 128 * digits_value(s.drop_first())
    }
}

/// Byte `i` of `s` ends a varint read from the start of `s`: it is the first
/// byte without a continuation bit, and it lies within the ten bytes that a
/// 64-bit varint may take.
pub open spec fn ends_at(s: Seq<u8>, i: int) -> bool {
    &&& 0 <= i < s.len()
    &&& i < 10
    &&& s[i] < 128
    &&& forall|j: int| 0 <= j < i ==> s[j] >= 128
}

pub const U64_LIMIT: u128 = 0x1_0000_0000_0000_0000;

/// Relies on `<u64 as VarInt>::encode_var_vec` of integer_encoding: it writes
/// the canonical base-128 encoding of the value.
#[verifier::external_body]
fn encode_var_vec_u64(v: u64) -> (r: Vec<u8>)
    ensures
        r@ == varint_bytes(v as nat),
{
    v.encode_var_vec()
}

/// Relies on `<u64 as VarInt>::decode_var` of integer_encoding: it reads at most
/// ten bytes, stops at the first byte without a continuation bit, and returns
/// the digits read, truncated to 64 bits, with the count of bytes read; `None`
/// when no such byte comes within the first ten.
#[verifier::external_body]
fn decode_var_u64(s: &[u8]) -> (r: Option<(u64, usize)>)
    ensures
        r is None <==> (forall|j: int| 0 <= j < s@.len() && j < 10 ==> s@[j] >= 128),
        r matches Some((v, n)) ==> ends_at(s@, n - 1) && v as nat == digits_value(
            s@.take(n as int),
        ) % (U64_LIMIT as nat),
{
    u64::decode_var(s)
}


/// `128` raised to the power `k`.
pub open spec fn radix_pow(k: nat) -> nat
    decreases k,
{
    if k == 0 {
        1
    } else {
        128 * radix_pow((k - 1) as nat)
    }
}

/// What a varint reader returns on `s`: the value and the number of bytes
/// read, or why no value can be read.
pub open spec fn varint_decoding(s: Seq<u8>) -> Result<(u64, usize), DecodeError> {
    if exists|i: int| ends_at(s, i) {
        let i = choose|i: int| ends_at(s, i);
        let v = digits_value(s.take(i + 1));
        if v < U64_LIMIT {
            Ok((v as u64, (i + 1) as usize))
        } else {
            Err(DecodeError::VarIntOverflow)
        }
    } else if s.len() < 10 {
        Err(DecodeError::Truncated)
    } else {
        Err(DecodeError::VarIntOverflow)
    }
}

proof fn lemma_ends_at_unique(s: Seq<u8>, i: int, j: int)
    requires
        ends_at(s, i),
        ends_at(s, j),
    ensures
        i == j,
{
    if i < j {
        assert(s[i] >= 128);
    } else if j < i {
        assert(s[j] >= 128);
    }
}

proof fn lemma_radix_pow_mono(a: nat, b: nat)
    requires
        a <= b,
    ensures
        radix_pow(a) <= radix_pow(b),
    decreases b,
{
    if a < b {
        lemma_radix_pow_mono(a, (b - 1) as nat);
    }
}

proof fn lemma_radix_pow_nine()
    ensures
        radix_pow(9) == 0x8000_0000_0000_0000,
{
    reveal_with_fuel(radix_pow, 10);
}

/// The last digit of `s` decides its value up to the weight of that digit.
proof fn lemma_digits_value_last(s: Seq<u8>)
    requires
        s.len() > 0,
    ensures
        radix_pow((s.len() - 1) as nat) * (s.last() % 128) as nat <= digits_value(s),
        digits_value(s) < radix_pow((s.len() - 1) as nat) * ((s.last() % 128) as nat + 1),
    decreases s.len(),
{
    let rest = s.drop_first();
    if s.len() == 1 {
        assert(digits_value(rest) == 0);
        assert(radix_pow(0) == 1);
    } else {
        lemma_digits_value_last(rest);
        assert(rest.last() == s.last());
        let p = radix_pow((rest.len() - 1) as nat);
        let d = (s.last() % 128) as nat;
        let r = digits_value(rest);
        let c = (s[0] % 128) as nat;
        assert(digits_value(s) == c + 128 * r);
        assert(radix_pow((s.len() - 1) as nat) == 128 * p);
        assert(128 * p * d <= c + 128 * r) by (nonlinear_arith)
            requires
                p * d <= r,
        ;
        assert(c + 128 * r < 128 * p * (d + 1)) by (nonlinear_arith)
            requires
                r < p * (d + 1),
                c < 128,
        ;
    }
}

proof fn lemma_varint_bytes_shape(v: nat)
    ensures
        varint_bytes(v).len() >= 1,
        digits_value(varint_bytes(v)) == v,
        varint_bytes(v).last() < 128,
        forall|j: int| 0 <= j < varint_bytes(v).len() - 1 ==> varint_bytes(v)[j] >= 128,
    decreases v,
{
    let b = varint_bytes(v);
    if v < 128 {
        assert(b.drop_first() =~= Seq::<u8>::empty());
        assert(digits_value(b.drop_first()) == 0);
    } else {
        lemma_varint_bytes_shape(v / 128);
        let rest = varint_bytes(v / 128);
        assert(b.drop_first() =~= rest);
        assert(b[0] % 128 == v % 128);
        assert(digits_value(b) == v % 128 + 128 * (v / 128));
        assert forall|j: int| 0 <= j < b.len() - 1 implies b[j] >= 128 by {
            if j > 0 {
                assert(b[j] == rest[j - 1]);
            }
        }
    }
}

proof fn lemma_varint_bytes_len(v: nat, k: nat)
    requires
        k >= 1,
        v < radix_pow(k),
    ensures
        varint_bytes(v).len() <= k,
    decreases v,
{
    if v >= 128 {
        let p = radix_pow((k - 1) as nat);
        assert(radix_pow(k) == 128 * p);
        assert(v / 128 < p);
        if k == 1 {
            assert(p == 1);
        }
        lemma_varint_bytes_len(v / 128, (k - 1) as nat);
    }
}

/// A varint followed by any bytes reads back as its value, and the reader
/// stops exactly where the varint ends.
pub proof fn lemma_varint_round_trip(v: u64, rest: Seq<u8>)
    ensures
        varint_decoding(varint_bytes(v as nat) + rest) == Ok::<(u64, usize), DecodeError>(
            (v, varint_bytes(v as nat).len() as usize),
        ),
        1 <= varint_bytes(v as nat).len() <= 10,
{
    let b = varint_bytes(v as nat);
    let s = b + rest;
    lemma_varint_bytes_shape(v as nat);
    lemma_radix_pow_nine();
    assert(radix_pow(10) == 128 * radix_pow(9));
    lemma_varint_bytes_len(v as nat, 10);
    let i = b.len() - 1;
    assert(ends_at(s, i));
    let c = choose|i: int| ends_at(s, i);
    lemma_ends_at_unique(s, i, c);
    assert(s.take(i + 1) =~= b);
}

/// Two varints written one after the other read back in order: the first
/// read stops where the second varint begins.
pub proof fn lemma_varint_sequence(v1: u64, v2: u64)
    ensures
        ({
            let s = varint_bytes(v1 as nat) + varint_bytes(v2 as nat);
            let n1 = varint_bytes(v1 as nat).len();
            &&& varint_decoding(s) == Ok::<(u64, usize), DecodeError>((v1, n1 as usize))
            &&& varint_decoding(s.subrange(n1 as int, s.len() as int)) == Ok::<(u64, usize), DecodeError>(
                (v2, varint_bytes(v2 as nat).len() as usize),
            )
        }),
{
    let s = varint_bytes(v1 as nat) + varint_bytes(v2 as nat);
    let n1 = varint_bytes(v1 as nat).len();
    lemma_varint_round_trip(v1, varint_bytes(v2 as nat));
    lemma_varint_round_trip(v2, Seq::empty());
    assert(s.subrange(n1 as int, s.len() as int) =~= varint_bytes(v2 as nat) + Seq::<u8>::empty());
}

/// Appends the canonical encoding of `v` to `out`; returns its length.
pub fn encode_varint(v: u64, out: &mut Vec<u8>) -> (r: usize)
    ensures
        final(out)@ == old(out)@ + varint_bytes(v as nat),
        r == varint_bytes(v as nat).len(),
{
    let mut enc = encode_var_vec_u64(v);
    let n = enc.len();
    out.append(&mut enc);
    n
}

/// Reads one varint from the start of `input`. A varint that does not end
/// within its ten bytes, or whose value exceeds 64 bits, is an overflow.
pub fn decode_varint(input: &[u8]) -> (r: Result<(u64, usize), DecodeError>)
    ensures
        r == varint_decoding(input@),
{
    let s = Ghost(input@);
    match decode_var_u64(input) {
        None => {
            proof {
                assert forall|i: int| !ends_at(s@, i) by {
                    if ends_at(s@, i) {
                        assert(s@[i] >= 128);
                    }
                }
            }
            if input.len() < 10 {
                Err(DecodeError::Truncated)
            } else {
                Err(DecodeError::VarIntOverflow)
            }
        },
        Some((v, n)) => {
            let ghost i = n - 1;
            let ghost t = s@.take(n as int);
            proof {
                let c = choose|i: int| ends_at(s@, i);
                lemma_ends_at_unique(s@, i, c);
                lemma_digits_value_last(t);
                lemma_radix_pow_nine();
                lemma_radix_pow_mono((t.len() - 1) as nat, 9);
                if t.len() < 10 {
                    lemma_radix_pow_mono(t.len(), 9);
                    assert(radix_pow(t.len()) == 128 * radix_pow((t.len() - 1) as nat));
                }
                assert(t.last() == s@[i]);
            }
            if n == 10 && input[9] > 1 {
                proof {
                    assert(radix_pow(9) * (t.last() % 128) as nat >= U64_LIMIT) by (nonlinear_arith)
                        requires
                            radix_pow(9) == 0x8000_0000_0000_0000,
                            (t.last() % 128) as nat >= 2,
                    ;
                }
                Err(DecodeError::VarIntOverflow)
            } else {
                proof {
                    let p = radix_pow((t.len() - 1) as nat);
                    let d = (t.last() % 128) as nat;
                    if t.len() == 10 {
                        assert(p * (d + 1) <= 0x1_0000_0000_0000_0000) by (nonlinear_arith)
                            requires
                                d <= 1,
                                p == 0x8000_0000_0000_0000,
                        ;
                    } else {
                        assert(p * (d + 1) <= 0x1_0000_0000_0000_0000) by (nonlinear_arith)
                            requires
                                d + 1 <= 128,
                                p * 128 <= 0x8000_0000_0000_0000,
                        ;
                    }
                }
                Ok((v, n))
            }
        },
    }
}

} // verus!
