//! The 8-byte big-endian timestamp field carried at the head of the payload.
use vstd::prelude::*;
use vstd::arithmetic::div_mod::lemma_div_denominator;

verus! {

/// Width in bytes of the timestamp field.
pub const TIMESTAMP_LEN: usize = 8;

/// The unsigned integer that the bytes of `b` spell, most significant first.
pub open spec fn be_value(b: Seq<u8>) -> nat
    decreases b.len(),
{
    if b.len() == 0 {
        0
    } else {
        be_value(b.drop_last()) * 256 + b.last() as nat
    }
}

/// The `k` lowest bytes of `n`, most significant first.
pub open spec fn be_bytes(n: nat, k: nat) -> Seq<u8>
    decreases k,
{
    if k == 0 {
        Seq::empty()
    } else {
        be_bytes(n / 256, (k - 1) as nat).push((n % 256) as u8)
    }
}

pub proof fn lemma_be_bytes_len(n: nat, k: nat)
    ensures
        be_bytes(n, k).len() == k,
    decreases k,
{
    if k > 0 {
        lemma_be_bytes_len(n / 256, (k - 1) as nat);
    }
}

proof fn lemma_be_value_of_bytes(n: nat, k: nat)
    requires
        n < pow256(k),
    ensures
        be_value(be_bytes(n, k)) == n,
    decreases k,
{
    if k > 0 {
        let q = n / 256;
        assert(q < pow256((k - 1) as nat)) by (nonlinear_arith)
            requires
                n < pow256((k - 1) as nat) * 256,
                q == n / 256,
        ;
        lemma_be_value_of_bytes(q, (k - 1) as nat);
        let s = be_bytes(n, k);
        assert(s.drop_last() =~= be_bytes(q, (k - 1) as nat));
        assert(n == q * 256 + n % 256) by (nonlinear_arith)
            requires
                q == n / 256,
        ;
    }
}

proof fn lemma_bytes_of_be_value(b: Seq<u8>)
    ensures
        be_bytes(be_value(b), b.len()) == b,
        be_value(b) < pow256(b.len()),
    decreases b.len(),
{
    if b.len() > 0 {
        let p = b.drop_last();
        lemma_bytes_of_be_value(p);
        let v = be_value(b);
        let last = b.last() as nat;
        assert(v / 256 == be_value(p) && v % 256 == last) by (nonlinear_arith)
            requires
                v == be_value(p) * 256 + last,
                last < 256,
        ;
        assert(v < pow256(b.len())) by (nonlinear_arith)
            requires
                v == be_value(p) * 256 + last,
                last < 256,
                be_value(p) < pow256(p.len()),
                pow256(b.len()) == pow256(p.len()) * 256,
        ;
        assert(be_bytes(v, b.len()) =~= b);
    }
}

/// 256 to the power `k`.
pub open spec fn pow256(k: nat) -> nat
    decreases k,
{
    if k == 0 {
        1
    } else {
        pow256((k - 1) as nat) * 256
    }
}

proof fn lemma_pow256_pos(k: nat)
    ensures
        pow256(k) > 0,
    decreases k,
{
    if k > 0 {
        lemma_pow256_pos((k - 1) as nat);
    }
}

proof fn lemma_be_bytes_index(n: nat, k: nat, j: int)
    requires
        0 <= j < k,
    ensures
        be_bytes(n, k).len() == k,
        be_bytes(n, k)[j] == ((n / pow256((k - 1 - j) as nat)) % 256) as u8,
    decreases k,
{
    lemma_be_bytes_len(n, k);
    lemma_be_bytes_len(n / 256, (k - 1) as nat);
    if j < k - 1 {
        lemma_be_bytes_index(n / 256, (k - 1) as nat, j);
        let p = pow256((k - 2 - j) as nat);
        lemma_pow256_pos((k - 2 - j) as nat);
        lemma_div_denominator(n as int, 256, p as int);
        assert(pow256((k - 1 - j) as nat) == p * 256);
        assert(256 * p == p * 256) by (nonlinear_arith);
    } else {
        assert(pow256(0) == 1);
        assert(n / 1 == n);
    }
}

/// Writes `n` as eight big-endian bytes.
pub fn encode_timestamp(n: u64) -> (r: [u8; 8])
    ensures
        r@ == be_bytes(n as nat, 8),
        be_value(r@) == n,
{
    let mut r: [u8; 8] = [0u8; 8];
    let mut v: u64 = n;
    let mut i: usize = 8;
    proof {
        lemma_be_bytes_len(n as nat, 8);
        assert(pow256(0) == 1);
        assert(n as nat / 1 == n as nat);
    }
    while i > 0
        invariant
            i <= 8,
            r@.len() == 8,
            v as nat == n as nat / pow256((8 - i) as nat),
            forall|j: int| i <= j < 8 ==> r@[j] == be_bytes(n as nat, 8)[j],
        decreases i,
    {
        i = i - 1;
        proof {
            lemma_be_bytes_index(n as nat, 8, i as int);
            lemma_pow256_pos((7 - i) as nat);
            lemma_div_denominator(n as int, pow256((7 - i) as nat) as int, 256);
            assert(pow256((8 - i) as nat) == pow256((7 - i) as nat) * 256);
        }
        r[i] = (v % 256) as u8;
        v = v / 256;
    }
    proof {
        assert(r@ =~= be_bytes(n as nat, 8));
        reveal_with_fuel(pow256, 9);
        assert(pow256(8) == 18446744073709551616);
        lemma_be_value_of_bytes(n as nat, 8);
    }
    r
}

proof fn lemma_pow256_mono(a: nat, b: nat)
    requires
        a <= b,
    ensures
        pow256(a) <= pow256(b),
    decreases b,
{
    if a < b {
        lemma_pow256_mono(a, (b - 1) as nat);
    }
}

/// Reads the eight bytes of `b` that start at `at` as a big-endian integer.
pub fn decode_timestamp(b: &[u8], at: usize) -> (r: u64)
    requires
        at + TIMESTAMP_LEN <= b@.len(),
    ensures
        r as nat == be_value(b@.subrange(at as int, at + 8)),
{
    let len: usize = b.len();
    let mut v: u64 = 0;
    let mut i: usize = 0;
    proof {
        assert(b@.subrange(at as int, at as int).len() == 0);
    }
    while i < TIMESTAMP_LEN
        invariant
            i <= 8,
            at + 8 <= b@.len(),
            v as nat == be_value(b@.subrange(at as int, at + i)),
            b@.len() == len,
            v < pow256(i as nat),
        decreases 8 - i,
    {
        proof {
            lemma_pow256_mono((i + 1) as nat, 8);
            reveal_with_fuel(pow256, 9);
            assert(b@.subrange(at as int, at + i + 1).drop_last() =~= b@.subrange(
                at as int,
                at + i,
            ));
            assert(v * 256 + 255 < pow256((i + 1) as nat)) by (nonlinear_arith)
                requires
                    v < pow256(i as nat),
                    pow256((i + 1) as nat) == pow256(i as nat) * 256,
            ;
        }
        v = v * 256 + b[at + i] as u64;
        i = i + 1;
    }
    v
}

/// Encoding a send time into the timestamp field and decoding the field gives
/// back the same time, for every 64-bit value; and every 8-byte field is the
/// encoding of the value it decodes to.
pub proof fn timestamp_round_trip(n: u64, b: Seq<u8>)
    requires
        b.len() == TIMESTAMP_LEN,
    ensures
        be_value(be_bytes(n as nat, 8)) == n,
        be_bytes(n as nat, 8).len() == 8,
        be_bytes(be_value(b), 8) == b,
{
    reveal_with_fuel(pow256, 9);
    assert(pow256(8) == 18446744073709551616);
    lemma_be_value_of_bytes(n as nat, 8);
    lemma_be_bytes_len(n as nat, 8);
    lemma_bytes_of_be_value(b);
}

} // verus!
