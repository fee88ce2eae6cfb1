//! Byte-level building blocks shared by the governance code: SHA-256 and
//! hex encoding (from the `sha2` and `hex` crates), little-endian and
//! decimal encodings of integers, and byte concatenation.

use vstd::prelude::*;
use sha2::{Digest, Sha256};

verus! {

/// The SHA-256 digest of `data`.
pub uninterp spec fn spec_sha256(data: Seq<u8>) -> Seq<u8>;

/// `sha2::Sha256::digest`. Claimed: the 32 bytes returned are the SHA-256
/// digest of `data`, a function of `data` alone (named `spec_sha256`).
#[verifier::external_body]
pub(crate) fn sha256(data: &[u8]) -> (h: [u8; 32])
    ensures
        h@ == spec_sha256(data@),
{
    Sha256::digest(data).into()
}

/// Lower-case hex digit for a value below 16.
pub open spec fn hex_char(n: u8) -> char {
    if n < 10 {
        (48 + n) as char
    } else {
        (87 + n) as char
    }
}

/// Lower-case hex encoding: two digits per byte, high nibble first.
pub open spec fn spec_hex(b: Seq<u8>) -> Seq<char>
    decreases b.len(),
{
    if b.len() == 0 {
        Seq::empty()
    } else {
        spec_hex(b.drop_last()) + seq![hex_char(b.last() / 16), hex_char(b.last() % 16)]
    }
}

/// `hex::encode`. Claimed: the result is the lower-case hex encoding of
/// `data`, two digits per byte, high nibble first.
#[verifier::external_body]
pub(crate) fn hex_encode(data: &[u8]) -> (s: String)
    ensures
        s@ == spec_hex(data@),
{
    hex::encode(data)
}

/// The first `n` little-endian base-256 digits of `v`.
pub open spec fn le_digits(v: nat, n: nat) -> Seq<u8>
    decreases n,
{
    if n == 0 {
        Seq::empty()
    } else {
        seq![(v % 256) as u8] + le_digits(v / 256, (n - 1) as nat)
    }
}

/// The 8-byte little-endian encoding of a `u64`.
pub open spec fn le_bytes(v: u64) -> Seq<u8> {
    le_digits(v as nat, 8)
}

/// The number whose little-endian base-256 digits are `b`.
pub open spec fn le_value(b: Seq<u8>) -> nat
    decreases b.len(),
{
    if b.len() == 0 {
        0
    } else {
        b[0] as nat + 256 * le_value(b.drop_first())
    }
}

/// `256` to the power `n`.
pub open spec fn pow256(n: nat) -> nat
    decreases n,
{
    if n == 0 { 1 } else { 256 * pow256((n - 1) as nat) }
}

/// The first `n` digits of a number below `256^n` have length `n` and read
/// back as that number.
pub proof fn lemma_le_digits(v: nat, n: nat)
    requires
        v < pow256(n),
    ensures
        le_digits(v, n).len() == n,
        le_value(le_digits(v, n)) == v,
    decreases n,
{
    if n > 0 {
        let p = pow256((n - 1) as nat);
        assert(v / 256 < p) by (nonlinear_arith)
            requires
                v < 256 * p,
        ;
        lemma_le_digits(v / 256, (n - 1) as nat);
        let d = le_digits(v, n);
        assert(d.drop_first() =~= le_digits(v / 256, (n - 1) as nat));
        assert(d[0] as nat == v % 256);
        assert(v % 256 + 256 * (v / 256) == v) by (nonlinear_arith);
    }
}

/// The eight bytes of `le_bytes(v)` read back as `v`; so different numbers
/// have different encodings.
pub proof fn lemma_le_bytes(v: u64)
    ensures
        le_bytes(v).len() == 8,
        le_value(le_bytes(v)) == v,
{
    reveal_with_fuel(pow256, 9);
    assert(pow256(8) == 0x1_0000_0000_0000_0000nat);
    lemma_le_digits(v as nat, 8);
}

/// Bytes that start with the encodings of two numbers are equal only if
/// the numbers are equal and so are the bytes after them.
pub proof fn lemma_le_prefix(a: u64, b: u64, ra: Seq<u8>, rb: Seq<u8>)
    requires
        le_bytes(a) + ra == le_bytes(b) + rb,
    ensures
        a == b,
        ra == rb,
{
    lemma_le_bytes(a);
    lemma_le_bytes(b);
    let x = le_bytes(a) + ra;
    assert(x.subrange(0, 8) =~= le_bytes(a));
    assert((le_bytes(b) + rb).subrange(0, 8) =~= le_bytes(b));
    assert(x.subrange(8, x.len() as int) =~= ra);
    assert((le_bytes(b) + rb).subrange(8, x.len() as int) =~= rb);
}

/// Appends the little-endian encoding of `v` to `out`.
pub fn push_le_u64(out: &mut Vec<u8>, v: u64)
    ensures
        final(out)@ == old(out)@ + le_bytes(v),
{
    let ghost start = out@;
    let mut x: u64 = v;
    let mut i: usize = 0;
    while i < 8
        invariant
            0 <= i <= 8,
            out@ + le_digits(x as nat, (8 - i) as nat) == start + le_bytes(v),
        decreases 8 - i,
    {
        let ghost before = out@;
        proof {
            assert(le_digits(x as nat, (8 - i) as nat) == seq![(x % 256) as u8] + le_digits(
                (x / 256) as nat,
                (8 - i - 1) as nat,
            ));
        }
        out.push((x % 256) as u8);
        proof {
            assert(out@ + le_digits((x / 256) as nat, (8 - i - 1) as nat) =~= before + le_digits(
                x as nat,
                (8 - i) as nat,
            ));
        }
        x = x / 256;
        i = i + 1;
    }
    assert(le_digits(x as nat, 0) =~= Seq::<u8>::empty());
    assert(out@ =~= start + le_bytes(v));
}

/// Appends `src` to `out`.
pub fn push_bytes(out: &mut Vec<u8>, src: &[u8])
    ensures
        final(out)@ == old(out)@ + src@,
{
    let ghost start = out@;
    let n = src.len();
    let mut i: usize = 0;
    while i < n
        invariant
            n == src@.len(),
            0 <= i <= n,
            out@ == start + src@.take(i as int),
        decreases n - i,
    {
        out.push(src[i]);
        assert(src@.take(i + 1) =~= src@.take(i as int).push(src@[i as int]));
        i = i + 1;
    }
    assert(src@.take(n as int) =~= src@);
}

/// Appends the UTF-8 bytes of `s` to `out`.
pub fn push_str_bytes(out: &mut Vec<u8>, s: &str)
    ensures
        final(out)@ == old(out)@ + vstd::utf8::encode_utf8(s@),
{
    push_bytes(out, s.as_bytes());
}

/// The ASCII decimal digits of `n`, most significant first.
pub open spec fn dec_digits(n: nat) -> Seq<u8>
    decreases n,
{
    if n < 10 {
        seq![(48 + n) as u8]
    } else {
        dec_digits(n / 10) + seq![(48 + n % 10) as u8]
    }
}

/// The decimal digits of `n` as characters.
pub open spec fn dec_chars(n: nat) -> Seq<char>
    decreases n,
{
    if n < 10 {
        seq![(48 + n) as char]
    } else {
        dec_chars(n / 10) + seq![(48 + n % 10) as char]
    }
}

/// Appends the ASCII decimal digits of `n` to `out`.
pub fn push_decimal(out: &mut Vec<u8>, n: u64)
    ensures
        final(out)@ == old(out)@ + dec_digits(n as nat),
    decreases n,
{
    if n >= 10 {
        push_decimal(out, n / 10);
    }
    out.push((48 + n % 10) as u8);
    proof {
        if n >= 10 {
            assert(dec_digits(n as nat) == dec_digits((n / 10) as nat) + seq![(48 + n % 10) as u8]);
        } else {
            assert(dec_digits(n as nat) == seq![(48 + n) as u8]);
        }
    }
    assert(out@ =~= old(out)@ + dec_digits(n as nat));
}

fn digit_str(d: u64) -> (r: &'static str)
    requires
        d < 10,
    ensures
        r@ == seq![(48 + d) as char],
{
    proof {
        reveal_strlit("0");
        reveal_strlit("1");
        reveal_strlit("2");
        reveal_strlit("3");
        reveal_strlit("4");
        reveal_strlit("5");
        reveal_strlit("6");
        reveal_strlit("7");
        reveal_strlit("8");
        reveal_strlit("9");
    }
    let r = match d {
        0 => "0",
        1 => "1",
        2 => "2",
        3 => "3",
        4 => "4",
        5 => "5",
        6 => "6",
        7 => "7",
        8 => "8",
        _ => "9",
    };
    assert(r@ =~= seq![(48 + d) as char]);
    r
}

/// Appends the decimal digits of `n` to the string `s`.
pub fn push_decimal_str(s: &mut String, n: u64)
    ensures
        final(s)@ == old(s)@ + dec_chars(n as nat),
    decreases n,
{
    if n >= 10 {
        push_decimal_str(s, n / 10);
    }
    s.append(digit_str(n % 10));
    proof {
        if n >= 10 {
            assert(dec_chars(n as nat) == dec_chars((n / 10) as nat) + seq![(48 + n % 10) as char]);
        } else {
            assert(dec_chars(n as nat) == seq![(48 + n) as char]);
        }
    }
    assert(s@ =~= old(s)@ + dec_chars(n as nat));
}

} // verus!
