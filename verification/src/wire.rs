//! Big-endian integer fields and decimal rendering.
//!
//! Both framings used by the protocol carry unsigned big-endian length
//! prefixes (8 bytes on the stream, 4 bytes in persisted files), and every
//! chunk of a media file starts with an 8-byte big-endian chunk index.
//! Decrypted file names and echoed timestamps are rendered in decimal.

use vstd::prelude::*;

verus! {

/// The views of a list of byte strings.
pub open spec fn views_of(msgs: Seq<Vec<u8>>) -> Seq<Seq<u8>> {
    Seq::new(msgs.len(), |i: int| msgs[i]@)
}

/// The value of a byte string read as one big-endian unsigned integer.
pub open spec fn be_value(s: Seq<u8>) -> nat
    decreases s.len(),
{
    if s.len() == 0 {
        0
    } else {
        be_value(s.drop_last()) * 256 + (s.last() as nat)
    }
}

/// 256 to the power `n`: the number of values an `n`-byte field can carry.
pub open spec fn pow256(n: nat) -> nat
    decreases n,
{
    if n == 0 {
        1
    } else {
        256 * pow256((n - 1) as nat)
    }
}

pub proof fn lemma_be_value_bound(s: Seq<u8>)
    ensures
        be_value(s) < pow256(s.len()),
    decreases s.len(),
{
    if s.len() > 0 {
        lemma_be_value_bound(s.drop_last());
    }
}

pub proof fn lemma_pow256_small()
    ensures
        pow256(0) == 1,
        pow256(1) == 0x100,
        pow256(2) == 0x10000,
        pow256(3) == 0x1000000,
        pow256(4) == 0x100000000,
        pow256(5) == 0x10000000000,
        pow256(6) == 0x1000000000000,
        pow256(7) == 0x100000000000000,
        pow256(8) == 0x10000000000000000,
{
    assert(pow256(0) == 1);
    assert(pow256(1) == 0x100);
    assert(pow256(2) == 0x10000);
    assert(pow256(3) == 0x1000000);
    assert(pow256(4) == 0x100000000);
    assert(pow256(5) == 0x10000000000);
    assert(pow256(6) == 0x1000000000000);
    assert(pow256(7) == 0x100000000000000);
    assert(pow256(8) == 0x10000000000000000);
}

pub proof fn lemma_pow256_monotone(a: nat, b: nat)
    requires
        a <= b,
    ensures
        pow256(a) <= pow256(b),
    decreases b,
{
    if a < b && b > 0 {
        lemma_pow256_monotone(a, (b - 1) as nat);
    }
}

/// Reads the first 8 bytes of `s` as a big-endian unsigned integer.
pub fn u64_from_be_bytes(s: &[u8]) -> (x: u64)
    requires
        s@.len() >= 8,
    ensures
        x as nat == be_value(s@.subrange(0, 8)),
{
    let mut x: u64 = 0;
    let mut i: usize = 0;
    while i < 8
        invariant
            i <= 8,
            s@.len() >= 8,
            x as nat == be_value(s@.subrange(0, i as int)),
        decreases 8 - i,
    {
        proof {
            lemma_be_value_bound(s@.subrange(0, i as int));
            lemma_pow256_monotone(i as nat, 7);
            lemma_pow256_small();
            assert(s@.subrange(0, i + 1).drop_last() =~= s@.subrange(0, i as int));
            assert(s@.subrange(0, i + 1).last() == s@[i as int]);
        }
        x = x * 256 + (s[i] as u64);
        i = i + 1;
    }
    x
}

/// Writes `x` as 8 big-endian bytes.
pub fn u64_to_be_bytes(x: u64) -> (r: Vec<u8>)
    ensures
        r@.len() == 8,
        be_value(r@) == x,
{
    let b7: u8 = (x % 256) as u8;
    let x6: u64 = x / 256;
    let b6: u8 = (x6 % 256) as u8;
    let x5: u64 = x6 / 256;
    let b5: u8 = (x5 % 256) as u8;
    let x4: u64 = x5 / 256;
    let b4: u8 = (x4 % 256) as u8;
    let x3: u64 = x4 / 256;
    let b3: u8 = (x3 % 256) as u8;
    let x2: u64 = x3 / 256;
    let b2: u8 = (x2 % 256) as u8;
    let x1: u64 = x2 / 256;
    let b1: u8 = (x1 % 256) as u8;
    let x0: u64 = x1 / 256;
    let b0: u8 = (x0 % 256) as u8;
    let r: Vec<u8> = vec![b0, b1, b2, b3, b4, b5, b6, b7];
    proof {
        assert(x0 < 256);
        assert(be_value(Seq::<u8>::empty()) == 0);
        assert(seq![b0].drop_last() =~= Seq::<u8>::empty());
        assert(seq![b0].last() == b0);
        assert(be_value(seq![b0]) == x0);
        assert(seq![b0, b1].drop_last() =~= seq![b0]);
        assert(be_value(seq![b0, b1]) == x1);
        assert(seq![b0, b1, b2].drop_last() =~= seq![b0, b1]);
        assert(be_value(seq![b0, b1, b2]) == x2);
        assert(seq![b0, b1, b2, b3].drop_last() =~= seq![b0, b1, b2]);
        assert(be_value(seq![b0, b1, b2, b3]) == x3);
        assert(seq![b0, b1, b2, b3, b4].drop_last() =~= seq![b0, b1, b2, b3]);
        assert(be_value(seq![b0, b1, b2, b3, b4]) == x4);
        assert(seq![b0, b1, b2, b3, b4, b5].drop_last() =~= seq![b0, b1, b2, b3, b4]);
        assert(be_value(seq![b0, b1, b2, b3, b4, b5]) == x5);
        assert(seq![b0, b1, b2, b3, b4, b5, b6].drop_last() =~= seq![b0, b1, b2, b3, b4, b5]);
        assert(be_value(seq![b0, b1, b2, b3, b4, b5, b6]) == x6);
        assert(r@.drop_last() =~= seq![b0, b1, b2, b3, b4, b5, b6]);
        assert(be_value(r@) == x);
    }
    r
}

/// Reads the first 4 bytes of `s` as a big-endian unsigned integer.
pub fn u32_from_be_bytes(s: &[u8]) -> (x: u32)
    requires
        s@.len() >= 4,
    ensures
        x as nat == be_value(s@.subrange(0, 4)),
{
    let mut x: u32 = 0;
    let mut i: usize = 0;
    while i < 4
        invariant
            i <= 4,
            s@.len() >= 4,
            x as nat == be_value(s@.subrange(0, i as int)),
        decreases 4 - i,
    {
        proof {
            lemma_be_value_bound(s@.subrange(0, i as int));
            lemma_pow256_monotone(i as nat, 3);
            lemma_pow256_small();
            assert(s@.subrange(0, i + 1).drop_last() =~= s@.subrange(0, i as int));
            assert(s@.subrange(0, i + 1).last() == s@[i as int]);
        }
        x = x * 256 + (s[i] as u32);
        i = i + 1;
    }
    x
}

/// Writes `x` as 4 big-endian bytes.
pub fn u32_to_be_bytes(x: u32) -> (r: Vec<u8>)
    ensures
        r@.len() == 4,
        be_value(r@) == x,
{
    let b3: u8 = (x % 256) as u8;
    let x2: u32 = x / 256;
    let b2: u8 = (x2 % 256) as u8;
    let x1: u32 = x2 / 256;
    let b1: u8 = (x1 % 256) as u8;
    let x0: u32 = x1 / 256;
    let b0: u8 = (x0 % 256) as u8;
    let r: Vec<u8> = vec![b0, b1, b2, b3];
    proof {
        assert(x0 < 256);
        assert(be_value(Seq::<u8>::empty()) == 0);
        assert(seq![b0].drop_last() =~= Seq::<u8>::empty());
        assert(seq![b0].last() == b0);
        assert(be_value(seq![b0]) == x0);
        assert(seq![b0, b1].drop_last() =~= seq![b0]);
        assert(be_value(seq![b0, b1]) == x1);
        assert(seq![b0, b1, b2].drop_last() =~= seq![b0, b1]);
        assert(be_value(seq![b0, b1, b2]) == x2);
        assert(r@.drop_last() =~= seq![b0, b1, b2]);
        assert(be_value(r@) == x);
    }
    r
}

/// The decimal digit character for `d`.
pub open spec fn decimal_digit(d: nat) -> char
    recommends
        d < 10,
{
    if d == 0 { '0' }
    else if d == 1 { '1' }
    else if d == 2 { '2' }
    else if d == 3 { '3' }
    else if d == 4 { '4' }
    else if d == 5 { '5' }
    else if d == 6 { '6' }
    else if d == 7 { '7' }
    else if d == 8 { '8' }
    else { '9' }
}

/// The usual decimal rendering of `n`, without leading zeros.
pub open spec fn decimal_of(n: nat) -> Seq<char>
    decreases n,
{
    if n < 10 {
        seq![decimal_digit(n)]
    } else {
        decimal_of(n / 10) + seq![decimal_digit(n % 10)]
    }
}

fn decimal_digit_str(d: u64) -> (r: &'static str)
    requires
        d < 10,
    ensures
        r@ =~= seq![decimal_digit(d as nat)],
{
    proof {
        reveal_strlit("0");
        reveal_strlit("1");
        reveal_strlit("2");
        reveal_strlit("3");
        reveal_strlit("4");
        reveal_strlit("5");
        reveal_strlit("6");
        reveal_strlit("7");
        reveal_strlit("8");
        reveal_strlit("9");
    }
    if d == 0 { "0" }
    else if d == 1 { "1" }
    else if d == 2 { "2" }
    else if d == 3 { "3" }
    else if d == 4 { "4" }
    else if d == 5 { "5" }
    else if d == 6 { "6" }
    else if d == 7 { "7" }
    else if d == 8 { "8" }
    else { "9" }
}

/// Renders `n` in decimal.
pub fn u64_to_decimal(n: u64) -> (s: String)
    ensures
        s@ == decimal_of(n as nat),
    decreases n,
{
    if n < 10 {
        String::from_str(decimal_digit_str(n))
    } else {
        let mut s = u64_to_decimal(n / 10);
        s.append(decimal_digit_str(n % 10));
        s
    }
}

} // verus!
