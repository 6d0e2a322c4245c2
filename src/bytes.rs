//! Big-endian integers of one to eight bytes, as the wire carries them.

use vstd::arithmetic::div_mod::lemma_mod_breakdown;
use vstd::prelude::*;

verus! {

/// `256` to the power `n`.
pub open spec fn pow256(n: nat) -> nat
    decreases n,
{
    if n == 0 {
        1
    } else {
        256 * pow256((n - 1) as nat)
    }
}

/// The `n` low bytes of `x`, most significant first.
pub open spec fn be(x: nat, n: nat) -> Seq<u8>
    decreases n,
{
    if n == 0 {
        Seq::empty()
    } else {
        be(x / 256, (n - 1) as nat).push((x % 256) as u8)
    }
}

/// The unsigned number that the bytes denote, most significant first.
pub open spec fn be_value(s: Seq<u8>) -> nat
    decreases s.len(),
{
    if s.len() == 0 {
        0
    } else {
        be_value(s.drop_last()) * 256 + s.last() as nat
    }
}

/// Two's complement of `i` in `n` bytes, as an unsigned number.
pub open spec fn twos(i: int, n: nat) -> nat {
    if i < 0 {
        (i + pow256(n)) as nat
    } else {
        i as nat
    }
}

/// The signed number that an `n`-byte two's complement value `u` stands for.
pub open spec fn signed_of(u: nat, n: nat) -> int {
    if u >= pow256(n) / 2 {
        u - pow256(n)
    } else {
        u as int
    }
}

/// The signed big-endian bytes of `i` in `n` bytes.
pub open spec fn signed_be(i: int, n: nat) -> Seq<u8> {
    be(twos(i, n), n)
}

/// The signed number that big-endian bytes denote.
pub open spec fn signed_value(s: Seq<u8>) -> int {
    signed_of(be_value(s), s.len())
}

pub proof fn lemma_pow256_facts()
    ensures
        pow256(0) == 1,
        pow256(1) == 256,
        pow256(2) == 0x1_0000,
        pow256(3) == 0x100_0000,
        pow256(4) == 0x1_0000_0000,
        pow256(8) == 0x1_0000_0000_0000_0000,
{
    reveal_with_fuel(pow256, 9);
}

pub proof fn lemma_pow256_positive(n: nat)
    ensures
        pow256(n) > 0,
    decreases n,
{
    if n > 0 {
        lemma_pow256_positive((n - 1) as nat);
    }
}

pub proof fn lemma_pow256_monotonic(a: nat, b: nat)
    requires
        a <= b,
    ensures
        pow256(a) <= pow256(b),
    decreases b,
{
    lemma_pow256_positive(b);
    if a < b {
        lemma_pow256_monotonic(a, (b - 1) as nat);
    }
}

/// The bytes of `be` have the requested length and denote `x` modulo `256^n`.
pub proof fn lemma_be_round_trip(x: nat, n: nat)
    ensures
        be(x, n).len() == n,
        be_value(be(x, n)) == x % pow256(n),
    decreases n,
{
    if n == 0 {
    } else {
        let m = (n - 1) as nat;
        lemma_be_round_trip(x / 256, m);
        lemma_pow256_positive(m);
        assert(be(x, n).drop_last() =~= be(x / 256, m));
        lemma_mod_breakdown(x as int, 256, pow256(m) as int);
        assert(pow256(n) == 256 * pow256(m));
    }
}

/// What big-endian bytes denote is below `256^len`.
pub proof fn lemma_be_value_bound(s: Seq<u8>)
    ensures
        be_value(s) < pow256(s.len()),
    decreases s.len(),
{
    if s.len() > 0 {
        lemma_be_value_bound(s.drop_last());
        assert(pow256(s.len()) == 256 * pow256(s.drop_last().len()));
    }
}

/// Signed bytes read back as the number that was written, for every number that fits.
pub proof fn lemma_signed_round_trip(i: int, n: nat)
    requires
        n > 0,
        -(pow256(n) / 2) <= i < pow256(n) / 2,
    ensures
        signed_be(i, n).len() == n,
        signed_value(signed_be(i, n)) == i,
{
    lemma_pow256_positive(n);
    lemma_be_round_trip(twos(i, n), n);
    assert(pow256(n) == 256 * pow256((n - 1) as nat));
    lemma_pow256_positive((n - 1) as nat);
    vstd::arithmetic::div_mod::lemma_small_mod(twos(i, n), pow256(n));
}

/// Appends the `n` low bytes of `x`, most significant first.
pub fn push_be(out: &mut Vec<u8>, x: u64, n: usize)
    requires
        n <= 8,
    ensures
        final(out)@ == old(out)@ + be(x as nat, n as nat),
    decreases n,
{
    if n > 0 {
        push_be(out, x / 256, n - 1);
        out.push((x % 256) as u8);
        assert(be(x as nat, n as nat) == be((x / 256) as nat, (n - 1) as nat).push(
            (x % 256) as u8,
        ));
    }
}

/// Reads `n` bytes at `pos` as an unsigned big-endian number.
pub fn read_be(b: &[u8], pos: usize, n: usize) -> (r: u64)
    requires
        pos + n <= b@.len(),
        n <= 8,
    ensures
        r as nat == be_value(b@.subrange(pos as int, pos + n)),
{
    let mut acc: u64 = 0;
    let mut i: usize = 0;
    proof {
        assert(b@.subrange(pos as int, pos as int) =~= Seq::<u8>::empty());
        lemma_pow256_facts();
    }
    while i < n
        invariant
            i <= n,
            n <= 8,
            pos + n <= b.len(),
            acc as nat == be_value(b@.subrange(pos as int, pos + i)),
            acc < pow256(i as nat),
            pow256(8) == 0x1_0000_0000_0000_0000,
        decreases n - i,
    {
        proof {
            lemma_pow256_monotonic((i + 1) as nat, 8);
            assert(pow256((i + 1) as nat) == 256 * pow256(i as nat));
        }
        let byte = b[pos + i];
        acc = acc * 256 + byte as u64;
        proof {
            let s = b@.subrange(pos as int, pos + i + 1);
            assert(s.drop_last() =~= b@.subrange(pos as int, pos + i));
        }
        i = i + 1;
    }
    acc
}

/// `256^n` for the widths the wire uses.
pub fn pow256_of(n: usize) -> (r: u128)
    requires
        n == 1 || n == 2 || n == 4 || n == 8,
    ensures
        r as nat == pow256(n as nat),
{
    proof {
        lemma_pow256_facts();
    }
    if n == 1 {
        256
    } else if n == 2 {
        0x1_0000
    } else if n == 4 {
        0x1_0000_0000
    } else {
        0x1_0000_0000_0000_0000
    }
}

/// Appends `i` as a signed big-endian number of `n` bytes.
pub fn push_signed_be(out: &mut Vec<u8>, i: i64, n: usize)
    requires
        n == 1 || n == 2 || n == 4 || n == 8,
        -(pow256(n as nat) / 2) <= i < pow256(n as nat) / 2,
    ensures
        final(out)@ == old(out)@ + signed_be(i as int, n as nat),
{
    let p = pow256_of(n);
    proof {
        lemma_pow256_facts();
    }
    let u: u64 = if i < 0 {
        (i as i128 + p as i128) as u64
    } else {
        i as u64
    };
    push_be(out, u, n);
}

/// Reads `n` bytes at `pos` as a signed big-endian number.
pub fn read_signed_be(b: &[u8], pos: usize, n: usize) -> (r: i64)
    requires
        pos + n <= b@.len(),
        n == 1 || n == 2 || n == 4 || n == 8,
    ensures
        r as int == signed_value(b@.subrange(pos as int, pos + n)),
{
    let u = read_be(b, pos, n);
    let p = pow256_of(n);
    proof {
        lemma_pow256_facts();
        lemma_be_value_bound(b@.subrange(pos as int, pos + n));
    }
    if u as u128 >= p / 2 {
        (u as i128 - p as i128) as i64
    } else {
        u as i64
    }
}

} // verus!
