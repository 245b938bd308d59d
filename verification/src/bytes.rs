//! Byte strings as little-endian numbers, and fixed-size pieces of slices.
use vstd::arithmetic::div_mod::{lemma_div_denominator, lemma_fundamental_div_mod_converse};
use vstd::arithmetic::power::{lemma_pow0, lemma_pow_increases, lemma_pow_positive, pow};
use vstd::prelude::*;

verus! {

/// The number that `bytes` writes in base 256, least significant byte first.
pub open spec fn le_nat(bytes: Seq<u8>) -> nat
    decreases bytes.len(),
{
    if bytes.len() == 0 {
        0
    } else {
        bytes.first() as nat + 256 * le_nat(bytes.drop_first())
    }
}

/// The `len` low base-256 digits of `n`, least significant first.
pub open spec fn le_bytes(n: nat, len: nat) -> Seq<u8>
    decreases len,
{
    if len == 0 {
        Seq::empty()
    } else {
        seq![(n % 256) as u8] + le_bytes(n / 256, (len - 1) as nat)
    }
}

/// Writing a number takes exactly the digits that were asked for.
pub proof fn lemma_le_bytes_len(n: nat, len: nat)
    ensures
        le_bytes(n, len).len() == len,
    decreases len,
{
    if len > 0 {
        lemma_le_bytes_len(n / 256, (len - 1) as nat);
    }
}

/// Reading a byte string as a number and writing the number out again, in as many bytes, gives
/// the byte string back.
pub proof fn lemma_write_of_read(bytes: Seq<u8>)
    ensures
        le_bytes(le_nat(bytes), bytes.len()) == bytes,
    decreases bytes.len(),
{
    if bytes.len() > 0 {
        let rest = bytes.drop_first();
        let low = bytes.first() as nat;
        lemma_write_of_read(rest);
        lemma_fundamental_div_mod_converse(
            le_nat(bytes) as int,
            256,
            le_nat(rest) as int,
            low as int,
        );
        assert(le_bytes(le_nat(bytes), bytes.len()) =~= seq![bytes.first()] + rest);
        assert(seq![bytes.first()] + rest =~= bytes);
    } else {
        assert(le_bytes(le_nat(bytes), bytes.len()) =~= bytes);
    }
}

/// Writing a number out in enough bytes and reading it again gives the number back.
pub proof fn lemma_read_of_write(n: nat, len: nat)
    requires
        n < pow(256, len),
    ensures
        le_nat(le_bytes(n, len)) == n,
    decreases len,
{
    if len == 0 {
        lemma_pow0(256);
    } else {
        let rest = le_bytes(n / 256, (len - 1) as nat);
        assert(pow(256, len) == 256 * pow(256, (len - 1) as nat)) by {
            reveal(pow);
        }
        lemma_read_of_write(n / 256, (len - 1) as nat);
        let bytes = le_bytes(n, len);
        assert(bytes.first() == (n % 256) as u8);
        assert(bytes.drop_first() =~= rest);
    }
}

/// A number read from `len` bytes is below `256^len`.
pub proof fn lemma_le_nat_bound(bytes: Seq<u8>)
    ensures
        le_nat(bytes) < pow(256, bytes.len()),
    decreases bytes.len(),
{
    if bytes.len() == 0 {
        lemma_pow0(256);
    } else {
        lemma_le_nat_bound(bytes.drop_first());
        assert(pow(256, bytes.len()) == 256 * pow(256, (bytes.len() - 1) as nat)) by {
            reveal(pow);
        }
    }
}

/// Byte strings of one length are told apart by the numbers that they write.
pub proof fn lemma_le_nat_injective(a: Seq<u8>, b: Seq<u8>)
    requires
        a.len() == b.len(),
        le_nat(a) == le_nat(b),
    ensures
        a == b,
{
    lemma_write_of_read(a);
    lemma_write_of_read(b);
}

/// `256^8` is the number of values of a `u64`.
pub proof fn lemma_pow_256_8()
    ensures
        pow(256, 8) == 0x1_0000_0000_0000_0000,
{
    reveal(pow);
    reveal_with_fuel(pow, 9);
}

/// The eight little-endian bytes of `x`.
pub fn u64_to_le_bytes(x: u64) -> (bytes: [u8; 8])
    ensures
        bytes@ == le_bytes(x as nat, 8),
{
    let bytes: [u8; 8] = [
        (x % 256) as u8,
        (x / 256 % 256) as u8,
        (x / 256 / 256 % 256) as u8,
        (x / 256 / 256 / 256 % 256) as u8,
        (x / 256 / 256 / 256 / 256 % 256) as u8,
        (x / 256 / 256 / 256 / 256 / 256 % 256) as u8,
        (x / 256 / 256 / 256 / 256 / 256 / 256 % 256) as u8,
        (x / 256 / 256 / 256 / 256 / 256 / 256 / 256 % 256) as u8,
    ];
    proof {
        reveal_with_fuel(le_bytes, 9);
        assert(bytes@ =~= le_bytes(x as nat, 8));
    }
    bytes
}

/// The number that eight little-endian bytes write.
pub fn u64_from_le_bytes(bytes: &[u8; 8]) -> (x: u64)
    ensures
        x == le_nat(bytes@),
{
    let mut x: u64 = 0;
    let mut i: usize = 8;
    proof {
        assert(bytes@.skip(8) =~= Seq::empty());
    }
    while i > 0
        invariant
            i <= 8,
            x == le_nat(bytes@.skip(i as int)),
        decreases i,
    {
        proof {
            let tail = bytes@.skip(i - 1);
            assert(tail.drop_first() =~= bytes@.skip(i as int));
            assert(tail.first() == bytes@[i - 1]);
            lemma_le_nat_bound(tail);
            lemma_pow_increases(256, tail.len(), 8);
            lemma_pow_256_8();
        }
        i = i - 1;
        x = bytes[i] as u64 + 256 * x;
    }
    proof {
        assert(bytes@.skip(0) =~= bytes@);
    }
    x
}

/// The `N` bytes of `bytes` that begin at `start`.
pub fn array_at<const N: usize>(bytes: &[u8], start: usize) -> (out: [u8; N])
    requires
        start + N <= bytes@.len(),
    ensures
        out@ == bytes@.subrange(start as int, start + N),
{
    let mut out: [u8; N] = [0u8; N];
    let mut i: usize = 0;
    while i < N
        invariant
            i <= N,
            start + N <= bytes.len(),
            forall|j: int| 0 <= j < i ==> out@[j] == bytes@[start + j],
        decreases N - i,
    {
        out[i] = bytes[start + i];
        i = i + 1;
    }
    proof {
        assert(out@ =~= bytes@.subrange(start as int, start + N));
    }
    out
}

/// Copies `piece` into `out`, beginning at `start`.
pub fn copy_at<const N: usize>(out: &mut [u8; N], start: usize, piece: &[u8])
    requires
        start + piece@.len() <= N,
    ensures
        forall|j: int|
            0 <= j < N ==> #[trigger] final(out)@[j] == if start <= j < start + piece@.len() {
                piece@[j - start]
            } else {
                old(out)@[j]
            },
{
    let mut i: usize = 0;
    while i < piece.len()
        invariant
            i <= piece.len(),
            start + piece@.len() <= N,
            forall|j: int|
                0 <= j < N ==> #[trigger] out@[j] == if start <= j < start + i {
                    piece@[j - start]
                } else {
                    old(out)@[j]
                },
        decreases piece.len() - i,
    {
        out[start + i] = piece[i];
        i = i + 1;
    }
}

/// Appends a copy of `tail` to `bytes`.
pub fn extend(bytes: &mut Vec<u8>, tail: &[u8])
    ensures
        final(bytes)@ == old(bytes)@ + tail@,
{
    bytes.extend_from_slice(tail);
    proof {
        assert(bytes@ =~= old(bytes)@ + tail@);
    }
}

/// No bytes write zero, and a byte appended to others adds itself times the next power of 256.
pub proof fn lemma_le_nat_push(bytes: Seq<u8>, b: u8)
    ensures
        le_nat(Seq::<u8>::empty()) == 0,
        le_nat(bytes.push(b)) == le_nat(bytes) + b * pow(256, bytes.len()),
    decreases bytes.len(),
{
    let whole = bytes.push(b);
    if bytes.len() == 0 {
        lemma_pow0(256);
        assert(whole.drop_first() =~= Seq::<u8>::empty());
        assert(le_nat(whole.drop_first()) == 0);
    } else {
        let rest = bytes.drop_first();
        let p = pow(256, rest.len());
        lemma_le_nat_push(rest, b);
        assert(whole.drop_first() =~= rest.push(b));
        assert(pow(256, bytes.len()) == 256 * p) by {
            reveal(pow);
        }
        assert(256 * (le_nat(rest) + b * p) == 256 * le_nat(rest) + b * (256 * p))
            by (nonlinear_arith);
    }
}

/// The byte at a place is the digit, in base 256, that belongs to the place.
pub proof fn lemma_le_bytes_digit(n: nat, len: nat, i: nat)
    requires
        i < len,
    ensures
        le_bytes(n, len).len() == len,
        le_bytes(n, len)[i as int] == (n as int / pow(256, i)) % 256,
    decreases len,
{
    lemma_le_bytes_len(n, len);
    if i == 0 {
        lemma_pow0(256);
    } else {
        let j = (i - 1) as nat;
        let rest = le_bytes(n / 256, (len - 1) as nat);
        lemma_le_bytes_digit(n / 256, (len - 1) as nat, j);
        assert(le_bytes(n, len)[i as int] == rest[j as int]);
        lemma_pow_positive(256, j);
        lemma_div_denominator(n as int, 256, pow(256, j));
        assert(pow(256, i) == 256 * pow(256, j)) by {
            reveal(pow);
        }
    }
}

} // verus!
