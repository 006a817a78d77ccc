//! Index arithmetic shared by the tree protocol: powers of two, base-two
//! logarithms, and the bit-reversal permutation that aligns FFT output with
//! the recursive tree's natural array slicing.

use vstd::prelude::*;
use vstd::arithmetic::power2::{pow2, lemma_pow2_adds, lemma_pow2_pos, lemma_pow2_unfold, lemma_pow2_strictly_increases, lemma2_to64, lemma2_to64_rest};
use vstd::arithmetic::div_mod::{lemma_div_denominator, lemma_mod_bound, lemma_small_mod, lemma_multiply_divide_lt};

verus! {

/// Base-two logarithm, rounded down.
pub open spec fn log2_spec(n: nat) -> nat
    decreases n,
{
    if n <= 1 {
        0
    } else {
        1 + log2_spec(n / 2)
    }
}

/// The number `n` is an exact power of two.
pub open spec fn is_pow2(n: nat) -> bool {
    n == pow2(log2_spec(n))
}

/// The index of the sibling node: the same position with the lowest bit
/// flipped.
pub open spec fn sibling_index(i: nat) -> nat {
    if i % 2 == 0 {
        i + 1
    } else {
        (i - 1) as nat
    }
}

/// The reversal of the low `l` bits of `n` (higher bits are discarded).
pub open spec fn bitrev_spec(n: nat, l: nat) -> nat
    decreases l,
{
    if l == 0 {
        0
    } else {
        bitrev_spec(n / 2, (l - 1) as nat) + (n % 2) * pow2((l - 1) as nat)
    }
}

/// A reversal of `l` bits is below `pow2(l)`.
pub proof fn lemma_bitrev_bound(n: nat, l: nat)
    ensures
        bitrev_spec(n, l) < pow2(l),
    decreases l,
{
    if l == 0 {
        assert(pow2(0) == 1) by {
            lemma2_to64();
        }
    } else {
        lemma_bitrev_bound(n / 2, (l - 1) as nat);
        lemma_pow2_unfold(l);
        assert((n % 2) * pow2((l - 1) as nat) <= pow2((l - 1) as nat)) by (nonlinear_arith)
            requires n % 2 <= 1;
    }
}

/// Extending a reversal by one more bit appends bit `l` of `n` at the low
/// end of the reversed value.
pub proof fn lemma_bitrev_step(n: nat, l: nat)
    ensures
        bitrev_spec(n, l + 1) == 2 * bitrev_spec(n, l) + (n / pow2(l)) % 2,
    decreases l,
{
    if l == 0 {
        assert(pow2(0) == 1) by {
            lemma2_to64();
        }
        assert(bitrev_spec(n, 1) == bitrev_spec(n / 2, 0) + (n % 2) * pow2(0));
        assert(bitrev_spec(n, l + 1) == 2 * bitrev_spec(n, l) + (n / pow2(l)) % 2);
    } else {
        let b1 = bitrev_spec(n / 2, (l - 1) as nat);
        let p = pow2((l - 1) as nat);
        let bit = n % 2;
        lemma_bitrev_step(n / 2, (l - 1) as nat);
        lemma_pow2_unfold(l);
        vstd::arithmetic::power2::lemma_pow2_pos((l - 1) as nat);
        assert(pow2(l) == 2 * p);
        lemma_div_denominator(n as int, 2, p as int);
        assert((n / 2) / p == n / pow2(l));
        assert(bitrev_spec(n, l + 1) == bitrev_spec(n / 2, l) + bit * pow2(l));
        assert(bitrev_spec(n / 2, l) == 2 * b1 + ((n / 2) / p) % 2);
        assert(bitrev_spec(n, l) == b1 + bit * p);
        assert(bit * pow2(l) == 2 * (bit * p)) by (nonlinear_arith)
            requires
                pow2(l) == 2 * p,
        ;
        assert(2 * bitrev_spec(n, l) == 2 * b1 + 2 * (bit * p));
        assert(bitrev_spec(n, l + 1) == 2 * b1 + (n / pow2(l)) % 2 + 2 * (bit * p));
        assert(bitrev_spec(n, l + 1) == 2 * bitrev_spec(n, l) + (n / pow2(l)) % 2);
    }
}

/// Computes `pow2(k)`.
pub fn pow2_usize(k: usize) -> (r: usize)
    requires
        pow2(k as nat) <= usize::MAX,
    ensures
        r == pow2(k as nat),
{
    let mut r: usize = 1;
    let mut i: usize = 0;
    proof {
        lemma2_to64();
    }
    while i < k
        invariant
            i <= k,
            r == pow2(i as nat),
            pow2(k as nat) <= usize::MAX,
        decreases k - i,
    {
        proof {
            lemma_pow2_unfold(i as nat + 1);
            if i + 1 <= k && i as nat + 1 < k as nat {
                lemma_pow2_strictly_increases(i as nat + 1, k as nat);
            }
        }
        r = r * 2;
        i = i + 1;
    }
    r
}

/// Computes the base-two logarithm of `n`, rounded down.
pub fn log2_usize(n: usize) -> (r: usize)
    requires
        n >= 1,
    ensures
        r == log2_spec(n as nat),
        pow2(r as nat) <= n,
{
    let mut m: usize = n;
    let mut r: usize = 0;
    proof {
        lemma2_to64();
    }
    while m > 1
        invariant
            m >= 1,
            log2_spec(n as nat) == r + log2_spec(m as nat),
            pow2(r as nat) * m <= n,
        decreases m,
    {
        proof {
            lemma_pow2_unfold(r as nat + 1);
            assert(pow2(r as nat + 1) * (m / 2) <= pow2(r as nat) * m) by (nonlinear_arith)
                requires
                    pow2(r as nat + 1) == 2 * pow2(r as nat),
                    m >= 1,
            ;
            assert(r + 1 <= 64) by {
                if r + 1 > 64 {
                    lemma2_to64_rest();
                    lemma_pow2_strictly_increases(64, r as nat + 1);
                    assert(pow2(r as nat) * m >= pow2(r as nat)) by (nonlinear_arith)
                        requires m >= 1, pow2(r as nat) > 0;
                    lemma_pow2_strictly_increases(64, r as nat);
                }
            }
        }
        m = m / 2;
        r = r + 1;
    }
    proof {
        assert(pow2(r as nat) * 1 == pow2(r as nat)) by (nonlinear_arith);
    }
    r
}

/// Reverses the low `l` bits of `n`, discarding the rest: the tree protocol
/// enumerates leaves in bit-reversed order so that halving an index range
/// splits a subtree.
pub fn bitreverse(n: usize, l: usize) -> (r: usize)
    requires
        l <= 32,
    ensures
        r == bitrev_spec(n as nat, l as nat),
        r < pow2(l as nat),
{
    let mut r: usize = 0;
    let mut m: usize = n;
    let mut i: usize = 0;
    proof {
        lemma2_to64();
    }
    while i < l
        invariant
            i <= l <= 32,
            m == n as nat / pow2(i as nat),
            r == bitrev_spec(n as nat, i as nat),
            r < pow2(i as nat),
        decreases l - i,
    {
        proof {
            lemma_bitrev_step(n as nat, i as nat);
            lemma_pow2_unfold(i as nat + 1);
            vstd::arithmetic::power2::lemma_pow2_pos(i as nat);
            lemma_div_denominator(n as int, pow2(i as nat) as int, 2);
            if i as nat + 1 < 32 {
                lemma_pow2_strictly_increases(i as nat + 1, 32);
            }
            assert(pow2(32) == 0x100000000) by {
                lemma2_to64();
                lemma2_to64_rest();
            }
            assert(r * 2 + 1 < pow2(i as nat + 1));
        }
        r = r * 2 + (m % 2);
        m = m / 2;
        i = i + 1;
    }
    r
}

/// The base-two logarithm inverts exponentiation.
pub proof fn lemma_log2_pow2(k: nat)
    ensures
        log2_spec(pow2(k)) == k,
    decreases k,
{
    if k == 0 {
        assert(pow2(0) == 1) by {
            lemma2_to64();
        }
    } else {
        lemma_log2_pow2((k - 1) as nat);
        lemma_pow2_unfold(k);
        vstd::arithmetic::power2::lemma_pow2_pos((k - 1) as nat);
        assert(pow2(k) / 2 == pow2((k - 1) as nat));
        assert(pow2(k) > 1);
    }
}

/// Applies the bit-reversal permutation in place: entry `i` of the result is
/// entry `bitrev(i)` of the input.
pub fn index_reverse<T: Copy>(v: &mut Vec<T>)
    requires
        is_pow2(old(v)@.len()),
        old(v)@.len() >= 1,
        log2_spec(old(v)@.len()) <= 32,
    ensures
        final(v)@.len() == old(v)@.len(),
        forall|i: int|
            0 <= i < old(v)@.len() ==> final(v)@[i] == old(v)@[bitrev_spec(
                i as nat,
                log2_spec(old(v)@.len()),
            ) as int],
{
    let n = v.len();
    let depth = log2_usize(n);
    let ghost l = log2_spec(n as nat);
    let mut out: Vec<T> = Vec::new();
    let mut i: usize = 0;
    while i < n
        invariant
            i <= n,
            n == v@.len(),
            n == pow2(l),
            depth == l,
            l <= 32,
            out@.len() == i,
            forall|j: int| 0 <= j < i ==> out@[j] == v@[bitrev_spec(j as nat, l) as int],
        decreases n - i,
    {
        let ri = bitreverse(i, depth);
        out.push(v[ri]);
        i = i + 1;
    }
    *v = out;
}

/// High bits beyond the reversed width do not affect the reversal.
pub proof fn lemma_bitrev_mod(n: nat, l: nat)
    ensures
        bitrev_spec(n, l) == bitrev_spec(n % pow2(l), l),
    decreases l,
{
    if l == 0 {
        assert(pow2(0) == 1) by {
            lemma2_to64();
        }
        assert(n % pow2(0) == 0);
        assert(bitrev_spec(n, 0) == 0);
        assert(bitrev_spec((n % pow2(0)) as nat, 0) == 0);
    } else {
        lemma_pow2_unfold(l);
        lemma_pow2_pos((l - 1) as nat);
        lemma_bitrev_mod(n / 2, (l - 1) as nat);
        let m = n % pow2(l);
        vstd::arithmetic::div_mod::lemma_breakdown(n as int, 2, pow2((l - 1) as nat) as int);
        assert(m == 2 * ((n / 2) % pow2((l - 1) as nat)) + n % 2);
        assert(m % 2 == n % 2 && m / 2 == (n / 2) % pow2((l - 1) as nat)) by (nonlinear_arith)
            requires
                m == 2 * ((n / 2) % pow2((l - 1) as nat)) + n % 2,
                n % 2 < 2,
                n % 2 >= 0,
                (n / 2) % pow2((l - 1) as nat) >= 0,
        ;
        lemma_bitrev_mod(m / 2, (l - 1) as nat);
        assert((n / 2) % pow2((l - 1) as nat) % pow2((l - 1) as nat) == (n / 2) % pow2(
            (l - 1) as nat,
        )) by {
            lemma_mod_bound((n / 2) as int, pow2((l - 1) as nat) as int);
            lemma_small_mod((n / 2) % pow2((l - 1) as nat), pow2((l - 1) as nat));
        }
        assert(bitrev_spec(n, l) == bitrev_spec(n / 2, (l - 1) as nat) + (n % 2) * pow2(
            (l - 1) as nat,
        ));
        assert(bitrev_spec(m, l) == bitrev_spec(m / 2, (l - 1) as nat) + (m % 2) * pow2(
            (l - 1) as nat,
        ));
        assert(bitrev_spec(m / 2, (l - 1) as nat) == bitrev_spec(n / 2, (l - 1) as nat));
        assert(bitrev_spec(n, l) == bitrev_spec(m, l));
    }
}

/// Reversing twice restores every value below `pow2(l)`.
pub proof fn lemma_bitrev_involution(n: nat, l: nat)
    requires
        n < pow2(l),
    ensures
        bitrev_spec(bitrev_spec(n, l), l) == n,
    decreases l,
{
    if l == 0 {
        assert(pow2(0) == 1) by {
            lemma2_to64();
        }
    } else {
        let lp = (l - 1) as nat;
        lemma_pow2_unfold(l);
        lemma_pow2_pos(lp);
        let m = bitrev_spec(n, l);
        // m = bitrev(n/2, l-1) + (n%2) * pow2(l-1)
        let b1 = bitrev_spec(n / 2, lp);
        lemma_bitrev_bound(n / 2, lp);
        // Step: bitrev(m, l) == 2 * bitrev(m, l-1) + (m / pow2(l-1)) % 2.
        lemma_bitrev_step(m, lp);
        // Top bit of m is n % 2.
        assert(m / pow2(lp) == n % 2 && m % pow2(lp) == b1) by (nonlinear_arith)
            requires
                m == b1 + (n % 2) * pow2(lp),
                b1 < pow2(lp),
                pow2(lp) > 0,
                n % 2 < 2,
        ;
        assert((n % 2) % 2 == n % 2);
        // Low bits: bitrev(m, l-1) only sees m % pow2(l-1) == b1.
        lemma_bitrev_mod(m, lp);
        assert(b1 % pow2(lp) == b1) by {
            lemma_small_mod(b1, pow2(lp));
        }
        lemma_bitrev_mod(b1, lp);
        // Induction: bitrev(b1, l-1) == n / 2.
        assert(n / 2 < pow2(lp)) by (nonlinear_arith)
            requires
                n < pow2(l),
                pow2(l) == 2 * pow2(lp),
        ;
        lemma_bitrev_involution(n / 2, lp);
        assert(bitrev_spec(m, l) == 2 * (n / 2) + n % 2);
    }
}

/// The low `lo` bits of `n` exchanged with the next `hi` bits; everything
/// above is discarded.  Viewing an array of `2^(lo+hi)` entries as a
/// matrix, this permutation transposes it.
pub open spec fn swap_bits_spec(n: nat, lo: nat, hi: nat) -> nat {
    (n % pow2(lo)) * pow2(hi) + (n / pow2(lo)) % pow2(hi)
}

/// Swapping back with the widths exchanged restores the low `lo + hi` bits.
pub proof fn lemma_swap_bits_inverse(n: nat, lo: nat, hi: nat)
    requires
        n < pow2(lo + hi),
    ensures
        swap_bits_spec(swap_bits_spec(n, lo, hi), hi, lo) == n,
{
    lemma_pow2_pos(lo);
    lemma_pow2_pos(hi);
    lemma_pow2_adds(lo, hi);
    let low = n % pow2(lo);
    let next = (n / pow2(lo)) % pow2(hi);
    let r = low * pow2(hi) + next;
    assert(low < pow2(lo) && next < pow2(hi)) by {
        lemma_mod_bound(n as int, pow2(lo) as int);
        lemma_mod_bound((n / pow2(lo)) as int, pow2(hi) as int);
    }
    assert(r % pow2(hi) == next && r / pow2(hi) == low) by (nonlinear_arith)
        requires
            r == low * pow2(hi) + next,
            next < pow2(hi),
            pow2(hi) > 0,
    ;
    assert(n / pow2(lo) < pow2(hi)) by {
        lemma_multiply_divide_lt(n as int, pow2(lo) as int, pow2(hi) as int);
    }
    assert((n / pow2(lo)) % pow2(hi) == n / pow2(lo)) by {
        lemma_small_mod(n / pow2(lo), pow2(hi));
    }
    assert(low % pow2(lo) == low) by {
        lemma_small_mod(low, pow2(lo));
    }
    assert(swap_bits_spec(r, hi, lo) == next * pow2(lo) + low);
    assert(next * pow2(lo) + low == n) by (nonlinear_arith)
        requires
            next == n / pow2(lo),
            low == n % pow2(lo),
            pow2(lo) > 0,
    ;
}

/// Exchanges the low `lo` bits with the next `hi` bits of `n`, clearing the
/// rest: the index permutation that transposes a row-major matrix of
/// `2^hi` rows by `2^lo` columns.
pub fn swap_bits(n: usize, lo: usize, hi: usize) -> (r: usize)
    requires
        pow2(lo as nat + hi as nat) <= usize::MAX,
    ensures
        r == swap_bits_spec(n as nat, lo as nat, hi as nat),
        r < pow2(lo as nat + hi as nat),
{
    proof {
        lemma_pow2_pos(lo as nat);
        lemma_pow2_pos(hi as nat);
        lemma_pow2_adds(lo as nat, hi as nat);
        assert(pow2(lo as nat) <= pow2(lo as nat + hi as nat) && pow2(hi as nat) <= pow2(
            lo as nat + hi as nat,
        )) by (nonlinear_arith)
            requires
                pow2(lo as nat + hi as nat) == pow2(lo as nat) * pow2(hi as nat),
                pow2(lo as nat) >= 1,
                pow2(hi as nat) >= 1,
        ;
    }
    let plo = pow2_usize(lo);
    let phi = pow2_usize(hi);
    let lowest = n % plo;
    let next = (n / plo) % phi;
    proof {
        lemma_mod_bound(n as int, plo as int);
        lemma_mod_bound((n / plo) as int, phi as int);
        assert(lowest * phi + next < plo * phi) by (nonlinear_arith)
            requires
                lowest < plo,
                next < phi,
                phi > 0,
        ;
    }
    lowest * phi + next
}

/// Reinterprets a row-major `2^log_current` by `2^log_next` matrix as its
/// transpose in place: entry `i` of the result is the entry whose low and
/// next index fields are exchanged.
pub fn change_matrix_direction<T: Copy>(input: &mut Vec<T>, log_current: usize, log_next: usize)
    requires
        old(input)@.len() == pow2(log_current as nat + log_next as nat),
        log_current + log_next <= 32,
    ensures
        final (input)@.len() == old(input)@.len(),
        forall|i: int|
            0 <= i < old(input)@.len() ==> final (input)@[i] == old(input)@[swap_bits_spec(
                i as nat,
                log_next as nat,
                log_current as nat,
            ) as int],
{
    let n = input.len();
    proof {
        lemma_pow2_adds(log_next as nat, log_current as nat);
        lemma_pow2_adds(log_current as nat, log_next as nat);
        lemma2_to64();
        if log_current + log_next < 32 {
            lemma_pow2_strictly_increases((log_current + log_next) as nat, 32);
        }
        assert(pow2(32) == 0x100000000) by {
            lemma2_to64();
            lemma2_to64_rest();
        }
    }
    let mut out: Vec<T> = Vec::new();
    let mut i: usize = 0;
    while i < n
        invariant
            i <= n,
            n == input@.len(),
            n == pow2(log_next as nat + log_current as nat),
            pow2(log_next as nat + log_current as nat) <= usize::MAX,
            out@.len() == i,
            forall|j: int|
                0 <= j < i ==> out@[j] == input@[swap_bits_spec(
                    j as nat,
                    log_next as nat,
                    log_current as nat,
                ) as int],
        decreases n - i,
    {
        let ri = swap_bits(i, log_next, log_current);
        out.push(input[ri]);
        i = i + 1;
    }
    *input = out;
}

/// The bit-reversal permutation as a sequence transform: entry `i` of the
/// result is entry `bitrev(i)` of the input.
pub open spec fn irev_seq<T>(s: Seq<T>) -> Seq<T> {
    Seq::new(s.len(), |i: int| s[bitrev_spec(i as nat, log2_spec(s.len())) as int])
}

/// The matrix transposition as a sequence transform, matching
/// `change_matrix_direction` called with `(log_current, log_next)`.
pub open spec fn cmd_spec<T>(s: Seq<T>, log_current: nat, log_next: nat) -> Seq<T> {
    Seq::new(s.len(), |i: int| s[swap_bits_spec(i as nat, log_next, log_current) as int])
}

} // verus!
