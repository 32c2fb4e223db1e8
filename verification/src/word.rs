//! The mathematical model shared by every chip: bit sequences read as
//! unsigned numbers, index 0 least significant, and the word-wide
//! operations stated over them.

use vstd::arithmetic::power2::{
    lemma2_to64, lemma_pow2_pos, lemma_pow2_strictly_increases, lemma_pow2_unfold, pow2,
};
use vstd::prelude::*;

verus! {

/// The numeric weight of a single signal.
pub open spec fn bit(b: bool) -> nat {
    if b {
        1
    } else {
        0
    }
}

/// Unsigned value of a bit sequence whose index 0 is the least significant
/// position: the sum of `2^i` over every index `i` that holds `true`.
pub open spec fn bits_value(bits: Seq<bool>) -> nat
    decreases bits.len(),
{
    if bits.len() == 0 {
        0
    } else {
        bits_value(bits.drop_last()) + if bits.last() {
            pow2((bits.len() - 1) as nat)
        } else {
            0
        }
    }
}

/// The `len`-bit sequence that represents `n` modulo `2^len`.
pub open spec fn bits_of(n: nat, len: nat) -> Seq<bool> {
    Seq::new(len, |i: int| (n / pow2(i as nat)) % 2 == 1)
}

/// The 16-bit word that represents `n` modulo 65536.
pub open spec fn word_of(n: nat) -> Seq<bool> {
    bits_of(n, 16)
}

/// The all-false word.
pub open spec fn word_zero() -> Seq<bool> {
    Seq::new(16, |i: int| false)
}

/// Element-wise complement.
pub open spec fn word_not(a: Seq<bool>) -> Seq<bool> {
    Seq::new(a.len(), |i: int| !a[i])
}

/// Element-wise conjunction.
pub open spec fn word_and(a: Seq<bool>, b: Seq<bool>) -> Seq<bool> {
    Seq::new(a.len(), |i: int| a[i] && b[i])
}

/// Element-wise disjunction.
pub open spec fn word_or(a: Seq<bool>, b: Seq<bool>) -> Seq<bool> {
    Seq::new(a.len(), |i: int| a[i] || b[i])
}

/// Two-way selection between whole words: `a` when `sel` is low, `b` when high.
pub open spec fn word_mux(a: Seq<bool>, b: Seq<bool>, sel: bool) -> Seq<bool> {
    if sel {
        b
    } else {
        a
    }
}

/// Sum of two words modulo 65536.
pub open spec fn word_add(a: Seq<bool>, b: Seq<bool>) -> Seq<bool> {
    word_of(bits_value(a) + bits_value(b))
}

/// Appending one signal on the high side adds its weight.
pub proof fn lemma_bits_value_push(bits: Seq<bool>, b: bool)
    ensures
        bits_value(bits.push(b)) == bits_value(bits) + if b {
            pow2(bits.len())
        } else {
            0
        },
{
    assert(bits.push(b).drop_last() =~= bits);
}

/// A sequence of `n` signals is worth less than `2^n`.
pub proof fn lemma_bits_value_bound(bits: Seq<bool>)
    ensures
        bits_value(bits) < pow2(bits.len()),
    decreases bits.len(),
{
    if bits.len() == 0 {
        lemma2_to64();
    } else {
        lemma_bits_value_bound(bits.drop_last());
        lemma_pow2_unfold(bits.len());
    }
}

/// The value of a sequence splits at any position into the value of the low
/// part plus `2^k` times the value of the high part.
pub proof fn lemma_bits_value_split(bits: Seq<bool>, k: int)
    requires
        0 <= k <= bits.len(),
    ensures
        bits_value(bits) == bits_value(bits.subrange(0, k)) + pow2(k as nat) * bits_value(
            bits.subrange(k, bits.len() as int),
        ),
    decreases bits.len(),
{
    let n = bits.len() as int;
    let lo = bits.subrange(0, k);
    let hi = bits.subrange(k, n);
    if k == n {
        assert(lo =~= bits);
        assert(hi.len() == 0);
        assert(pow2(k as nat) * bits_value(hi) == 0) by (nonlinear_arith)
            requires
                bits_value(hi) == 0,
        ;
    } else {
        let front = bits.drop_last();
        lemma_bits_value_split(front, k);
        assert(front.subrange(0, k) =~= lo);
        assert(front.subrange(k, n - 1) =~= hi.drop_last());
        assert(hi.last() == bits.last());
        let p = pow2(k as nat);
        let q = pow2((n - 1 - k) as nat);
        let h = bits_value(hi.drop_last());
        assert(pow2((n - 1) as nat) == p * q) by {
            vstd::arithmetic::power2::lemma_pow2_adds(k as nat, (n - 1 - k) as nat);
        }
        assert(hi.len() - 1 == n - 1 - k);
        if bits.last() {
            assert(bits_value(hi) == h + q);
            assert(p * (h + q) == p * h + p * q) by (nonlinear_arith);
        } else {
            assert(bits_value(hi) == h);
        }
    }
}

/// Signal `i` of a sequence is bit `i` of its value.
pub proof fn lemma_bits_value_digit(bits: Seq<bool>, i: int)
    requires
        0 <= i < bits.len(),
    ensures
        bits[i] == ((bits_value(bits) / pow2(i as nat)) % 2 == 1),
{
    let n = bits.len() as int;
    let lo = bits.subrange(0, i);
    let hi = bits.subrange(i, n);
    let rest = hi.subrange(1, hi.len() as int);
    lemma_bits_value_split(bits, i);
    lemma_bits_value_split(hi, 1);
    lemma_bits_value_bound(lo);
    lemma_pow2_pos(i as nat);
    lemma2_to64();
    let one = hi.subrange(0, 1);
    assert(bits_value(one.drop_last()) == 0);
    assert(one.last() == bits[i]);
    assert(bits_value(one) == bit(bits[i]));
    let p = pow2(i as nat) as int;
    let l = bits_value(lo) as int;
    let h = bits_value(hi) as int;
    let r = bits_value(rest) as int;
    let d = bit(bits[i]) as int;
    assert(h == d + 2 * r);
    assert(bits_value(bits) == l + p * h);
    assert(h * p + l == l + p * h) by (nonlinear_arith);
    vstd::arithmetic::div_mod::lemma_fundamental_div_mod_converse(
        bits_value(bits) as int,
        p,
        h,
        l,
    );
    assert(bits_value(bits) as int / p == h);
    assert(h % 2 == d) by (nonlinear_arith)
        requires
            h == d + 2 * r,
            0 <= d <= 1,
    ;
}

/// Two sequences of the same length with the same value are the same sequence.
pub proof fn lemma_bits_value_injective(a: Seq<bool>, b: Seq<bool>)
    requires
        a.len() == b.len(),
        bits_value(a) == bits_value(b),
    ensures
        a == b,
{
    assert forall|i: int| 0 <= i < a.len() implies a[i] == b[i] by {
        lemma_bits_value_digit(a, i);
        lemma_bits_value_digit(b, i);
    }
    assert(a =~= b);
}

/// Writing a number out in `len` bits and reading it back keeps it modulo `2^len`.
pub proof fn lemma_bits_of_value(n: nat, len: nat)
    ensures
        bits_of(n, len).len() == len,
        bits_value(bits_of(n, len)) == n % pow2(len),
    decreases len,
{
    lemma2_to64();
    if len == 0 {
    } else {
        let m = (len - 1) as nat;
        let s = bits_of(n, len);
        lemma_bits_of_value(n, m);
        assert(s.drop_last() =~= bits_of(n, m));
        lemma_pow2_unfold(len);
        lemma_pow2_pos(m);
        let p = pow2(m) as int;
        let x = n as int;
        let q = x / p;
        let r = x % p;
        assert(s.last() == (q % 2 == 1));
        vstd::arithmetic::div_mod::lemma_fundamental_div_mod(x, p);
        assert(0 <= r < p) by {
            vstd::arithmetic::div_mod::lemma_mod_bound(x, p);
        }
        let top = if q % 2 == 1 {
            p
        } else {
            0
        };
        assert(x == (q / 2) * (2 * p) + (top + r)) by (nonlinear_arith)
            requires
                x == p * q + r,
                top == p * (q % 2),
                q == 2 * (q / 2) + q % 2,
        ;
        vstd::arithmetic::div_mod::lemma_fundamental_div_mod_converse(x, 2 * p, q / 2, top + r);
    }
}

/// Reading a sequence and writing its value back out at the same length
/// returns the sequence.
pub proof fn lemma_bits_of_bits_value(bits: Seq<bool>)
    ensures
        bits_of(bits_value(bits), bits.len()) == bits,
{
    let s = bits_of(bits_value(bits), bits.len());
    assert forall|i: int| 0 <= i < bits.len() implies s[i] == bits[i] by {
        lemma_bits_value_digit(bits, i);
    }
    assert(s =~= bits);
}

/// The value of a 16-bit word written out for a number is that number modulo 65536.
pub proof fn lemma_word_of_value(n: nat)
    ensures
        word_of(n).len() == 16,
        bits_value(word_of(n)) == n % 0x10000,
{
    lemma_bits_of_value(n, 16);
    lemma2_to64();
}

/// The all-false word is worth zero, and is the word written out for zero.
pub proof fn lemma_word_zero()
    ensures
        bits_value(word_zero()) == 0,
        word_zero() == word_of(0),
{
    lemma2_to64();
    assert forall|i: int| 0 <= i < 16 implies word_of(0)[i] == false by {
        lemma_pow2_pos(i as nat);
        assert((0nat / pow2(i as nat)) == 0) by (nonlinear_arith)
            requires
                pow2(i as nat) > 0,
        ;
    }
    assert(word_zero() =~= word_of(0));
    lemma_word_of_value(0);
}

/// The word written out for one has its lowest signal high and every other
/// signal low.
pub proof fn lemma_word_of_one()
    ensures
        word_of(1) == Seq::new(16, |i: int| i == 0),
{
    assert forall|i: int| 0 <= i < 16 implies word_of(1)[i] == (i == 0) by {
        let p = pow2(i as nat);
        assert(word_of(1)[i] == ((1nat / p) % 2 == 1));
        if i == 0 {
            lemma2_to64();
            assert(p == 1);
            assert(1nat / p == 1) by (nonlinear_arith)
                requires
                    p == 1,
            ;
        } else {
            lemma2_to64();
            lemma_pow2_strictly_increases(0, i as nat);
            assert(p > 1);
            assert(1nat / p == 0) by (nonlinear_arith)
                requires
                    p > 1,
            ;
        }
    }
    assert(word_of(1) =~= Seq::new(16, |i: int| i == 0));
}

/// The value of a short sequence, written out position by position.
pub proof fn lemma_bits_value_small(bits: Seq<bool>)
    ensures
        bits.len() == 1 ==> bits_value(bits) == bit(bits[0]),
        bits.len() == 2 ==> bits_value(bits) == bit(bits[0]) + 2 * bit(bits[1]),
        bits.len() == 3 ==> bits_value(bits) == bit(bits[0]) + 2 * bit(bits[1]) + 4 * bit(
            bits[2],
        ),
{
    lemma2_to64();
    if bits.len() == 1 {
        assert(bits_value(bits.drop_last()) == 0);
    } else if bits.len() == 2 {
        let one = bits.drop_last();
        assert(bits_value(one.drop_last()) == 0);
        assert(one.last() == bits[0]);
        assert(bits_value(one) == bit(bits[0]));
    } else if bits.len() == 3 {
        let two = bits.drop_last();
        let one = two.drop_last();
        assert(bits_value(one.drop_last()) == 0);
        assert(one.last() == bits[0]);
        assert(bits_value(one) == bit(bits[0]));
        assert(two.last() == bits[1]);
        assert(bits_value(two) == bit(bits[0]) + 2 * bit(bits[1]));
    }
}

} // verus!
