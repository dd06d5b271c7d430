//! The bytes of a buffer of machine words, least significant byte first, as
//! the memory of a little-endian machine lays them out, and the packing of a
//! byte image into such words.

use vstd::prelude::*;

use vstd::arithmetic::power::pow;

verus! {

/// The number of bytes in a machine word.
pub open spec fn word_bytes() -> int {
    vstd::layout::size_of::<usize>() as int
}

/// Byte `k` of a word's value, least significant first.
pub open spec fn byte_of(w: nat, k: nat) -> u8 {
    ((w / (pow(256, k) as nat)) % 256) as u8
}

/// The bytes of a buffer of words in memory order: byte `b` is byte
/// `b % W` of word `b / W`, least significant first.
pub open spec fn bytes_of_words(words: Seq<usize>) -> Seq<u8> {
    Seq::new(
        (words.len() * word_bytes()) as nat,
        |b: int| byte_of(words[b / word_bytes()] as nat, (b % word_bytes()) as nat),
    )
}

/// The value of a little-endian byte string.
pub open spec fn le_value(s: Seq<u8>) -> nat
    decreases s.len(),
{
    if s.len() == 0 {
        0
    } else {
        s[0] as nat + 256 * le_value(s.drop_first())
    }
}

pub proof fn lemma_word_bytes()
    ensures
        word_bytes() == 4 || word_bytes() == 8,
        pow(256, word_bytes() as nat) == usize::MAX + 1,
{
    broadcast use vstd::layout::layout_of_primitives;

    assert(usize::BITS == 32 || usize::BITS == 64);
    vstd::layout::unsigned_int_max_values();
}

proof fn lemma_pow256_step(k: nat)
    ensures
        pow(256, k) > 0,
        pow(256, k + 1) == 256 * pow(256, k),
{
    vstd::arithmetic::power::lemma_pow_positive(256, k);
    assert(pow(256, k + 1) == 256 * pow(256, k)) by {
        reveal(pow);
    }
}

proof fn lemma_le_value_bound(s: Seq<u8>)
    ensures
        le_value(s) < pow(256, s.len()),
    decreases s.len(),
{
    if s.len() == 0 {
        reveal(pow);
    } else {
        let t = s.drop_first();
        lemma_le_value_bound(t);
        lemma_pow256_step(t.len());
        assert(s.len() == t.len() + 1);
        assert(le_value(s) == s[0] as nat + 256 * le_value(t));
        assert(le_value(s) < pow(256, s.len())) by (nonlinear_arith)
            requires
                le_value(s) == s[0] as nat + 256 * le_value(t),
                s[0] < 256,
                le_value(t) < pow(256, t.len()),
                pow(256, s.len()) == 256 * pow(256, t.len()),
        ;
    }
}

/// Law: byte `k` of the value of a little-endian byte string is the
/// string's byte `k`.
pub proof fn lemma_byte_of_le_value(s: Seq<u8>, k: nat)
    requires
        k < s.len(),
    ensures
        byte_of(le_value(s), k) == s[k as int],
    decreases k,
{
    let t = s.drop_first();
    let v = le_value(s);
    let r = le_value(t);
    assert(v == s[0] as nat + 256 * r);
    vstd::arithmetic::div_mod::lemma_fundamental_div_mod_converse(v as int, 256, r as int, s[0] as int);
    if k == 0 {
        assert(pow(256, 0) == 1) by {
            reveal(pow);
        }
        assert(v / 1 == v);
    } else {
        lemma_byte_of_le_value(t, (k - 1) as nat);
        let p = pow(256, (k - 1) as nat);
        lemma_pow256_step((k - 1) as nat);
        assert(pow(256, k) == 256 * p);
        vstd::arithmetic::div_mod::lemma_div_denominator(v as int, 256, p);
        assert(v as int / (256 * p) == (v as int / 256) / p);
        assert(v / (pow(256, k) as nat) == r / (p as nat));
    }
}

/// A word whose value is the little-endian value of `bytes[start..start + W]`.
pub fn pack_word(bytes: &Vec<u8>, start: usize) -> (w: usize)
    requires
        start + word_bytes() <= bytes@.len(),
    ensures
        w == le_value(bytes@.subrange(start as int, start + word_bytes())),
{
    proof {
        lemma_word_bytes();
    }
    let n = core::mem::size_of::<usize>();
    let len = bytes.len();
    let mut k: usize = n;
    let mut acc: usize = 0;
    proof {
        assert(pow(256, 0) == 1) by {
            reveal(pow);
        }
        assert(bytes@.subrange(start + n, start + n) =~= Seq::<u8>::empty());
    }
    while k > 0
        invariant
            n == word_bytes(),
            len == bytes@.len(),
            pow(256, n as nat) == usize::MAX + 1,
            start + n <= bytes@.len(),
            k <= n,
            acc == le_value(bytes@.subrange(start + k, start + n)),
            acc < pow(256, (n - k) as nat),
        decreases k,
    {
        let ghost before = bytes@.subrange(start + k, start + n);
        let ghost after = bytes@.subrange(start + k - 1, start + n);
        proof {
            assert(after.drop_first() =~= before);
            assert(after[0] == bytes@[start + k - 1]);
            lemma_pow256_step((n - k) as nat);
            vstd::arithmetic::power::lemma_pow_increases(256, (n - k + 1) as nat, n as nat);
            assert(acc * 256 + bytes@[start + k - 1] < pow(256, (n - k + 1) as nat)) by (nonlinear_arith)
                requires
                    acc < pow(256, (n - k) as nat),
                    bytes@[start + k - 1] < 256,
                    pow(256, (n - k + 1) as nat) == 256 * pow(256, (n - k) as nat),
            ;
        }
        acc = acc * 256 + bytes[start + k - 1] as usize;
        k = k - 1;
        proof {
            assert(acc == le_value(after));
        }
    }
    acc
}

/// The words whose bytes, in memory order, are `bytes`.
pub fn words_from_bytes(bytes: &Vec<u8>) -> (r: Vec<usize>)
    requires
        (bytes@.len() as int) % word_bytes() == 0,
    ensures
        r@.len() * word_bytes() == bytes@.len(),
        bytes_of_words(r@) == bytes@,
{
    proof {
        lemma_word_bytes();
    }
    let n = core::mem::size_of::<usize>();
    let len = bytes.len();
    let count = len / n;
    proof {
        vstd::arithmetic::div_mod::lemma_fundamental_div_mod(bytes@.len() as int, n as int);
    }
    let mut r: Vec<usize> = Vec::new();
    let mut i: usize = 0;
    while i < count
        invariant
            n == word_bytes(),
            len == bytes@.len(),
            count * n == bytes@.len(),
            i <= count,
            r@.len() == i,
            forall|j: int|
                0 <= j < i ==> #[trigger] r@[j] == le_value(bytes@.subrange(j * n, j * n + n)),
        decreases count - i,
    {
        proof {
            assert(i * n + n <= count * n) by (nonlinear_arith)
                requires
                    i < count,
                    n > 0,
            ;
        }
        let w = pack_word(bytes, i * n);
        r.push(w);
        i = i + 1;
    }
    proof {
        assert(r@.len() * word_bytes() == bytes@.len());
        assert forall|b: int| 0 <= b < bytes@.len() implies #[trigger] bytes_of_words(r@)[b]
            == bytes@[b] by {
            let j = b / (n as int);
            let k = b % (n as int);
            vstd::arithmetic::div_mod::lemma_fundamental_div_mod(b, n as int);
            assert(0 <= k < n);
            assert(0 <= j < count) by (nonlinear_arith)
                requires
                    b == n * j + k,
                    0 <= b < count * n,
                    0 <= k < n,
                    n > 0,
            ;
            assert(j * n + n <= count * n) by (nonlinear_arith)
                requires
                    j < count,
                    n > 0,
            ;
            let s = bytes@.subrange(j * n, j * n + n);
            assert(r@[j] == le_value(s));
            lemma_byte_of_le_value(s, k as nat);
            assert(s[k] == bytes@[j * n + k]);
            assert(j * n + k == b) by (nonlinear_arith)
                requires
                    b == n * j + k,
            ;
        }
        assert(bytes_of_words(r@) =~= bytes@);
    }
    r
}

} // verus!
