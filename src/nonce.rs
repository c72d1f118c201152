//! The search's base input: a fixed-width little-endian counter.
use vstd::prelude::*;

verus! {

/// Width of the base input in bytes.
pub const NONCE_BYTES: usize = 32;

/// `256^n`.
pub open spec fn pow256(n: nat) -> nat
    decreases n,
{
    if n == 0 {
        1
    } else {
        256 * pow256((n - 1) as nat)
    }
}

/// The unsigned integer that `b` holds, least significant byte first.
pub open spec fn le_value(b: Seq<u8>) -> nat
    decreases b.len(),
{
    if b.len() == 0 {
        0
    } else {
        b[0] as nat + 256 * le_value(b.drop_first())
    }
}

/// The `len` low bytes of `v`, least significant first (`v mod 256^len`).
pub open spec fn le_bytes(v: nat, len: nat) -> Seq<u8>
    decreases len,
{
    if len == 0 {
        Seq::empty()
    } else {
        seq![(v % 256) as u8] + le_bytes(v / 256, (len - 1) as nat)
    }
}

/// The counter `b` after adding `k`, wrapping at its width.
pub open spec fn nonce_after(b: Seq<u8>, k: nat) -> Seq<u8> {
    le_bytes(le_value(b) + k, b.len())
}

pub proof fn lemma_pow256_positive(n: nat)
    ensures
        pow256(n) > 0,
    decreases n,
{
    if n > 0 {
        lemma_pow256_positive((n - 1) as nat);
    }
}

pub proof fn lemma_le_value_bound(b: Seq<u8>)
    ensures
        le_value(b) < pow256(b.len()),
    decreases b.len(),
{
    if b.len() > 0 {
        lemma_le_value_bound(b.drop_first());
        let r = le_value(b.drop_first());
        assert(r + 1 <= pow256(b.drop_first().len()));
        assert(256 * (r + 1) <= 256 * pow256(b.drop_first().len())) by (nonlinear_arith)
            requires
                r + 1 <= pow256(b.drop_first().len()),
        ;
    }
}

/// Splitting a counter at byte `i`: the low part plus `256^i` times the high part.
pub proof fn lemma_le_value_split(b: Seq<u8>, i: nat)
    requires
        i <= b.len(),
    ensures
        le_value(b) == le_value(b.subrange(0, i as int)) + pow256(i) * le_value(
            b.subrange(i as int, b.len() as int),
        ),
    decreases i,
{
    if i > 0 {
        let t = b.drop_first();
        lemma_le_value_split(t, (i - 1) as nat);
        assert(b.subrange(0, i as int).drop_first() =~= t.subrange(0, i - 1));
        assert(t.subrange(i - 1, t.len() as int) =~= b.subrange(i as int, b.len() as int));
        let lo = le_value(t.subrange(0, i - 1));
        let hi = le_value(b.subrange(i as int, b.len() as int));
        let p = pow256((i - 1) as nat);
        assert(b.subrange(0, i as int)[0] == b[0]);
        assert(le_value(b) == b[0] as nat + 256 * le_value(t));
        assert(le_value(b.subrange(0, i as int)) == b[0] as nat + 256 * lo);
        assert(pow256(i) == 256 * p);
        assert(256 * (lo + p * hi) == 256 * lo + (256 * p) * hi) by (nonlinear_arith);
    } else {
        assert(b.subrange(0, 0) =~= Seq::<u8>::empty());
        assert(le_value(b.subrange(0, 0)) == 0);
        assert(pow256(0) == 1);
        assert(b.subrange(0, b.len() as int) =~= b);
    }
}

/// Extending a prefix by one byte adds that byte times `256^i`.
pub proof fn lemma_le_value_prefix_step(b: Seq<u8>, i: nat)
    requires
        i < b.len(),
    ensures
        le_value(b.subrange(0, i as int + 1)) == le_value(b.subrange(0, i as int)) + pow256(i)
            * (b[i as int] as nat),
{
    let t = b.subrange(0, i as int + 1);
    lemma_le_value_split(t, i);
    assert(t.subrange(0, i as int) =~= b.subrange(0, i as int));
    let last = t.subrange(i as int, t.len() as int);
    assert(last.drop_first() =~= Seq::<u8>::empty());
    assert(last[0] == b[i as int]);
    assert(le_value(last.drop_first()) == 0);
    assert(le_value(last) == b[i as int] as nat);
}

/// `le_bytes` keeps exactly the value modulo `256^len`.
pub proof fn lemma_le_bytes_value(v: nat, len: nat)
    ensures
        le_bytes(v, len).len() == len,
        le_value(le_bytes(v, len)) == v % pow256(len),
    decreases len,
{
    if len > 0 {
        let l1 = (len - 1) as nat;
        lemma_le_bytes_value(v / 256, l1);
        let s = le_bytes(v, len);
        assert(s.drop_first() =~= le_bytes(v / 256, l1));
        lemma_pow256_positive(l1);
        let p = pow256(l1);
        let q = v / 256;
        let r = v % 256;
        assert(v == 256 * q + r);
        assert(r + 256 * (q % p) == v % (256 * p)) by (nonlinear_arith)
            requires
                v == 256 * q + r,
                0 <= r < 256,
                p > 0,
        {
            let qq = q / p;
            let qr = q % p;
            assert(q == p * qq + qr);
            assert(v == (256 * p) * qq + (r + 256 * qr));
            assert(0 <= r + 256 * qr < 256 * p);
            vstd::arithmetic::div_mod::lemma_fundamental_div_mod_converse(
                v as int,
                (256 * p) as int,
                qq as int,
                (r + 256 * qr) as int,
            );
        }
    }
}

/// Two byte strings of one length that hold the same value are equal.
pub proof fn lemma_le_value_injective(a: Seq<u8>, b: Seq<u8>)
    requires
        a.len() == b.len(),
        le_value(a) == le_value(b),
    ensures
        a == b,
    decreases a.len(),
{
    if a.len() > 0 {
        let ra = le_value(a.drop_first());
        let rb = le_value(b.drop_first());
        let x = a[0] as nat;
        let y = b[0] as nat;
        assert(x == y && ra == rb) by (nonlinear_arith)
            requires
                x + 256 * ra == y + 256 * rb,
                x < 256,
                y < 256,
        ;
        lemma_le_value_injective(a.drop_first(), b.drop_first());
        assert(a =~= seq![a[0]] + a.drop_first());
        assert(b =~= seq![b[0]] + b.drop_first());
    } else {
        assert(a =~= b);
    }
}

/// `b` is the byte form of its own value.
pub proof fn lemma_le_bytes_of_value(b: Seq<u8>)
    ensures
        le_bytes(le_value(b), b.len()) == b,
{
    lemma_le_bytes_value(le_value(b), b.len());
    lemma_le_value_bound(b);
    vstd::arithmetic::div_mod::lemma_small_mod(le_value(b), pow256(b.len()));
    lemma_le_value_injective(le_bytes(le_value(b), b.len()), b);
}

/// Adding `k1` and then `k2` to a counter leaves the same bytes as adding
/// `k1 + k2` at once: both wrap at the counter's width.
pub proof fn lemma_add_twice(b: Seq<u8>, k1: nat, k2: nat)
    ensures
        nonce_after(nonce_after(b, k1), k2) == nonce_after(b, k1 + k2),
{
    let l = b.len();
    let m = pow256(l);
    let once = nonce_after(b, k1);
    lemma_pow256_positive(l);
    lemma_le_bytes_value(le_value(b) + k1, l);
    lemma_le_bytes_value(le_value(once) + k2, l);
    lemma_le_bytes_value(le_value(b) + k1 + k2, l);
    let a: int = (le_value(b) + k1) as int;
    let r: int = a % (m as int);
    vstd::arithmetic::div_mod::lemma_add_mod_noop(a, k2 as int, m as int);
    vstd::arithmetic::div_mod::lemma_add_mod_noop(r, k2 as int, m as int);
    vstd::arithmetic::div_mod::lemma_mod_twice(a, m as int);
    assert((r + k2) % (m as int) == (a + k2) % (m as int));
    lemma_le_value_injective(nonce_after(once, k2), nonce_after(b, k1 + k2));
}

/// Adding `n` to the counter, carrying byte by byte from the low end and
/// dropping what overflows past the last byte.
pub fn add_big_int(data: &mut [u8; 32], n: u32)
    ensures
        final(data)@ == nonce_after(old(data)@, n as nat),
{
    let ghost orig = data@;
    let mut carry: u64 = n as u64;
    let mut i: usize = 0;
    proof {
        assert(data@.subrange(0, 0) =~= orig.subrange(0, 0));
        assert(le_value(orig.subrange(0, 0)) == 0);
        assert(pow256(0) == 1);
    }
    while i < NONCE_BYTES && carry != 0
        invariant
            i <= NONCE_BYTES,
            data@.len() == NONCE_BYTES,
            orig.len() == NONCE_BYTES,
            carry <= u32::MAX,
            forall|j: int| i <= j < NONCE_BYTES ==> data@[j] == orig[j],
            le_value(data@.subrange(0, i as int)) + carry * pow256(i as nat) == le_value(
                orig.subrange(0, i as int),
            ) + n,
        decreases NONCE_BYTES - i,
    {
        let sum: u64 = data[i] as u64 + carry;
        let low: u8 = (sum % 256) as u8;
        let ghost before = data@;
        data[i] = low;
        let next: u64 = sum / 256;
        proof {
            lemma_le_value_prefix_step(data@, i as nat);
            lemma_le_value_prefix_step(orig, i as nat);
            assert(data@.subrange(0, i as int) =~= before.subrange(0, i as int));
            let p = pow256(i as nat);
            let s = sum as nat;
            let c = carry as nat;
            let o = orig[i as int] as nat;
            assert(before[i as int] == orig[i as int]);
            assert(s == o + c);
            assert(data@[i as int] as nat == s % 256);
            assert(next as nat == s / 256);
            assert(s == (s % 256) + 256 * (s / 256));
            assert(p * (s % 256) + (s / 256) * (256 * p) == p * o + c * p) by (nonlinear_arith)
                requires
                    s == (s % 256) + 256 * (s / 256),
                    s == o + c,
            ;
            assert(pow256((i + 1) as nat) == 256 * p);
            assert(le_value(data@.subrange(0, i as int + 1)) == le_value(
                before.subrange(0, i as int),
            ) + p * (s % 256));
        }
        carry = next;
        i = i + 1;
    }
    proof {
        let fin = data@;
        let lo = fin.subrange(0, i as int);
        lemma_le_value_split(fin, i as nat);
        lemma_le_value_split(orig, i as nat);
        assert(fin.subrange(i as int, NONCE_BYTES as int) =~= orig.subrange(
            i as int,
            NONCE_BYTES as int,
        ));
        let m = pow256(NONCE_BYTES as nat);
        lemma_le_bytes_value((le_value(orig) + n) as nat, NONCE_BYTES as nat);
        lemma_le_value_bound(fin);
        if carry == 0 {
            // the value grew by exactly `n` and still fits
            assert(le_value(fin) == le_value(orig) + n);
            vstd::arithmetic::div_mod::lemma_small_mod(le_value(fin), m);
        } else {
            // every byte was visited; the final carry is the dropped overflow
            assert(i == NONCE_BYTES);
            assert(lo =~= fin);
            assert(orig.subrange(0, i as int) =~= orig);
            lemma_pow256_positive(NONCE_BYTES as nat);
            vstd::arithmetic::div_mod::lemma_fundamental_div_mod_converse(
                (le_value(orig) + n) as int,
                m as int,
                carry as int,
                le_value(fin) as int,
            );
        }
        lemma_le_value_injective(fin, le_bytes((le_value(orig) + n) as nat, NONCE_BYTES as nat));
    }
}

} // verus!
