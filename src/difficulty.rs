//! Turning a difficulty (a count of leading zero bits) into the kernel's
//! `check_difficulty` function, and splicing it into the kernel source.
use vstd::prelude::*;
use vstd::string::*;
use crate::text::{decimal, push_decimal};

verus! {

/// Bytes in a digest.
pub const DIGEST_BYTES: u32 = 32;

/// Bits in a digest: the largest difficulty a kernel can check.
pub const DIGEST_BITS: u32 = 256;

/// One conjunct of the predicate: byte `index` of the digest, shifted right
/// by `shift` bits, must be zero. A shift of zero asks for a whole zero byte.
pub ghost struct ByteCheck {
    pub index: nat,
    pub shift: nat,
}

/// The conjuncts for `bits` leading zero bits: one whole zero byte for each
/// eight bits, then, for a remainder `r`, the byte after them shifted right
/// by `8 - r`.
pub open spec fn difficulty_checks(bits: nat) -> Seq<ByteCheck> {
    let full = bits / 8;
    let whole = Seq::new(full, |i: int| ByteCheck { index: i as nat, shift: 0 });
    if bits % 8 > 0 {
        whole.push(ByteCheck { index: full, shift: (8 - bits % 8) as nat })
    } else {
        whole
    }
}

/// What the conjuncts demand of a digest, one byte per element.
pub open spec fn checks_hold(checks: Seq<ByteCheck>, digest: Seq<u8>) -> bool {
    forall|k: int|
        0 <= k < checks.len() ==> checks[k].index < digest.len() && digest[checks[k].index as int]
            >> (checks[k].shift as u8) == 0
}

/// The predicate that the generated kernel function evaluates.
pub open spec fn meets_difficulty(digest: Seq<u8>, bits: nat) -> bool {
    checks_hold(difficulty_checks(bits), digest)
}

/// The kernel text of one conjunct.
pub open spec fn check_text(c: ByteCheck) -> Seq<char> {
    if c.shift == 0 {
        "buf["@ + decimal(c.index) + "] == 0u"@
    } else {
        "(buf["@ + decimal(c.index) + "] >> "@ + decimal(c.shift) + "u) == 0u"@
    }
}

/// The conjuncts joined by ` && `.
pub open spec fn joined_checks(cs: Seq<ByteCheck>) -> Seq<char>
    decreases cs.len(),
{
    if cs.len() == 0 {
        Seq::empty()
    } else if cs.len() == 1 {
        check_text(cs[0])
    } else {
        joined_checks(cs.drop_last()) + " && "@ + check_text(cs.last())
    }
}

/// The returned expression: `true` when nothing is asked.
pub open spec fn condition_text(bits: nat) -> Seq<char> {
    if difficulty_checks(bits).len() == 0 {
        "true"@
    } else {
        joined_checks(difficulty_checks(bits))
    }
}

/// The text before the condition.
pub open spec fn function_head() -> Seq<char> {
    "\nfn check_difficulty(buf: ptr<function, array<u32, SHA256_BLOCK_SIZE>>) -> bool {\n    return "@
}

/// The text after the condition.
pub open spec fn function_tail() -> Seq<char> {
    ";\n}\n"@
}

/// The whole generated `check_difficulty` function.
pub open spec fn check_difficulty_text(bits: nat) -> Seq<char> {
    function_head() + condition_text(bits) + function_tail()
}

/// What follows the first line of `s` (empty when `s` has a single line).
pub open spec fn after_first_line(s: Seq<char>) -> Seq<char> {
    if exists|i: int| 0 <= i < s.len() && s[i] == '\n' {
        let i = choose|i: int|
            0 <= i < s.len() && s[i] == '\n' && forall|j: int| 0 <= j < i ==> s[j] != '\n';
        s.subrange(i + 1, s.len() as int)
    } else {
        Seq::empty()
    }
}

/// The kernel source for a difficulty: the template with its first line,
/// a placeholder, replaced by the generated `check_difficulty` function.
pub open spec fn kernel_source(template: Seq<char>, bits: nat) -> Seq<char> {
    check_difficulty_text(bits) + after_first_line(template)
}

/// Appends the kernel text of the conjunct at `index` with `shift` to `out`.
fn push_check(out: &mut String, index: u32, shift: u32)
    ensures
        final(out)@ == old(out)@ + check_text(ByteCheck { index: index as nat, shift: shift as nat }),
{
    if shift == 0 {
        out.append("buf[");
        push_decimal(out, index as u64);
        out.append("] == 0u");
    } else {
        out.append("(buf[");
        push_decimal(out, index as u64);
        out.append("] >> ");
        push_decimal(out, shift as u64);
        out.append("u) == 0u");
    }
    proof {
        let c = ByteCheck { index: index as nat, shift: shift as nat };
        if shift == 0 {
            assert(final(out)@ =~= old(out)@ + check_text(c));
        } else {
            assert(final(out)@ =~= old(out)@ + check_text(c));
        }
    }
}

/// Generates the kernel function `check_difficulty(buf)`, which is true when
/// the digest in `buf` (one byte per word) starts with `difficulty_bits`
/// zero bits.
pub fn generate_check_difficulty_wgsl(difficulty_bits: u32) -> (r: String)
    requires
        difficulty_bits <= DIGEST_BITS,
    ensures
        r@ == check_difficulty_text(difficulty_bits as nat),
        forall|k: int|
            0 <= k < difficulty_checks(difficulty_bits as nat).len() ==> difficulty_checks(
                difficulty_bits as nat,
            )[k].index < DIGEST_BYTES,
{
    let ghost checks = difficulty_checks(difficulty_bits as nat);
    let full_bytes: u32 = difficulty_bits / 8;
    let remaining_bits: u32 = difficulty_bits % 8;
    let mut cond = String::new();
    let mut i: u32 = 0;
    while i < full_bytes
        invariant
            full_bytes == difficulty_bits / 8,
            i <= full_bytes,
            cond@ == joined_checks(checks.take(i as int)),
            checks == difficulty_checks(difficulty_bits as nat),
        decreases full_bytes - i,
    {
        let ghost before = cond@;
        if i > 0 {
            cond.append(" && ");
        }
        push_check(&mut cond, i, 0);
        proof {
            let t = checks.take(i as int + 1);
            assert(t.drop_last() =~= checks.take(i as int));
            assert(t.last() == ByteCheck { index: i as nat, shift: 0 });
            if i == 0 {
                assert(checks.take(0).len() == 0);
                assert(cond@ =~= joined_checks(t));
            } else {
                assert(cond@ =~= joined_checks(t));
            }
        }
        i = i + 1;
    }
    if remaining_bits > 0 {
        let shift: u32 = 8 - remaining_bits;
        if full_bytes > 0 {
            cond.append(" && ");
        }
        push_check(&mut cond, full_bytes, shift);
        proof {
            assert(checks.take(full_bytes as int + 1) =~= checks);
            let t = checks;
            assert(t.drop_last() =~= checks.take(full_bytes as int));
            assert(cond@ =~= joined_checks(t));
        }
    } else {
        proof {
            assert(checks.take(full_bytes as int) =~= checks);
        }
    }
    let mut out = String::new();
    out.append("\nfn check_difficulty(buf: ptr<function, array<u32, SHA256_BLOCK_SIZE>>) -> bool {\n    return ");
    if full_bytes == 0 && remaining_bits == 0 {
        out.append("true");
    } else {
        out.append(cond.as_str());
    }
    out.append(";\n}\n");
    proof {
        assert(out@ =~= check_difficulty_text(difficulty_bits as nat));
    }
    out
}

/// Bit `j` of a digest, counting from the most significant bit of byte 0.
pub open spec fn digest_bit(digest: Seq<u8>, j: nat) -> u8 {
    (digest[(j / 8) as int] >> ((7 - j % 8) as u8)) & 1u8
}

/// The first `bits` bits of the digest are zero.
pub open spec fn has_leading_zero_bits(digest: Seq<u8>, bits: nat) -> bool {
    forall|j: nat| j < bits ==> #[trigger] digest_bit(digest, j) == 0
}

proof fn lemma_shift_step(x: u8, t: u8)
    requires
        t < 8,
    ensures
        (x >> t) == 0 <==> ((x >> ((t + 1) as u8)) == 0 && ((x >> t) & 1u8) == 0),
{
    assert((x >> t) == 0 <==> ((x >> ((t + 1) as u8)) == 0 && ((x >> t) & 1u8) == 0))
        by (bit_vector)
        requires
            t < 8,
    ;
}

/// A byte shifted right by `8 - r` is zero exactly when its top `r` bits are.
proof fn lemma_top_bits_zero(x: u8, r: nat)
    requires
        r <= 8,
    ensures
        (x >> ((8 - r) as u8)) == 0 <==> forall|k: nat| k < r ==> #[trigger] ((x >> ((7 - k) as u8))
            & 1u8) == 0,
    decreases r,
{
    if r == 0 {
        assert((x >> 8u8) == 0) by (bit_vector);
    } else {
        let r1 = (r - 1) as nat;
        lemma_top_bits_zero(x, r1);
        let t = (8 - r) as u8;
        lemma_shift_step(x, t);
        assert((t + 1) as u8 == (8 - r1) as u8);
        assert(t == (7 - r1) as u8);
        if (x >> ((8 - r) as u8)) == 0 {
            assert forall|k: nat| k < r implies #[trigger] ((x >> ((7 - k) as u8)) & 1u8) == 0 by {
                if k == r1 {
                } else {
                    assert(k < r1);
                }
            }
        }
        if forall|k: nat| k < r ==> #[trigger] ((x >> ((7 - k) as u8)) & 1u8) == 0 {
            assert(((x >> ((7 - r1) as u8)) & 1u8) == 0);
            assert forall|k: nat| k < r1 implies #[trigger] ((x >> ((7 - k) as u8)) & 1u8) == 0 by {
                assert(k < r);
            }
        }
    }
}

/// The generated predicate holds of a digest exactly when the digest's first
/// `bits` bits are zero.
pub proof fn lemma_meets_difficulty_iff_leading_zeros(digest: Seq<u8>, bits: nat)
    requires
        bits <= 8 * digest.len(),
    ensures
        meets_difficulty(digest, bits) <==> has_leading_zero_bits(digest, bits),
{
    let checks = difficulty_checks(bits);
    let full = bits / 8;
    let r = bits % 8;
    if meets_difficulty(digest, bits) {
        assert forall|j: nat| j < bits implies #[trigger] digest_bit(digest, j) == 0 by {
            let i = j / 8;
            let k = j % 8;
            if i < full {
                assert(checks[i as int] == ByteCheck { index: i, shift: 0 });
                lemma_top_bits_zero(digest[i as int], 8);
                assert(((digest[i as int] >> ((7 - k) as u8)) & 1u8) == 0);
            } else {
                assert(i == full && k < r);
                assert(checks[full as int] == ByteCheck { index: full, shift: (8 - r) as nat });
                lemma_top_bits_zero(digest[i as int], r);
                assert(((digest[i as int] >> ((7 - k) as u8)) & 1u8) == 0);
            }
        }
    }
    if has_leading_zero_bits(digest, bits) {
        assert forall|c: int| 0 <= c < checks.len() implies checks[c].index < digest.len()
            && digest[checks[c].index as int] >> (checks[c].shift as u8) == 0 by {
            if c < full {
                assert(checks[c] == ByteCheck { index: c as nat, shift: 0 });
                assert forall|k: nat| k < 8 implies #[trigger] ((digest[c] >> ((7 - k) as u8))
                    & 1u8) == 0 by {
                    let j = (8 * c + k) as nat;
                    assert(j / 8 == c && j % 8 == k);
                    assert(digest_bit(digest, j) == 0);
                }
                lemma_top_bits_zero(digest[c], 8);
            } else {
                assert(c == full && r > 0);
                assert(checks[c] == ByteCheck { index: full, shift: (8 - r) as nat });
                assert forall|k: nat| k < r implies #[trigger] ((digest[c] >> ((7 - k) as u8))
                    & 1u8) == 0 by {
                    let j = (8 * c + k) as nat;
                    assert(j / 8 == c && j % 8 == k);
                    assert(digest_bit(digest, j) == 0);
                }
                lemma_top_bits_zero(digest[c], r);
            }
        }
    }
}

/// With no difficulty every digest passes; with eight bits, exactly those
/// whose first byte is zero; with twelve, those whose first byte and the high
/// nibble of the second byte are zero.
pub proof fn lemma_difficulty_examples(digest: Seq<u8>)
    requires
        digest.len() == DIGEST_BYTES,
    ensures
        meets_difficulty(digest, 0),
        meets_difficulty(digest, 8) <==> digest[0] == 0,
        meets_difficulty(digest, 12) <==> (digest[0] == 0 && digest[1] & 0xf0u8 == 0),
{
    let a = digest[0];
    let b = digest[1];
    assert(a >> 0u8 == a) by (bit_vector);
    assert(b >> 4u8 == 0 <==> b & 0xf0u8 == 0) by (bit_vector);
    assert(difficulty_checks(0).len() == 0);
    let c8 = difficulty_checks(8);
    assert(c8.len() == 1 && c8[0] == ByteCheck { index: 0, shift: 0 });
    let c12 = difficulty_checks(12);
    assert(c12.len() == 2);
    assert(c12[0] == ByteCheck { index: 0, shift: 0 });
    assert(c12[1] == ByteCheck { index: 1, shift: 4 });
    if meets_difficulty(digest, 12) {
        assert(digest[c12[0].index as int] >> (c12[0].shift as u8) == 0);
        assert(digest[c12[1].index as int] >> (c12[1].shift as u8) == 0);
    }
    if a == 0 && b & 0xf0u8 == 0 {
        assert(checks_hold(c12, digest)) by {
            assert forall|k: int| 0 <= k < c12.len() implies c12[k].index < digest.len()
                && digest[c12[k].index as int] >> (c12[k].shift as u8) == 0 by {
                if k == 1 {
                    assert(c12[k] == ByteCheck { index: 1, shift: 4 });
                } else {
                    assert(c12[k] == ByteCheck { index: 0, shift: 0 });
                }
            }
        }
    }
    if meets_difficulty(digest, 8) {
        assert(digest[c8[0].index as int] >> (c8[0].shift as u8) == 0);
    }
    if a == 0 {
        assert(checks_hold(c8, digest)) by {
            assert forall|k: int| 0 <= k < c8.len() implies c8[k].index < digest.len()
                && digest[c8[k].index as int] >> (c8[k].shift as u8) == 0 by {
                assert(c8[k] == ByteCheck { index: 0, shift: 0 });
            }
        }
    }
}

/// The kernel source for `difficulty_bits`: `template` with its first line,
/// a placeholder, replaced by the generated `check_difficulty` function.
pub fn wgsl_source(template: &str, difficulty_bits: u32) -> (r: String)
    requires
        difficulty_bits <= DIGEST_BITS,
    ensures
        r@ == kernel_source(template@, difficulty_bits as nat),
{
    let ghost s = template@;
    let len: usize = template.unicode_len();
    let mut i: usize = 0;
    let mut found = false;
    while !found && i < len
        invariant
            s == template@,
            len == s.len(),
            i <= len,
            found ==> i < len && s[i as int] == '\n',
            forall|j: int| 0 <= j < i ==> s[j] != '\n',
        decreases len - i + (if found { 0usize } else { 1usize }),
    {
        if template.get_char(i) == '\n' {
            found = true;
        } else {
            i = i + 1;
        }
    }
    let mut out = generate_check_difficulty_wgsl(difficulty_bits);
    if found {
        let rest = template.substring_char(i + 1, len);
        out.append(rest);
        proof {
            let k = choose|k: int|
                0 <= k < s.len() && s[k] == '\n' && forall|j: int| 0 <= j < k ==> s[j] != '\n';
            assert(0 <= i < s.len() && s[i as int] == '\n' && forall|j: int|
                0 <= j < i ==> s[j] != '\n');
            assert(k == i);
        }
    } else {
        proof {
            assert(!exists|k: int| 0 <= k < s.len() && s[k] == '\n');
            assert(out@ =~= kernel_source(s, difficulty_bits as nat));
        }
    }
    out
}

} // verus!
