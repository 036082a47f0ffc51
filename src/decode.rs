use vstd::prelude::*;

use crate::specification::PacketFieldSpec;
use crate::specification_file::PacketTemplateFieldPart;

verus! {

/// Ten to the power `n`.
pub open spec fn pow10(n: nat) -> int
    decreases n,
{
    if n == 0 {
        1
    } else {
        10 * pow10((n - 1) as nat)
    }
}

/// Powers of ten are positive, each ten times the one before.
pub proof fn lemma_pow10_positive(n: nat)
    ensures
        pow10(n) >= 1,
        pow10(n + 1) == 10 * pow10(n),
    decreases n,
{
    if n > 0 {
        lemma_pow10_positive((n - 1) as nat);
    }
}

/// The value a part reads from byte `b`: the byte (sign-extended where the
/// part is signed), masked unless the mask is `0xFF`, then shifted right.
pub open spec fn part_value(part: PacketTemplateFieldPart, b: u8) -> i64 {
    let v: i64 = if part.is_signed {
        b as i8 as i64
    } else {
        b as i64
    };
    let v: i64 = if part.mask != 0xFF {
        v & (part.mask as i64)
    } else {
        v
    };
    if part.bit_pos > 0 {
        v.wrapping_shr(part.bit_pos as u32)
    } else {
        v
    }
}

/// The part reads a byte of a buffer of length `len`.
pub open spec fn part_in_range(part: PacketTemplateFieldPart, len: int) -> bool {
    0 <= part.offset < len
}

/// What a part adds to the raw value.
pub open spec fn part_contribution(part: PacketTemplateFieldPart, b: u8) -> i64 {
    part_value(part, b).wrapping_mul(part.factor)
}

/// The sum (in 64-bit two's complement) of the contributions of the parts
/// that read a byte of `buf`.
pub open spec fn raw_sum(parts: Seq<PacketTemplateFieldPart>, buf: Seq<u8>) -> i64
    decreases parts.len(),
{
    if parts.len() == 0 {
        0
    } else {
        let acc = raw_sum(parts.drop_last(), buf);
        let p = parts.last();
        if part_in_range(p, buf.len() as int) {
            acc.wrapping_add(part_contribution(p, buf[p.offset as int]))
        } else {
            acc
        }
    }
}

/// Some part reads a byte of a buffer of length `len`.
pub open spec fn any_part_in_range(parts: Seq<PacketTemplateFieldPart>, len: int) -> bool {
    exists|i: int| 0 <= i < parts.len() && part_in_range(#[trigger] parts[i], len)
}

/// The raw value of a field with these parts in `buf`: absent where no part
/// reads a byte of it.
pub open spec fn raw_value(parts: Seq<PacketTemplateFieldPart>, buf: Seq<u8>) -> Option<i64> {
    if any_part_in_range(parts, buf.len() as int) {
        Some(raw_sum(parts, buf))
    } else {
        None
    }
}

/// Ten to the power `n`, for every `n` whose power fits in an `i64`.
pub fn power_of_ten_i64(n: u32) -> (r: i64)
    requires
        n <= 18,
    ensures
        r == pow10(n as nat),
{
    proof {
        reveal_with_fuel(pow10, 10);
    }
    match n {
        0 => 1,
        1 => 10,
        2 => 100,
        3 => 1_000,
        4 => 10_000,
        5 => 100_000,
        6 => 1_000_000,
        7 => 10_000_000,
        8 => 100_000_000,
        9 => 1_000_000_000,
        _ => {
            let mut r: i64 = 1_000_000_000;
            let mut k: u32 = 9;
            while k < n
                invariant
                    9 <= k <= n <= 18,
                    r == pow10(k as nat),
                decreases n - k,
            {
                proof {
                    lemma_pow10_positive(k as nat);
                    lemma_pow10_bound((k + 1) as nat);
                }
                r = r * 10;
                k = k + 1;
            }
            r
        },
    }
}

/// Powers of ten grow with the exponent.
pub proof fn lemma_pow10_monotone(a: nat, b: nat)
    requires
        a <= b,
    ensures
        pow10(a) <= pow10(b),
    decreases b,
{
    if a < b {
        lemma_pow10_monotone(a, (b - 1) as nat);
        lemma_pow10_positive((b - 1) as nat);
    }
}

/// Ten to the power 18 or less fits in an `i64`.
pub proof fn lemma_pow10_bound(n: nat)
    requires
        n <= 18,
    ensures
        pow10(n) <= 1_000_000_000_000_000_000,
{
    reveal_with_fuel(pow10, 19);
    lemma_pow10_monotone(n, 18);
}

impl PacketFieldSpec {
    /// Reads the raw value of this field from `buf`.
    pub fn get_raw_value_i64(&self, buf: &[u8]) -> (r: Option<i64>)
        ensures
            r == raw_value(self.parts@, buf@),
    {
        let length = buf.len();
        let n = self.parts.len();
        let mut valid = false;
        let mut acc: i64 = 0;
        let mut i: usize = 0;
        while i < n
            invariant
                n == self.parts@.len(),
                length == buf@.len(),
                i <= n,
                acc == raw_sum(self.parts@.subrange(0, i as int), buf@),
                valid == any_part_in_range(self.parts@.subrange(0, i as int), length as int),
            decreases n - i,
        {
            let part = self.parts[i];
            let ghost pre = self.parts@.subrange(0, i as int);
            let ghost next = self.parts@.subrange(0, i + 1);
            proof {
                assert(next.drop_last() =~= pre);
                assert(next.last() == part);
            }
            if 0 <= part.offset && (part.offset as usize) < length {
                let b = buf[part.offset as usize];
                let mut v: i64 = if part.is_signed {
                    b as i8 as i64
                } else {
                    b as i64
                };
                if part.mask != 0xFF {
                    v = v & (part.mask as i64);
                }
                if part.bit_pos > 0 {
                    v = v.wrapping_shr(part.bit_pos as u32);
                }
                acc = acc.wrapping_add(v.wrapping_mul(part.factor));
                proof {
                    assert(part_in_range(next[i as int], length as int));
                }
                valid = true;
            } else {
                proof {
                    assert forall|j: int| 0 <= j < next.len() && part_in_range(#[trigger] next[j], length as int)
                        implies 0 <= j < pre.len() && part_in_range(pre[j], length as int) by {
                        assert(pre[j] == next[j]);
                    }
                }
            }
            proof {
                if valid && !any_part_in_range(pre, length as int) {
                    assert(part_in_range(next[i as int], length as int));
                }
                if any_part_in_range(pre, length as int) {
                    let j = choose|j: int| 0 <= j < pre.len() && part_in_range(#[trigger] pre[j], length as int);
                    assert(next[j] == pre[j]);
                }
            }
            i = i + 1;
        }
        proof {
            assert(self.parts@.subrange(0, n as int) =~= self.parts@);
        }
        if valid {
            Some(acc)
        } else {
            None
        }
    }
}


/// 256 to the power `k`.
pub open spec fn pow256(k: nat) -> int
    decreases k,
{
    if k == 0 {
        1
    } else {
        256 * pow256((k - 1) as nat)
    }
}

/// The first `n` bytes of `buf` read as a little-endian unsigned integer.
pub open spec fn le_value(buf: Seq<u8>, n: nat) -> int
    decreases n,
{
    if n == 0 {
        0
    } else {
        le_value(buf, (n - 1) as nat) + buf[n - 1] * pow256((n - 1) as nat)
    }
}

/// The parts that read bytes `0..n` unsigned, unmasked and unshifted, byte
/// `k` with factor `256^k`.
pub open spec fn le_parts(n: nat) -> Seq<PacketTemplateFieldPart> {
    Seq::new(
        n,
        |k: int|
            PacketTemplateFieldPart {
                offset: k as i32,
                bit_pos: 0,
                mask: 0xFF,
                is_signed: false,
                factor: pow256(k as nat) as i64,
            },
    )
}

/// Powers of 256 up to the sixth fit in 48 bits.
proof fn lemma_pow256_bounds(k: nat)
    requires
        k <= 6,
    ensures
        1 <= pow256(k) <= 0x1_0000_0000_0000,
    decreases k,
{
    reveal_with_fuel(pow256, 7);
    if k > 0 {
        lemma_pow256_bounds((k - 1) as nat);
    }
}

/// `n` little-endian bytes hold less than `256^n`.
proof fn lemma_le_value_bound(buf: Seq<u8>, n: nat)
    requires
        n <= buf.len(),
        n <= 7,
    ensures
        0 <= le_value(buf, n) < pow256(n),
    decreases n,
{
    if n > 0 {
        let k = (n - 1) as nat;
        lemma_le_value_bound(buf, k);
        lemma_pow256_bounds(k);
        let b = buf[k as int] as int;
        let p = pow256(k);
        assert(0 <= b * p <= 255 * p) by (nonlinear_arith)
            requires
                0 <= b <= 255,
                p >= 1,
        ;
    }
}

/// Parts that read bytes `0..n` (for `n` up to 7) with factors `256^k`, and
/// neither sign, mask nor shift, give the little-endian unsigned value of the
/// bytes that the buffer holds; no value where it holds none of them.
pub proof fn lemma_little_endian_round_trip(n: nat, buf: Seq<u8>)
    requires
        n <= 7,
    ensures
        raw_value(le_parts(n), buf) == if n > 0 && buf.len() > 0 {
            Some(le_value(buf, if n <= buf.len() { n } else { buf.len() }) as i64)
        } else {
            None
        },
        le_value(buf, if n <= buf.len() { n } else { buf.len() }) < 0x100_0000_0000_0000,
    decreases n,
{
    let m = if n <= buf.len() { n } else { buf.len() };
    lemma_round_trip_sum(n, buf);
    if n > 0 && buf.len() > 0 {
        assert(part_in_range(le_parts(n)[0], buf.len() as int));
    } else {
        assert forall|i: int| 0 <= i < le_parts(n).len() implies !part_in_range(#[trigger] le_parts(n)[i], buf.len() as int) by {}
    }
}

/// The sum of the little-endian parts is the little-endian value, by
/// induction on the number of parts.
proof fn lemma_round_trip_sum(n: nat, buf: Seq<u8>)
    requires
        n <= 7,
    ensures
        raw_sum(le_parts(n), buf) as int == le_value(buf, if n <= buf.len() { n } else { buf.len() }),
        le_value(buf, if n <= buf.len() { n } else { buf.len() }) < 0x100_0000_0000_0000,
    decreases n,
{
    let m = if n <= buf.len() { n } else { buf.len() };
    if n == 0 {
    } else {
        let k = (n - 1) as nat;
        let parts = le_parts(n);
        assert(parts.drop_last() =~= le_parts(k));
        lemma_round_trip_sum(k, buf);
        lemma_pow256_bounds(k);
        reveal_with_fuel(pow256, 8);
        let part = parts.last();
        if k < buf.len() {
            let acc = raw_sum(le_parts(k), buf);
            lemma_le_value_bound(buf, k);
            lemma_le_value_bound(buf, n);
            let b = buf[k as int];
            let p = pow256(k);
            assert(part_value(part, b) == b as i64);
            assert(0 <= b * p <= 255 * p) by (nonlinear_arith)
                requires
                    0 <= b <= 255,
                    p >= 1,
            ;
            assert(part_contribution(part, b) == b * p);
            assert(pow256(n) <= 0x100_0000_0000_0000);
        } else {
        }
    }
}

/// A signed part with the mask `0xFF` reads the byte `0xFF` as -1, whatever
/// its shift, and so contributes the negated factor.
pub proof fn lemma_sign_extension(part: PacketTemplateFieldPart)
    requires
        part.is_signed,
        part.mask == 0xFF,
        part.factor != i64::MIN,
    ensures
        part_value(part, 0xFF) == -1,
        part_contribution(part, 0xFF) as int == -(part.factor as int),
{
    assert((0xFFu8 as i8) == -1i8) by (bit_vector);
    let shift = part.bit_pos as u32;
    assert((-1i64) >> (shift % 64) == -1i64) by (bit_vector);
    let f = part.factor as int;
    let m = 0x1_0000_0000_0000_0000int;
    if f > 0 {
        assert((-f) % m == m - f) by (nonlinear_arith)
            requires
                0 < f < m,
                m == 0x1_0000_0000_0000_0000int,
        ;
    } else {
        assert((-f) % m == -f) by (nonlinear_arith)
            requires
                0 <= -f < m,
                m == 0x1_0000_0000_0000_0000int,
        ;
    }
}

} // verus!
