//! The bit-field transforms behind the RISC-V immediate encodings.
use vstd::prelude::*;

use crate::text::push_char;

verus! {

/// Bit `i` of `n`, as 0 or 1.
pub open spec fn bit_value(n: u32, i: usize) -> u32 {
    (n >> (i as u32)) & 1
}

/// Bit `i` of `n` is set.
pub open spec fn bit(n: u32, i: usize) -> bool {
    bit_value(n, i) == 1
}

/// Indices that all name a bit of a 32-bit word, at most 32 of them.
pub open spec fn valid_indices(idx: Seq<usize>) -> bool {
    &&& idx.len() <= 32
    &&& forall|i: int| 0 <= i < idx.len() ==> #[trigger] idx[i] < 32
}

/// Packs the bits of `n` named by `idx`: output bit `i` is input bit `idx[i]`.
pub open spec fn select_bits(n: u32, idx: Seq<usize>) -> u32
    decreases idx.len(),
{
    if idx.len() == 0 {
        0
    } else {
        select_bits(n, idx.drop_last()) | (bit_value(n, idx.last()) << ((idx.len() - 1) as u32))
    }
}

/// The number that binary digits write, most significant first.
pub open spec fn binary_value(t: Seq<char>) -> u32
    decreases t.len(),
{
    if t.len() == 0 {
        0
    } else {
        (binary_value(t.drop_last()) << 1u32) | (if t.last() == '1' {
            1u32
        } else {
            0u32
        })
    }
}

/// `v` written in base 2 with exactly `width` digits, most significant first.
pub open spec fn binary_text(v: u32, width: nat) -> Seq<char> {
    Seq::new(width, |j: int| if bit(v, (width - 1 - j) as usize) { '1' } else { '0' })
}

/// The binary field that `idx` selects from `n`: one digit per index.
pub open spec fn field_text(n: u32, idx: Seq<usize>) -> Seq<char> {
    binary_text(select_bits(n, idx), idx.len())
}

/// The indices `start, start + 1, ..., end - 1`.
pub open spec fn index_range(start: usize, end: usize) -> Seq<usize> {
    Seq::new((end - start) as nat, |i: int| (start + i) as usize)
}

pub open spec fn high_20_indices() -> Seq<usize> {
    index_range(12, 32)
}

pub open spec fn low_12_indices() -> Seq<usize> {
    index_range(0, 12)
}

/// Immediate bits 12..20, 11, 1..11, 20 in that order.
pub open spec fn jal_indices() -> Seq<usize> {
    index_range(12, 20).push(11) + index_range(1, 11).push(20)
}

/// Immediate bits 5..11, 12 in that order.
pub open spec fn branch_high_indices() -> Seq<usize> {
    index_range(5, 11).push(12)
}

/// Immediate bits 11, 1..5 in that order.
pub open spec fn branch_low_indices() -> Seq<usize> {
    seq![11usize] + index_range(1, 5)
}

pub open spec fn store_high_indices() -> Seq<usize> {
    index_range(5, 12)
}

pub open spec fn store_low_indices() -> Seq<usize> {
    index_range(0, 5)
}

/// Whether bit `i` of `num` is set.
pub fn bit_at(num: u32, i: usize) -> (r: bool)
    requires
        i < 32,
    ensures
        r == bit(num, i),
{
    let k = i as u32;
    assert((num & (1u32 << k) != 0) == ((num >> k) & 1 == 1)) by (bit_vector)
        requires
            k < 32,
    ;
    num & (1u32 << k) != 0
}

/// Packs the bits of `num` named by `range`: output bit `i` is bit `range[i]` of `num`.
pub fn bits_at(num: u32, range: &[usize]) -> (r: u32)
    requires
        valid_indices(range@),
    ensures
        r == select_bits(num, range@),
{
    let mut result: u32 = 0;
    let mut i: usize = 0;
    while i < range.len()
        invariant
            i <= range.len(),
            valid_indices(range@),
            result == select_bits(num, range@.take(i as int)),
        decreases range.len() - i,
    {
        let set = bit_at(num, range[i]);
        let b: u32 = if set { 1 } else { 0 };
        let k = range[i] as u32;
        let s = i as u32;
        assert(b == (num >> k) & 1) by (bit_vector)
            requires
                set == ((num >> k) & 1 == 1),
                b == if set { 1u32 } else { 0u32 },
        ;
        result = result | (b << s);
        proof {
            assert(range@.take(i + 1).drop_last() =~= range@.take(i as int));
        }
        i += 1;
    }
    proof {
        assert(range@.take(i as int) =~= range@);
    }
    result
}

/// `v` written in base 2 with exactly `width` digits.
pub fn binary_string(v: u32, width: usize) -> (r: String)
    requires
        width <= 32,
    ensures
        r@ == binary_text(v, width as nat),
        width == 32 || v >> (width as u32) == 0 ==> binary_value(r@) == v,
{
    let mut r = String::new();
    let mut j: usize = 0;
    while j < width
        invariant
            j <= width <= 32,
            r@ =~= binary_text(v, width as nat).take(j as int),
        decreases width - j,
    {
        let set = bit_at(v, width - 1 - j);
        push_char(&mut r, if set { '1' } else { '0' });
        j += 1;
    }
    proof {
        assert(r@ =~= binary_text(v, width as nat));
        if width == 32 || v >> (width as u32) == 0 {
            lemma_binary_text_value(v, width as nat);
        }
    }
    r
}

/// A vector holding the indices `start..end`.
pub fn index_vec(start: usize, end: usize) -> (r: Vec<usize>)
    requires
        start <= end,
    ensures
        r@ == index_range(start, end),
{
    let mut r: Vec<usize> = Vec::new();
    let mut i: usize = start;
    while i < end
        invariant
            start <= i <= end,
            r@ =~= index_range(start, i),
        decreases end - i,
    {
        r.push(i);
        i += 1;
    }
    r
}

/// The binary field that `indices` selects from `n`.
pub fn select_field(n: u32, indices: &Vec<usize>) -> (r: String)
    requires
        valid_indices(indices@),
    ensures
        r@ == field_text(n, indices@),
        binary_value(r@) == select_bits(n, indices@),
{
    proof {
        lemma_field_value(n, indices@);
    }
    binary_string(bits_at(n, indices.as_slice()), indices.len())
}

/// The 20-bit J-type immediate field: bits 12..20, 11, 1..11, 20 of `n`.
pub fn jal_form(n: u32) -> (r: String)
    ensures
        r@ == field_text(n, jal_indices()),
        binary_value(r@) == select_bits(n, jal_indices()),
{
    let mut bit_select = index_vec(12, 20);
    bit_select.push(11);
    let mut rest = index_vec(1, 11);
    rest.push(20);
    bit_select.append(&mut rest);
    assert(bit_select@ =~= jal_indices());
    select_field(n, &bit_select)
}

/// The 7-bit upper B-type immediate field: bits 5..11, 12 of `n`.
pub fn branch_high(n: u32) -> (r: String)
    ensures
        r@ == field_text(n, branch_high_indices()),
        binary_value(r@) == select_bits(n, branch_high_indices()),
{
    let mut bit_select = index_vec(5, 11);
    bit_select.push(12);
    select_field(n, &bit_select)
}

/// The 5-bit lower B-type immediate field: bits 11, 1..5 of `n`.
pub fn branch_low(n: u32) -> (r: String)
    ensures
        r@ == field_text(n, branch_low_indices()),
        binary_value(r@) == select_bits(n, branch_low_indices()),
{
    let mut bit_select: Vec<usize> = Vec::new();
    bit_select.push(11);
    let mut rest = index_vec(1, 5);
    bit_select.append(&mut rest);
    assert(bit_select@ =~= branch_low_indices());
    select_field(n, &bit_select)
}

/// `to - from`: the signed distance from one address to another.
pub fn displacement(from: i32, to: i32) -> (r: i32)
    requires
        i32::MIN <= to - from <= i32::MAX,
    ensures
        r == to - from,
{
    to - from
}

/// Bit `i` of a packed value is the input bit named at position `i`; the bits past the
/// last position are clear.
pub proof fn lemma_select_bit(n: u32, idx: Seq<usize>, i: int)
    requires
        valid_indices(idx),
        0 <= i < 32,
    ensures
        bit_value(select_bits(n, idx), i as usize) == if i < idx.len() {
            bit_value(n, idx[i])
        } else {
            0
        },
    decreases idx.len(),
{
    let j = i as u32;
    assert((i as usize) as u32 == j);
    if idx.len() == 0 {
        assert(select_bits(n, idx) == 0);
        assert((0u32 >> j) & 1 == 0) by (bit_vector);
    } else {
        let prefix = idx.drop_last();
        assert(valid_indices(prefix)) by {
            assert forall|j: int| 0 <= j < prefix.len() implies #[trigger] prefix[j] < 32 by {
                assert(prefix[j] == idx[j]);
            }
        }
        lemma_select_bit(n, prefix, i);
        lemma_select_bit(n, prefix, (idx.len() - 1) as int);
        let x = select_bits(n, prefix);
        let b = bit_value(n, idx.last());
        let m = idx.last() as u32;
        let k = (idx.len() - 1) as u32;
        assert(b <= 1) by (bit_vector)
            requires
                b == (n >> m) & 1,
        ;
        assert(((x | (b << k)) >> j) & 1 == if j == k {
            ((x >> j) & 1) | b
        } else {
            (x >> j) & 1
        }) by (bit_vector)
            requires
                b <= 1,
                k < 32,
                j < 32,
        ;
        assert(select_bits(n, idx) == x | (b << k));
        assert((i as usize) as u32 == j);
        assert(bit_value(select_bits(n, idx), i as usize) == ((x | (b << k)) >> j) & 1);
        assert(bit_value(x, i as usize) == (x >> j) & 1);
        if i < prefix.len() {
            assert(prefix[i] == idx[i]);
        } else if i == prefix.len() {
            assert(j == k);
            assert(bit_value(x, i as usize) == 0);
            assert(((x >> j) & 1) | b == b) by (bit_vector)
                requires
                    (x >> j) & 1 == 0,
            ;
            assert(idx[i] == idx.last());
        }
    }
}

/// The offset that the 20-bit J-type field `f` stands for, reassembled as the hardware
/// does: `imm[20|10:1|11|19:12]`, sign-extended.
pub open spec fn jal_offset(f: u32) -> i32 {
    let imm: u32 = (((f >> 19u32) & 1) << 20u32) | (((f >> 9u32) & 0x3ff) << 1u32) | (((f
        >> 8u32) & 1) << 11u32) | ((f & 0xff) << 12u32);
    (if imm & 0x100000 != 0 {
        imm | 0xffe00000
    } else {
        imm
    }) as i32
}

/// The offset that the B-type fields stand for: `high` holds `imm[12|10:5]` and `low`
/// holds `imm[4:1|11]`, sign-extended.
pub open spec fn branch_offset(high: u32, low: u32) -> i32 {
    let imm: u32 = (((high >> 6u32) & 1) << 12u32) | ((high & 0x3f) << 5u32) | (((low >> 1u32)
        & 0xf) << 1u32) | ((low & 1) << 11u32);
    (if imm & 0x1000 != 0 {
        imm | 0xffffe000
    } else {
        imm
    }) as i32
}

/// A jump's field decodes to the exact distance from the jump to its target, negative
/// distances included, for every even distance in the J-type range.
pub proof fn lemma_jal_displacement(from: i32, to: i32)
    requires
        -0x100000 <= to - from < 0x100000,
        (to - from) % 2 == 0,
    ensures
        jal_offset(select_bits(#[verifier::truncate] ((to - from) as u32), jal_indices())) == to - from,
{
    let d: i32 = (to - from) as i32;
    let n: u32 = #[verifier::truncate] (d as u32);
    let f = select_bits(n, jal_indices());
    assert(d & 1 == 0) by (bit_vector)
        requires
            d % 2 == 0,
    ;
    assert forall|k: usize| k < 20 implies #[trigger] bit_value(f, k) == bit_value(
        n,
        jal_indices()[k as int],
    ) by {
        lemma_select_bit(n, jal_indices(), k as int);
        assert((k as int) as usize == k);
    }
    assert(jal_offset(f) == d) by (bit_vector)
        requires
            bit_value(f, 0usize) == bit_value(n, 12usize),
            bit_value(f, 1usize) == bit_value(n, 13usize),
            bit_value(f, 2usize) == bit_value(n, 14usize),
            bit_value(f, 3usize) == bit_value(n, 15usize),
            bit_value(f, 4usize) == bit_value(n, 16usize),
            bit_value(f, 5usize) == bit_value(n, 17usize),
            bit_value(f, 6usize) == bit_value(n, 18usize),
            bit_value(f, 7usize) == bit_value(n, 19usize),
            bit_value(f, 8usize) == bit_value(n, 11usize),
            bit_value(f, 9usize) == bit_value(n, 1usize),
            bit_value(f, 10usize) == bit_value(n, 2usize),
            bit_value(f, 11usize) == bit_value(n, 3usize),
            bit_value(f, 12usize) == bit_value(n, 4usize),
            bit_value(f, 13usize) == bit_value(n, 5usize),
            bit_value(f, 14usize) == bit_value(n, 6usize),
            bit_value(f, 15usize) == bit_value(n, 7usize),
            bit_value(f, 16usize) == bit_value(n, 8usize),
            bit_value(f, 17usize) == bit_value(n, 9usize),
            bit_value(f, 18usize) == bit_value(n, 10usize),
            bit_value(f, 19usize) == bit_value(n, 20usize),
            n == d as u32,
            -0x100000 <= d < 0x100000,
            d & 1 == 0,
    ;
}

/// A branch's two fields decode to the exact distance from the branch to its target,
/// negative distances included, for every even distance in the B-type range.
pub proof fn lemma_branch_displacement(from: i32, to: i32)
    requires
        -0x1000 <= to - from < 0x1000,
        (to - from) % 2 == 0,
    ensures
        branch_offset(
            select_bits(#[verifier::truncate] ((to - from) as u32), branch_high_indices()),
            select_bits(#[verifier::truncate] ((to - from) as u32), branch_low_indices()),
        ) == to - from,
{
    let d: i32 = (to - from) as i32;
    let n: u32 = #[verifier::truncate] (d as u32);
    let h = select_bits(n, branch_high_indices());
    let l = select_bits(n, branch_low_indices());
    assert(d & 1 == 0) by (bit_vector)
        requires
            d % 2 == 0,
    ;
    assert forall|k: usize| k < 7 implies #[trigger] bit_value(h, k) == bit_value(
        n,
        branch_high_indices()[k as int],
    ) by {
        lemma_select_bit(n, branch_high_indices(), k as int);
        assert((k as int) as usize == k);
    }
    assert forall|k: usize| k < 5 implies #[trigger] bit_value(l, k) == bit_value(
        n,
        branch_low_indices()[k as int],
    ) by {
        lemma_select_bit(n, branch_low_indices(), k as int);
        assert((k as int) as usize == k);
    }
    assert(branch_offset(h, l) == d) by (bit_vector)
        requires
            bit_value(h, 0usize) == bit_value(n, 5usize),
            bit_value(h, 1usize) == bit_value(n, 6usize),
            bit_value(h, 2usize) == bit_value(n, 7usize),
            bit_value(h, 3usize) == bit_value(n, 8usize),
            bit_value(h, 4usize) == bit_value(n, 9usize),
            bit_value(h, 5usize) == bit_value(n, 10usize),
            bit_value(h, 6usize) == bit_value(n, 12usize),
            bit_value(l, 0usize) == bit_value(n, 11usize),
            bit_value(l, 1usize) == bit_value(n, 1usize),
            bit_value(l, 2usize) == bit_value(n, 2usize),
            bit_value(l, 3usize) == bit_value(n, 3usize),
            bit_value(l, 4usize) == bit_value(n, 4usize),
            n == d as u32,
            -0x1000 <= d < 0x1000,
            d & 1 == 0,
    ;
}


/// Bit `k` of the value of binary digits is the `k`-th digit from the right; the bits
/// past the last digit are clear.
pub proof fn lemma_binary_value_bit(t: Seq<char>, k: int)
    requires
        t.len() <= 32,
        0 <= k < 32,
    ensures
        bit(binary_value(t), k as usize) == (k < t.len() && t[t.len() - 1 - k] == '1'),
    decreases t.len(),
{
    let kk = k as u32;
    assert((k as usize) as u32 == kk);
    if t.len() == 0 {
        assert((0u32 >> kk) & 1 != 1) by (bit_vector);
    } else {
        let p = t.drop_last();
        let y = binary_value(p);
        let c: u32 = if t.last() == '1' {
            1
        } else {
            0
        };
        assert((((y << 1u32) | c) >> kk) & 1 == if kk == 0 {
            c
        } else {
            (y >> ((kk - 1) as u32)) & 1
        }) by (bit_vector)
            requires
                c <= 1,
                kk < 32,
        ;
        if k > 0 {
            lemma_binary_value_bit(p, k - 1);
            assert(((k - 1) as usize) as u32 == (kk - 1) as u32);
            if k < t.len() {
                assert(p[p.len() - 1 - (k - 1)] == t[t.len() - 1 - k]);
            }
        }
    }
}

/// Two words whose 32 bits agree are equal.
pub proof fn lemma_bits_equal(x: u32, y: u32)
    requires
        forall|k: usize| k < 32 ==> #[trigger] bit_value(x, k) == bit_value(y, k),
    ensures
        x == y,
{
    assert(x == y) by (bit_vector)
        requires
            bit_value(x, 0usize) == bit_value(y, 0usize),
            bit_value(x, 1usize) == bit_value(y, 1usize),
            bit_value(x, 2usize) == bit_value(y, 2usize),
            bit_value(x, 3usize) == bit_value(y, 3usize),
            bit_value(x, 4usize) == bit_value(y, 4usize),
            bit_value(x, 5usize) == bit_value(y, 5usize),
            bit_value(x, 6usize) == bit_value(y, 6usize),
            bit_value(x, 7usize) == bit_value(y, 7usize),
            bit_value(x, 8usize) == bit_value(y, 8usize),
            bit_value(x, 9usize) == bit_value(y, 9usize),
            bit_value(x, 10usize) == bit_value(y, 10usize),
            bit_value(x, 11usize) == bit_value(y, 11usize),
            bit_value(x, 12usize) == bit_value(y, 12usize),
            bit_value(x, 13usize) == bit_value(y, 13usize),
            bit_value(x, 14usize) == bit_value(y, 14usize),
            bit_value(x, 15usize) == bit_value(y, 15usize),
            bit_value(x, 16usize) == bit_value(y, 16usize),
            bit_value(x, 17usize) == bit_value(y, 17usize),
            bit_value(x, 18usize) == bit_value(y, 18usize),
            bit_value(x, 19usize) == bit_value(y, 19usize),
            bit_value(x, 20usize) == bit_value(y, 20usize),
            bit_value(x, 21usize) == bit_value(y, 21usize),
            bit_value(x, 22usize) == bit_value(y, 22usize),
            bit_value(x, 23usize) == bit_value(y, 23usize),
            bit_value(x, 24usize) == bit_value(y, 24usize),
            bit_value(x, 25usize) == bit_value(y, 25usize),
            bit_value(x, 26usize) == bit_value(y, 26usize),
            bit_value(x, 27usize) == bit_value(y, 27usize),
            bit_value(x, 28usize) == bit_value(y, 28usize),
            bit_value(x, 29usize) == bit_value(y, 29usize),
            bit_value(x, 30usize) == bit_value(y, 30usize),
            bit_value(x, 31usize) == bit_value(y, 31usize),
    ;
}

/// The binary digits of a value that fits in their width read back as the value.
pub proof fn lemma_binary_text_value(v: u32, width: nat)
    requires
        width <= 32,
        width == 32 || v >> (width as u32) == 0,
    ensures
        binary_value(binary_text(v, width)) == v,
{
    let t = binary_text(v, width);
    let w = binary_value(t);
    assert forall|k: usize| k < 32 implies #[trigger] bit_value(w, k) == bit_value(v, k) by {
        lemma_binary_value_bit(t, k as int);
        assert((k as int) as usize == k);
        let kk = k as u32;
        assert(bit_value(w, k) <= 1 && bit_value(v, k) <= 1) by (bit_vector)
            requires
                bit_value(w, k) == (w >> kk) & 1,
                bit_value(v, k) == (v >> kk) & 1,
        ;
        if (k as int) < width {
            assert(((width - 1 - (width - 1 - k)) as usize) == k);
        } else {
            let wd = width as u32;
            assert((v >> kk) & 1 == 0) by (bit_vector)
                requires
                    wd <= kk < 32,
                    wd == 32 || v >> wd == 0,
            ;
        }
    }
    lemma_bits_equal(w, v);
}

/// A packed value has no bits past its last position, so its binary field reads back
/// as the value.
pub proof fn lemma_field_value(n: u32, idx: Seq<usize>)
    requires
        valid_indices(idx),
    ensures
        binary_value(field_text(n, idx)) == select_bits(n, idx),
{
    let v = select_bits(n, idx);
    let wd = idx.len() as u32;
    if idx.len() < 32 {
        assert forall|k: usize| k < 32 implies #[trigger] bit_value(v >> wd, k) == bit_value(0, k) by {
            let kk = k as u32;
            assert((k as int) as usize == k);
            if k + wd < 32 {
                lemma_select_bit(n, idx, (k + wd) as int);
                assert(((k + wd) as int) as usize == (k + wd) as usize);
                assert(((v >> wd) >> kk) & 1 == (v >> ((kk + wd) as u32)) & 1 && (0u32 >> kk) & 1 == 0)
                    by (bit_vector)
                    requires
                        kk + wd < 32,
                ;
            } else {
                assert(((v >> wd) >> kk) & 1 == 0 && (0u32 >> kk) & 1 == 0) by (bit_vector)
                    requires
                        kk + wd >= 32,
                        kk < 32,
                ;
            }
        }
        lemma_bits_equal(v >> wd, 0);
    }
    lemma_binary_text_value(v, idx.len());
}

} // verus!
