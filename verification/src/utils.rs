//! Alignment arithmetic and the encoding of the word that opens every record
//! of droppable data.

use vstd::arithmetic::div_mod::{
    lemma_fundamental_div_mod,
    lemma_fundamental_div_mod_converse,
    lemma_mod_multiples_basic,
};
use vstd::arithmetic::power2::{
    is_pow2,
    is_pow2_equiv,
    lemma_pow2_adds,
    lemma_pow2_pos,
    lemma_pow2_strictly_increases,
    pow2,
};
use vstd::bits::{lemma_usize_low_bits_mask_is_mod, low_bits_mask};
use vstd::layout::{align_of, layout_for_type_is_valid, size_of, unsigned_int_max_values};
use vstd::prelude::*;

verus! {

/// Number of bytes taken by the packed word that opens a record of droppable data.
pub const WORD_SIZE: usize = 8;

/// Alignment of that word: every record starts at a multiple of it.
pub const WORD_ALIGN: usize = 8;

/// Size and alignment of a type whose values need their destructor to run.
///
/// A chunk keeps one description per layout and stores, next to each object,
/// a word that points at the description of that object.
#[derive(Clone, Copy, Debug, PartialEq, Eq, Structural)]
pub struct TypeDescription {
    pub size: usize,
    pub alignment: usize,
}

/// The smallest multiple of `align` that is not below `base`.
pub open spec fn round_up_spec(base: int, align: int) -> int
    recommends
        align > 0,
{
    if base % align == 0 {
        base
    } else {
        base + (align - base % align)
    }
}

/// Whether `x` is a multiple of `align`.
pub open spec fn is_aligned(x: int, align: int) -> bool
    recommends
        align > 0,
{
    x % align == 0
}

/// The word that holds the pointer `p` together with the flag `is_done` in its lowest bit.
pub open spec fn pack_spec(p: int, is_done: bool) -> int
    recommends
        p % 2 == 0,
{
    if is_done {
        p + 1
    } else {
        p
    }
}

/// The pointer and the flag held by the word `word`.
pub open spec fn unpack_spec(word: int) -> (int, bool) {
    (word - word % 2, word % 2 == 1)
}

/// `round_up_spec(base, align)` is a multiple of `align`, lies in
/// `[base, base + align)`, and no multiple of `align` lies between `base` and it.
pub proof fn lemma_round_up_is_least(base: int, align: int)
    requires
        align > 0,
    ensures
        base <= round_up_spec(base, align) < base + align,
        is_aligned(round_up_spec(base, align), align),
        forall|x: int| base <= x && #[trigger] is_aligned(x, align) ==> round_up_spec(base, align) <= x,
{
    let r = round_up_spec(base, align);
    let q = base / align;
    lemma_fundamental_div_mod(base, align);
    assert(0 <= base % align < align);
    if base % align != 0 {
        assert(r == align * (q + 1)) by (nonlinear_arith)
            requires
                base == align * q + base % align,
                r == base + (align - base % align),
        ;
        lemma_fundamental_div_mod_converse(r, align, q + 1, 0);
    }
    assert forall|x: int| base <= x && #[trigger] is_aligned(x, align) implies r <= x by {
        lemma_fundamental_div_mod(x, align);
        let k = x / align;
        if base % align != 0 {
            assert(k > q) by (nonlinear_arith)
                requires
                    x == align * k,
                    base == align * q + base % align,
                    base <= x,
                    0 < base % align,
                    align > 0,
            ;
            assert(align * k >= align * (q + 1)) by (nonlinear_arith)
                requires
                    k >= q + 1,
                    align > 0,
            ;
        }
    }
}

/// A value that is already a multiple of `align` is left where it is.
pub proof fn lemma_round_up_of_aligned(base: int, align: int)
    requires
        align > 0,
        base % align == 0,
    ensures
        round_up_spec(base, align) == base,
{
}

/// A power of two that fits in a `usize` is `2^k` for some `k` below the width of `usize`.
proof fn lemma_pow2_exponent(align: usize) -> (k: nat)
    requires
        is_pow2(align as int),
    ensures
        k < usize::BITS,
        pow2(k) == align,
        low_bits_mask(k) == align - 1,
{
    is_pow2_equiv(align as int);
    let k = choose|i: nat| vstd::arithmetic::power::pow(2, i) == align as int;
    unsigned_int_max_values();
    if k >= usize::BITS {
        if k > usize::BITS {
            lemma_pow2_strictly_increases(usize::BITS as nat, k);
        }
        assert(false);
    }
    lemma_pow2_pos(k);
    k
}

/// For a power of two `align`, the low bits of `x` are its remainder by `align`.
pub proof fn lemma_mask_is_mod(x: usize, align: usize)
    requires
        is_pow2(align as int),
    ensures
        align > 0,
        x & ((align - 1) as usize) == x % align,
{
    let k = lemma_pow2_exponent(align);
    lemma_usize_low_bits_mask_is_mod(x, k);
}

/// A power of two is positive.
pub proof fn lemma_pow2_is_positive(align: int)
    requires
        is_pow2(align),
    ensures
        align > 0,
{
    reveal(is_pow2);
}

/// Eight, the alignment of a packed word, is a power of two.
pub proof fn lemma_word_align_is_pow2()
    ensures
        is_pow2(WORD_ALIGN as int),
{
    reveal_with_fuel(is_pow2, 4);
}

/// Where the rounded value fits in a `usize`, so does `base + (align - 1)`:
/// the sum that [`round_up`] forms on its way.
pub proof fn lemma_round_up_fits(base: usize, align: usize)
    requires
        is_pow2(align as int),
        round_up_spec(base as int, align as int) <= usize::MAX,
    ensures
        base + (align - 1) <= usize::MAX,
{
    let a = align as int;
    let r = round_up_spec(base as int, a);
    let k = lemma_pow2_exponent(align);
    let n = usize::BITS as nat;
    let m = usize::MAX + 1;
    unsigned_int_max_values();
    lemma_round_up_is_least(base as int, a);
    if base + (a - 1) >= m {
        let rest = (n - k) as nat;
        lemma_pow2_adds(k, rest);
        assert(k + rest == n);
        let high = pow2(rest) as int;
        assert(m == a * high);
        assert(m == high * a) by (nonlinear_arith)
            requires
                m == a * high,
        ;
        lemma_mod_multiples_basic(high, a);
        assert(is_aligned(m, a));
        lemma_fundamental_div_mod(m, a);
        lemma_fundamental_div_mod(r, a);
        let qm = m / a;
        let qr = r / a;
        assert(qm > qr) by (nonlinear_arith)
            requires
                m == a * qm,
                r == a * qr,
                r < m,
                a > 0,
        ;
        assert(m - r >= a) by (nonlinear_arith)
            requires
                m == a * qm,
                r == a * qr,
                qm >= qr + 1,
                a > 0,
        ;
        assert(false);
    }
}

/// Returns the smallest multiple of `align` that is not below `base`.
///
/// `align` is a power of two, and `base + (align - 1)` fits in a `usize`.
pub fn round_up(base: usize, align: usize) -> (r: usize)
    requires
        is_pow2(align as int),
        base + (align - 1) <= usize::MAX,
    ensures
        r == round_up_spec(base as int, align as int),
{
    proof {
        lemma_mask_is_mod(0, align);
    }
    let mask: usize = align - 1;
    let top: usize = base + mask;
    let r: usize = top & !mask;
    proof {
        lemma_mask_is_mod(top, align);
        assert(top & !mask == top - (top & mask)) by (bit_vector);
        let a = align as int;
        let q = base as int / a;
        let rem = base as int % a;
        lemma_fundamental_div_mod(base as int, a);
        if rem == 0 {
            assert(top == a * q + (a - 1));
            lemma_fundamental_div_mod_converse(top as int, a, q, a - 1);
        } else {
            assert(top == a * (q + 1) + (rem - 1)) by (nonlinear_arith)
                requires
                    base == a * q + rem,
                    top == base + (a - 1),
            ;
            lemma_fundamental_div_mod_converse(top as int, a, q + 1, rem - 1);
        }
    }
    r
}

/// Rounds up like [`round_up`], for every `base`: `None` when the result does not fit in a `usize`.
pub fn checked_round_up(base: usize, align: usize) -> (r: Option<usize>)
    requires
        is_pow2(align as int),
    ensures
        match r {
            Some(v) => v == round_up_spec(base as int, align as int),
            None => round_up_spec(base as int, align as int) > usize::MAX,
        },
{
    proof {
        lemma_mask_is_mod(base, align);
    }
    let misalignment: usize = base & (align - 1);
    if misalignment == 0 {
        Some(base)
    } else {
        base.checked_add(align - misalignment)
    }
}

/// Packs the pointer `p` to a type description and the flag `is_done` into one word.
///
/// The flag takes the lowest bit, which an even `p` leaves free. It tells a
/// later walk over the chunk whether the object behind the word was fully
/// initialised.
pub fn bitpack_type_description_ptr(p: usize, is_done: bool) -> (r: usize)
    requires
        p % 2 == 0,
    ensures
        r == pack_spec(p as int, is_done),
{
    let flag: usize = if is_done { 1 } else { 0 };
    proof {
        assert(p % 2 == 0 ==> (p | 0) == p && (p | 1) == p + 1) by (bit_vector);
    }
    p | flag
}

/// Splits a packed word into the pointer to the type description and the flag.
pub fn un_bitpack_type_description_ptr(p: usize) -> (r: (usize, bool))
    ensures
        r.0 == unpack_spec(p as int).0,
        r.1 == unpack_spec(p as int).1,
{
    proof {
        assert(p & !1usize == p - p % 2 && p & 1 == p % 2) by (bit_vector);
    }
    (p & !1, p & 1 == 1)
}

/// Unpacking a packed word gives back the pointer and the flag that went in.
pub proof fn lemma_unpack_pack(p: int, is_done: bool)
    requires
        p % 2 == 0,
    ensures
        unpack_spec(pack_spec(p, is_done)) == (p, is_done),
{
}

/// Packing again what a packed word unpacks to gives the same word.
pub proof fn lemma_pack_round_trip(p: int, is_done: bool)
    requires
        p % 2 == 0,
    ensures
        pack_spec(
            unpack_spec(pack_spec(p, is_done)).0,
            unpack_spec(pack_spec(p, is_done)).1,
        ) == pack_spec(p, is_done),
{
    lemma_unpack_pack(p, is_done);
}

/// The description of `T`: its size and its alignment.
pub open spec fn type_description_of<T>() -> TypeDescription {
    TypeDescription { size: size_of::<T>() as usize, alignment: align_of::<T>() as usize }
}

/// Returns the description of `T`: its size and its alignment.
pub fn get_type_description<T>() -> (description: TypeDescription)
    ensures
        description == type_description_of::<T>(),
        description.size == size_of::<T>(),
        description.alignment == align_of::<T>(),
        is_pow2(description.alignment as int),
{
    layout_for_type_is_valid::<T>();
    TypeDescription { size: core::mem::size_of::<T>(), alignment: core::mem::align_of::<T>() }
}

} // verus!
