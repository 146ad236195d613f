//! The shape of a block: two header words followed by aligned element slots.

use vstd::arithmetic::power2::is_pow2;
use vstd::prelude::*;

verus! {

/// Size in bytes of one header word.
pub open spec fn word_size() -> int {
    vstd::layout::size_of::<usize>() as int
}

/// Alignment in bytes of one header word.
pub open spec fn word_align() -> int {
    vstd::layout::align_of::<usize>() as int
}

/// The smallest multiple of `a` that is at least `x`.
pub open spec fn round_up(x: int, a: int) -> int {
    if x % a == 0 {
        x
    } else {
        x + (a - x % a)
    }
}

/// Byte offset of the first element slot for elements aligned to `a`.
pub open spec fn elem_offset_of(a: int) -> int {
    round_up(2 * word_size(), a)
}

/// Alignment of the whole block for elements aligned to `a`.
pub open spec fn block_align_of(a: int) -> int {
    if word_align() >= a {
        word_align()
    } else {
        a
    }
}

/// Total size of a block with `n` slots of elements of size `s` and alignment `a`.
pub open spec fn block_size_of(s: int, a: int, n: int) -> int {
    round_up(elem_offset_of(a) + s * n, block_align_of(a))
}

/// Whether such a block is representable: its size fits in `isize`.
pub open spec fn layout_fits(s: int, a: int, n: int) -> bool {
    block_size_of(s, a, n) <= isize::MAX
}

/// Description of one block: its size and alignment, and where its element
/// region begins.
#[derive(Clone, Copy, Debug, PartialEq, Eq, Structural)]
pub struct BlockLayout {
    pub size: usize,
    pub align: usize,
    pub elem_offset: usize,
}

/// The requested capacity cannot be described by a block whose size fits in
/// the address space.
#[derive(Clone, Copy, Debug, PartialEq, Eq, Structural)]
pub struct LayoutOverflow;

/// The block that holds `n` slots of elements of size `s` and alignment `a`.
pub open spec fn block_layout_of(s: int, a: int, n: int) -> BlockLayout {
    BlockLayout {
        size: block_size_of(s, a, n) as usize,
        align: block_align_of(a) as usize,
        elem_offset: elem_offset_of(a) as usize,
    }
}

proof fn lemma_round_up_bounds(x: int, a: int)
    requires
        x >= 0,
        a > 0,
    ensures
        x <= round_up(x, a) < x + a,
        round_up(x, a) % a == 0,
{
    let r = x % a;
    assert(0 <= r < a);
    if r != 0 {
        assert(x == a * (x / a) + r) by (nonlinear_arith)
            requires
                a > 0,
                r == x % a,
        ;
        assert(x + (a - r) == a * (x / a + 1)) by (nonlinear_arith)
            requires
                x == a * (x / a) + r,
        ;
        vstd::arithmetic::div_mod::lemma_mod_multiples_basic(x / a + 1, a);
    }
}

/// `round_up(x, a)`, or `None` when it does not fit in a `usize`.
fn round_up_checked(x: usize, a: usize) -> (r: Option<usize>)
    requires
        a > 0,
    ensures
        r == (if round_up(x as int, a as int) <= usize::MAX {
            Some(round_up(x as int, a as int) as usize)
        } else {
            None::<usize>
        }),
{
    let rem = x % a;
    if rem == 0 {
        Some(x)
    } else {
        x.checked_add(a - rem)
    }
}

/// A power of two divides every power of two that is at least as large.
pub proof fn lemma_pow2_divides(a: int, b: int)
    requires
        is_pow2(a),
        is_pow2(b),
        a <= b,
    ensures
        b % a == 0,
    decreases b,
{
    reveal(is_pow2);
    if a > 1 {
        lemma_pow2_divides(a / 2, b / 2);
        let q = (b / 2) / (a / 2);
        vstd::arithmetic::div_mod::lemma_fundamental_div_mod(b / 2, a / 2);
        assert(b == a * q) by (nonlinear_arith)
            requires
                b == 2 * (b / 2),
                a == 2 * (a / 2),
                b / 2 == (a / 2) * q,
                a / 2 > 0,
        ;
        vstd::arithmetic::div_mod::lemma_mod_multiples_basic(q, a);
    }
}

/// Elements of alignment `a` start at an offset that is a multiple of `a`
/// and lies past both header words: right after them when `a` is at most two
/// words, at `a` itself when it is larger. The block holds every slot and
/// its size is a multiple of the block's alignment.
pub proof fn lemma_elements_placed(s: int, a: int, n: int)
    requires
        s >= 0,
        n >= 0,
        is_pow2(a),
    ensures
        elem_offset_of(a) % a == 0,
        elem_offset_of(a) >= 2 * word_size(),
        a <= 2 * word_size() ==> elem_offset_of(a) == 2 * word_size(),
        a > 2 * word_size() ==> elem_offset_of(a) == a,
        elem_offset_of(a) + s * n <= block_size_of(s, a, n),
        block_size_of(s, a, n) % block_align_of(a) == 0,
{
    broadcast use vstd::layout::layout_of_primitives;

    reveal(is_pow2);
    assert(s * n >= 0) by (nonlinear_arith)
        requires
            s >= 0,
            n >= 0,
    ;
    assert(word_size() == 4 || word_size() == 8);
    assert(is_pow2(2 * word_size())) by {
        reveal_with_fuel(is_pow2, 6);
    }
    lemma_round_up_bounds(2 * word_size(), a);
    lemma_round_up_bounds(elem_offset_of(a) + s * n, block_align_of(a));
    if a <= 2 * word_size() {
        lemma_pow2_divides(a, 2 * word_size());
    } else {
        vstd::arithmetic::div_mod::lemma_small_mod((2 * word_size()) as nat, a as nat);
    }
}

/// For elements of size zero the block does not depend on the capacity: it
/// is the header, rounded up to the alignment. Its size is the larger of two
/// words and `a`, and its alignment the larger of a word's and `a`. (The
/// word's alignment is a power of two that divides the word, as for every
/// type.)
pub proof fn lemma_zero_size_block(a: int, n: int)
    requires
        n >= 0,
        is_pow2(a),
        is_pow2(word_align()),
        word_size() % word_align() == 0,
    ensures
        block_layout_of(0, a, n) == block_layout_of(0, a, 0),
        layout_fits(0, a, n) == layout_fits(0, a, 0),
        block_size_of(0, a, n) == (if 2 * word_size() >= a {
            2 * word_size()
        } else {
            a
        }),
        block_align_of(a) == (if word_align() >= a {
            word_align()
        } else {
            a
        }),
{
    broadcast use vstd::layout::layout_of_primitives;

    lemma_elements_placed(0, a, 0);
    reveal(is_pow2);
    assert(word_size() == 4 || word_size() == 8);
    assert(is_pow2(2 * word_size())) by {
        reveal_with_fuel(is_pow2, 6);
    }
    let off = elem_offset_of(a);
    if word_align() >= a {
        vstd::arithmetic::div_mod::lemma_mod_is_zero(word_size() as nat, word_align() as nat);
        lemma_pow2_divides(word_align(), 2 * word_size());
        assert(off == 2 * word_size());
    } else {
        assert(off % a == 0);
    }
}

impl BlockLayout {
    /// The block for `cap` slots of elements of size `elem_size` and
    /// alignment `elem_align`, after a header of two words.
    pub fn for_elements(elem_size: usize, elem_align: usize, cap: usize) -> (r: Result<
        BlockLayout,
        LayoutOverflow,
    >)
        requires
            is_pow2(elem_align as int),
        ensures
            match r {
                Ok(l) => layout_fits(elem_size as int, elem_align as int, cap as int) && l
                    == block_layout_of(elem_size as int, elem_align as int, cap as int),
                Err(_) => !layout_fits(elem_size as int, elem_align as int, cap as int),
            },
    {
        broadcast use vstd::layout::layout_of_primitives;

        vstd::layout::layout_for_type_is_valid::<usize>();
        let word = core::mem::size_of::<usize>();
        let word_al = core::mem::align_of::<usize>();
        proof {
            reveal(is_pow2);
        }
        let ghost s = elem_size as int;
        let ghost a = elem_align as int;
        let ghost n = cap as int;
        let align = if word_al >= elem_align {
            word_al
        } else {
            elem_align
        };
        proof {
            lemma_round_up_bounds(2 * word_size(), a);
            lemma_round_up_bounds(elem_offset_of(a) + s * n, block_align_of(a));
        }
        let offset = match round_up_checked(2 * word, elem_align) {
            Some(o) => o,
            None => return Err(LayoutOverflow),
        };
        let bytes = match elem_size.checked_mul(cap) {
            Some(b) => b,
            None => {
                assert(s * n >= 0) by (nonlinear_arith)
                    requires
                        s >= 0,
                        n >= 0,
                ;
                return Err(LayoutOverflow);
            },
        };
        let end = match offset.checked_add(bytes) {
            Some(e) => e,
            None => return Err(LayoutOverflow),
        };
        let size = match round_up_checked(end, align) {
            Some(z) => z,
            None => return Err(LayoutOverflow),
        };
        if size > isize::MAX as usize {
            return Err(LayoutOverflow);
        }
        Ok(BlockLayout { size, align, elem_offset: offset })
    }
}

} // verus!
