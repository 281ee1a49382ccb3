use vstd::prelude::*;

verus! {

/// `l` is the least non-negative whole number whose square, times `k`,
/// reaches `x`: the ceiling of the square root of `x / k` (0 when `x <= 0`).
pub open spec fn is_ceil_root(k: int, x: int, l: int) -> bool {
    &&& l >= 0
    &&& k * l * l >= x
    &&& (l == 0 || k * (l - 1) * (l - 1) < x)
}

proof fn lemma_square_monotone(k: int, a: int, b: int)
    by (nonlinear_arith)
    requires
        k > 0,
        0 <= a <= b,
    ensures
        k * a * a <= k * b * b,
{
}

/// The ceiling root is unique: `is_ceil_root` pins one value down.
pub proof fn lemma_ceil_root_unique(k: int, x: int, a: int, b: int)
    requires
        k > 0,
        is_ceil_root(k, x, a),
        is_ceil_root(k, x, b),
    ensures
        a == b,
{
    if a < b {
        lemma_square_monotone(k, a, b - 1);
    } else if b < a {
        lemma_square_monotone(k, b, a - 1);
    }
}

/// The least `l >= 0` with `k * l * l >= x`.
fn ceil_root(k: i64, x: i64) -> (l: i64)
    requires
        1 <= k <= 25,
        x <= 2147483647,
    ensures
        is_ceil_root(k as int, x as int, l as int),
        l <= 46341,
{
    let mut l: i64 = 0;
    while k * l * l < x
        invariant
            1 <= k <= 25,
            x <= 2147483647,
            0 <= l <= 46341,
            k * l <= 25 * 46341,
            k * l * l <= 25 * 46341 * 46341,
            l == 0 || k * (l - 1) * (l - 1) < x,
        decreases 46341 - l,
    {
        proof {
            assert(l < 46341) by (nonlinear_arith)
                requires
                    1 <= k,
                    0 <= l,
                    k * l * l < x,
                    x <= 2147483647,
            ;
            assert(k * (l + 1) * (l + 1) <= 25 * 46341 * 46341 && k * (l + 1) <= 25 * 46341)
                by (nonlinear_arith)
                requires
                    1 <= k <= 25,
                    0 <= l < 46341,
            ;
        }
        l = l + 1;
    }
    l
}

/// The experience needed for a level: `16 * level^2`, saturating at `i32::MAX`
/// (level = sqrt(experience) / 4).
pub open spec fn xp_for_level(level: int) -> int {
    if 16 * level * level <= 2147483647 {
        16 * level * level
    } else {
        2147483647
    }
}

/// The experience of a level on the second curve: `25 * level * (level - 1)`
/// (that is `(level^2 + level) / 2 * 50 - level * 50`), saturating at `i32::MAX`.
pub open spec fn curve_xp(level: int) -> int {
    if 25 * level * (level - 1) <= 2147483647 {
        25 * level * (level - 1)
    } else {
        2147483647
    }
}

/// The level reached with `xp` experience: `ceil(sqrt(xp) / 4)`, the least
/// non-negative level whose experience `16 * level^2` reaches `xp`; 0 for
/// `xp <= 0`.
pub fn level_from_xp(xp: i32) -> (level: i32)
    ensures
        is_ceil_root(16, xp as int, level as int),
{
    ceil_root(16, xp as i64) as i32
}

/// The experience of a level: `(level / 0.25)^2 = 16 * level^2`, saturating
/// at `i32::MAX`.
pub fn xp_from_level(level: i32) -> (xp: i32)
    ensures
        xp == xp_for_level(level as int),
{
    let l = level as i128;
    proof {
        assert(16 * l * l <= 16 * 2147483648 * 2147483648) by (nonlinear_arith)
            requires
                -2147483648 <= l <= 2147483647,
        ;
        assert(16 * l * l >= 0) by (nonlinear_arith);
    }
    let sq = 16 * l * l;
    if sq <= 2147483647 {
        sq as i32
    } else {
        2147483647
    }
}

/// The experience of a level on the second curve, `25 * level * (level - 1)`,
/// saturating at `i32::MAX`. The level must be small enough that
/// `level^2 + level` fits in an `i32`.
pub fn lvl_xp(level: i32) -> (xp: i32)
    requires
        level * level + level <= 2147483647,
        level * level <= 2147483647,
    ensures
        xp == curve_xp(level as int),
{
    let l = level as i64;
    proof {
        assert(-46341 <= l <= 46341) by (nonlinear_arith)
            requires
                l * l <= 2147483647,
        ;
        assert(25 * l * (l - 1) <= 25 * 46341 * 46342) by (nonlinear_arith)
            requires
                -46341 <= l <= 46341,
        ;
        assert(25 * l * (l - 1) >= 0) by (nonlinear_arith);
    }
    let v = 25 * l * (l - 1);
    if v <= 2147483647 {
        v as i32
    } else {
        2147483647
    }
}

/// The level of `xp` experience on the second curve:
/// `ceil(sqrt(100 * (xp + 25)) / 50)`, the least non-negative level `l` with
/// `25 * l^2 >= xp + 25`; 0 when `xp + 25 <= 0`. `2 * (xp + 25)` must fit in
/// an `i32`.
pub fn xp_lvl(xp: i32) -> (level: i32)
    requires
        -2147483648 <= 2 * (xp + 25) <= 2147483647,
    ensures
        is_ceil_root(25, xp + 25, level as int),
{
    ceil_root(25, xp as i64 + 25) as i32
}

/// Experience and level undo each other on the first curve: the level of the
/// experience of any level `level >= 0` (whose experience fits in an `i32`)
/// is that level, and no other.
pub proof fn lemma_level_of_level_xp(level: int)
    requires
        0 <= level,
        16 * level * level <= 2147483647,
    ensures
        is_ceil_root(16, xp_for_level(level), level),
        forall|l: int| #[trigger] is_ceil_root(16, xp_for_level(level), l) ==> l == level,
{
    assert(level == 0 || 16 * (level - 1) * (level - 1) < 16 * level * level) by (nonlinear_arith)
        requires
            level >= 0,
    ;
    assert forall|l: int| #[trigger] is_ceil_root(16, xp_for_level(level), l) implies l == level by {
        lemma_ceil_root_unique(16, xp_for_level(level), l, level);
    }
}

/// Experience and level undo each other on the second curve: for every
/// `level >= 1` whose computations stay in range, the level of its
/// experience is that level, and no other. (Level 0 maps to 0 experience,
/// whose level is 1.)
pub proof fn lemma_curve_level_of_curve_xp(level: int)
    requires
        1 <= level,
        25 * level * (level - 1) <= 2147483647,
        2 * (25 * level * (level - 1) + 25) <= 2147483647,
    ensures
        is_ceil_root(25, curve_xp(level) + 25, level),
        forall|l: int| #[trigger] is_ceil_root(25, curve_xp(level) + 25, l) ==> l == level,
{
    assert(25 * level * level >= 25 * level * (level - 1) + 25) by (nonlinear_arith)
        requires
            level >= 1,
    ;
    assert(25 * (level - 1) * (level - 1) < 25 * level * (level - 1) + 25) by (nonlinear_arith)
        requires
            level >= 1,
    ;
    assert forall|l: int| #[trigger] is_ceil_root(25, curve_xp(level) + 25, l) implies l == level by {
        lemma_ceil_root_unique(25, curve_xp(level) + 25, l, level);
    }
}

} // verus!
