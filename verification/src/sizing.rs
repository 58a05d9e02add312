//! The geometry of fitting an image into the codec's limits: scaling into a
//! largest edge, scaling into a pixel budget, and the step by which an image
//! shrinks between two encoding attempts. All of it is integer arithmetic,
//! and every step scales both edges by one factor.

use vstd::prelude::*;

verus! {

/// Width and height of an image in pixels.
#[derive(Debug, Clone, Copy, PartialEq, Eq, Structural)]
pub struct Size {
    pub width: u32,
    pub height: u32,
}

/// Whether `root` is the integer square root of `n`, rounded down.
pub open spec fn is_sqrt(n: int, root: int) -> bool {
    0 <= root && root * root <= n < (root + 1) * (root + 1)
}

/// The integer square root of `n`, rounded down.
pub open spec fn sqrt_floor(n: int) -> int {
    choose|root: int| is_sqrt(n, root)
}

/// The bytes that an uncompressed image of this size takes, four for each
/// pixel.
pub open spec fn footprint(size: Size) -> int {
    4 * size.width * size.height
}

/// `edge` scaled by `numer / denom`, rounded down but never to zero.
pub open spec fn scaled_edge(edge: int, numer: int, denom: int) -> int {
    if edge * numer / denom < 1 {
        1
    } else {
        edge * numer / denom
    }
}

/// The size to which an image is scaled so that neither edge exceeds
/// `max_dimension`: unchanged when it fits (or is empty), else both edges
/// scaled by `max_dimension` over the longer edge.
pub open spec fn fitted(size: Size, max_dimension: u32) -> Size {
    if size.width == 0 || size.height == 0 || (size.width <= max_dimension && size.height
        <= max_dimension) {
        size
    } else {
        let longer = if size.width >= size.height {
            size.width
        } else {
            size.height
        };
        Size {
            width: scaled_edge(size.width as int, max_dimension as int, longer as int) as u32,
            height: scaled_edge(size.height as int, max_dimension as int, longer as int) as u32,
        }
    }
}

/// One edge after scaling an image into a pixel budget: `edge` times the
/// square root of `budget` over the footprint, where `other` is the other
/// edge; rounded down but never to zero.
pub open spec fn budget_edge(edge: int, other: int, budget: int) -> int {
    if sqrt_floor(edge * budget / (4 * other)) < 1 {
        1
    } else {
        sqrt_floor(edge * budget / (4 * other))
    }
}

/// The size to which an image is scaled before the first encoding attempt so
/// that its footprint is within `budget`: unchanged when it is (or the image
/// is empty), else both edges scaled by the square root of `budget` over the
/// footprint.
pub open spec fn prescaled(size: Size, budget: u64) -> Size {
    if size.width == 0 || size.height == 0 || footprint(size) <= budget {
        size
    } else {
        Size {
            width: budget_edge(size.width as int, size.height as int, budget as int) as u32,
            height: budget_edge(size.height as int, size.width as int, budget as int) as u32,
        }
    }
}

/// One edge after a shrinking step: seven tenths of it, rounded down, but
/// never zero where it was not.
pub open spec fn shrunk_edge(edge: u32) -> u32 {
    if edge == 0 {
        0
    } else if edge * 7 / 10 < 1 {
        1
    } else {
        (edge * 7 / 10) as u32
    }
}

/// The size of an image after one shrinking step: both edges by the same
/// factor, so that the aspect ratio stays.
pub open spec fn shrunk(size: Size) -> Size {
    Size { width: shrunk_edge(size.width), height: shrunk_edge(size.height) }
}

/// A number has at most one integer square root.
pub proof fn lemma_sqrt_unique(n: int, a: int, b: int)
    requires
        is_sqrt(n, a),
        is_sqrt(n, b),
    ensures
        a == b,
{
    if a < b {
        assert((a + 1) * (a + 1) <= b * b) by (nonlinear_arith)
            requires
                0 <= a,
                a + 1 <= b,
        ;
    } else if b < a {
        assert((b + 1) * (b + 1) <= a * a) by (nonlinear_arith)
            requires
                0 <= b,
                b + 1 <= a,
        ;
    }
}

/// Every natural number has an integer square root.
pub proof fn lemma_sqrt_exists(n: int) -> (root: int)
    requires
        0 <= n,
    ensures
        is_sqrt(n, root),
        root <= n,
    decreases n,
{
    if n == 0 {
        0
    } else {
        let below = lemma_sqrt_exists(n - 1);
        if (below + 1) * (below + 1) <= n {
            assert((below + 2) * (below + 2) > n) by (nonlinear_arith)
                requires
                    0 <= below,
                    n - 1 < (below + 1) * (below + 1),
            ;
            assert(below + 1 <= n) by (nonlinear_arith)
                requires
                    0 <= below,
                    (below + 1) * (below + 1) <= n,
            ;
            below + 1
        } else {
            below
        }
    }
}

/// `sqrt_floor` is the integer square root, and the only one.
pub proof fn lemma_sqrt_floor(n: int, root: int)
    requires
        0 <= n,
    ensures
        is_sqrt(n, sqrt_floor(n)),
        is_sqrt(n, root) ==> sqrt_floor(n) == root,
{
    let witness = lemma_sqrt_exists(n);
    if is_sqrt(n, root) {
        lemma_sqrt_unique(n, sqrt_floor(n), root);
    }
}

/// The integer square root of `n`, rounded down.
pub fn isqrt(n: u64) -> (root: u64)
    ensures
        root == sqrt_floor(n as int),
        is_sqrt(n as int, root as int),
        root <= u32::MAX,
{
    let mut low: u64 = 0;
    let mut high: u64 = 4294967296;
    assert(n < 4294967296 * 4294967296);
    while high - low > 1
        invariant
            low < high <= 4294967296,
            low * low <= n,
            n < high * high,
        decreases high - low,
    {
        let mid = low + (high - low) / 2;
        assert(mid * mid <= 4294967295 * 4294967295) by (nonlinear_arith)
            requires
                0 <= mid <= 4294967295,
        ;
        if mid * mid <= n {
            low = mid;
        } else {
            high = mid;
        }
    }
    proof {
        lemma_sqrt_floor(n as int, low as int);
    }
    low
}

/// Scales one edge by `numer / denom`.
fn scale_edge(edge: u32, numer: u32, denom: u32) -> (out: u32)
    requires
        1 <= edge <= denom,
    ensures
        out == scaled_edge(edge as int, numer as int, denom as int),
        1 <= out,
        out <= numer || out == 1,
        numer <= denom ==> out <= edge,
        edge == denom && numer >= 1 ==> out == numer,
{
    assert(edge * numer <= 4294967295 * 4294967295) by (nonlinear_arith)
        requires
            0 <= edge <= 4294967295,
            0 <= numer <= 4294967295,
    ;
    let product = edge as u64 * numer as u64;
    let quotient = product / (denom as u64);
    assert(quotient <= numer) by (nonlinear_arith)
        requires
            quotient == (edge * numer) / (denom as int),
            1 <= edge <= denom,
            0 <= numer,
    ;
    assert(numer <= denom ==> quotient <= edge) by (nonlinear_arith)
        requires
            quotient == (edge * numer) / (denom as int),
            1 <= edge <= denom,
            0 <= numer,
    ;
    assert(edge == denom ==> quotient == numer) by (nonlinear_arith)
        requires
            quotient == (edge * numer) / (denom as int),
            1 <= edge <= denom,
            0 <= numer,
    ;
    if quotient < 1 {
        1
    } else {
        quotient as u32
    }
}

/// Scales `size` so that neither edge exceeds `max_dimension`, keeping the
/// aspect ratio. An image that is scaled comes out as large as fits: its
/// longer edge is `max_dimension`.
pub fn fit_within(size: Size, max_dimension: u32) -> (out: Size)
    ensures
        out == fitted(size, max_dimension),
        size.width >= 1 && size.height >= 1 && max_dimension >= 1 ==> {
            &&& 1 <= out.width <= size.width
            &&& 1 <= out.height <= size.height
            &&& out.width <= max_dimension
            &&& out.height <= max_dimension
            &&& out != size ==> out.width == max_dimension || out.height == max_dimension
        },
{
    if size.width == 0 || size.height == 0 || (size.width <= max_dimension && size.height
        <= max_dimension) {
        return size;
    }
    let longer = if size.width >= size.height {
        size.width
    } else {
        size.height
    };
    Size {
        width: scale_edge(size.width, max_dimension, longer),
        height: scale_edge(size.height, max_dimension, longer),
    }
}

/// Scales one edge by the square root of `budget` over the footprint.
fn budget_scale(edge: u32, other: u32, budget: u64) -> (out: u32)
    requires
        1 <= edge,
        1 <= other,
        4 * edge * other > budget,
    ensures
        out == budget_edge(edge as int, other as int, budget as int),
        1 <= out <= edge,
        out == 1 || 4 * other * (out * out) <= edge * budget,
{
    assert(edge * budget <= 4294967295 * 18446744073709551615) by (nonlinear_arith)
        requires
            0 <= edge <= 4294967295,
            0 <= budget <= 18446744073709551615,
    ;
    let product = edge as u128 * budget as u128;
    let quotient = product / (4 * other as u128);
    assert(quotient < edge * edge && 4 * other * quotient <= edge * budget) by (nonlinear_arith)
        requires
            quotient == (edge * budget) / (4 * other),
            1 <= edge,
            1 <= other,
            0 <= budget < 4 * edge * other,
    ;
    assert(edge * edge <= 4294967295 * 4294967295) by (nonlinear_arith)
        requires
            0 <= edge <= 4294967295,
    ;
    let root = isqrt(quotient as u64);
    assert(root < edge) by (nonlinear_arith)
        requires
            0 <= root,
            1 <= edge,
            root * root <= quotient,
            quotient < edge * edge,
    ;
    assert(4 * other * (root * root) <= edge * budget) by (nonlinear_arith)
        requires
            1 <= other,
            0 <= root * root <= quotient,
            4 * other * quotient <= edge * budget,
    ;
    if root < 1 {
        1
    } else {
        root as u32
    }
}

/// Scales `size` so that its footprint is within `budget`, keeping the
/// aspect ratio.
pub fn fit_budget(size: Size, budget: u64) -> (out: Size)
    ensures
        out == prescaled(size, budget),
        size.width >= 1 && size.height >= 1 ==> {
            &&& 1 <= out.width <= size.width
            &&& 1 <= out.height <= size.height
        },
        size.width >= 1 && size.height >= 1 && 4 * size.width <= budget && 4 * size.height
            <= budget ==> footprint(out) <= budget,
{
    if size.width == 0 || size.height == 0 {
        return size;
    }
    assert(size.width * size.height <= 4294967295 * 4294967295) by (nonlinear_arith)
        requires
            0 <= size.width <= 4294967295,
            0 <= size.height <= 4294967295,
    ;
    let area = size.width as u64 * size.height as u64;
    assert(footprint(size) == 4 * area) by (nonlinear_arith)
        requires
            footprint(size) == 4 * size.width * size.height,
            area == size.width * size.height,
    ;
    if area <= budget / 4 {
        return size;
    }
    assert(4 * size.width * size.height > budget);
    assert(4 * size.height * size.width > budget) by (nonlinear_arith)
        requires
            4 * size.width * size.height > budget,
    ;
    let width = budget_scale(size.width, size.height, budget);
    let height = budget_scale(size.height, size.width, budget);
    proof {
        if 4 * size.width <= budget && 4 * size.height <= budget {
            lemma_budget_product(
                size.width as int,
                size.height as int,
                width as int,
                height as int,
                budget as int,
            );
        }
    }
    Size { width, height }
}

/// Two edges that were each scaled into the budget span a footprint within
/// the budget.
proof fn lemma_budget_product(w: int, h: int, a: int, b: int, budget: int)
    requires
        1 <= a <= w,
        1 <= b <= h,
        4 * w <= budget,
        4 * h <= budget,
        a == 1 || 4 * h * (a * a) <= w * budget,
        b == 1 || 4 * w * (b * b) <= h * budget,
    ensures
        4 * a * b <= budget,
{
    if a == 1 {
        assert(4 * a * b <= budget) by (nonlinear_arith)
            requires
                a == 1,
                1 <= b <= h,
                4 * h <= budget,
        ;
    } else if b == 1 {
        assert(4 * a * b <= budget) by (nonlinear_arith)
            requires
                b == 1,
                1 <= a <= w,
                4 * w <= budget,
        ;
    } else {
        let x = 4 * h * (a * a);
        let y = 4 * w * (b * b);
        assert(x * y <= (w * budget) * (h * budget)) by (nonlinear_arith)
            requires
                0 <= x <= w * budget,
                0 <= y <= h * budget,
        ;
        assert(x * y == (w * h) * ((4 * a * b) * (4 * a * b))) by (nonlinear_arith)
            requires
                x == 4 * h * (a * a),
                y == 4 * w * (b * b),
        ;
        assert((w * budget) * (h * budget) == (w * h) * (budget * budget)) by (nonlinear_arith);
        let p = 4 * a * b;
        assert(p * p <= budget * budget) by (nonlinear_arith)
            requires
                (w * h) * (p * p) <= (w * h) * (budget * budget),
                1 <= w,
                1 <= h,
        ;
        assert(p <= budget) by (nonlinear_arith)
            requires
                p * p <= budget * budget,
                0 <= p,
                0 <= budget,
        ;
    }
}

/// Shrinks one edge for the next encoding attempt.
fn shrink_edge(edge: u32) -> (out: u32)
    ensures
        out == shrunk_edge(edge),
        out <= edge,
        edge >= 1 ==> out >= 1,
{
    let reduced = (edge as u64 * 7 / 10) as u32;
    if edge == 0 {
        0
    } else if reduced < 1 {
        1
    } else {
        reduced
    }
}

/// Shrinks `size` for the next encoding attempt.
pub fn shrink(size: Size) -> (out: Size)
    ensures
        out == shrunk(size),
        out.width <= size.width,
        out.height <= size.height,
        size.width >= 1 ==> out.width >= 1,
        size.height >= 1 ==> out.height >= 1,
{
    Size { width: shrink_edge(size.width), height: shrink_edge(size.height) }
}

} // verus!
