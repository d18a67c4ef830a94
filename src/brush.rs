use vstd::prelude::*;

verus! {

/// The shape of the brush.
#[derive(Clone, Copy, Debug, PartialEq, Eq, Structural)]
pub enum Brush {
    Square,
    Circle,
}

/// `(dx, dy)` lies within the circle of the given diameter around the origin:
/// `dx² + dy² <= (diameter / 2)²`, with the radius taken exactly (not truncated).
pub open spec fn in_circle(diameter: int, dx: int, dy: int) -> bool {
    4 * (dx * dx + dy * dy) <= diameter * diameter
}

/// Lexicographic order on offsets: first by `dx`, then by `dy`.
pub open spec fn offset_before(a: (i32, i32), b: (i32, i32)) -> bool {
    a.0 < b.0 || (a.0 == b.0 && a.1 < b.1)
}

/// The lattice points of a circle of the given diameter, in lexicographic order.
pub open spec fn is_circle_offsets(diameter: int, r: Seq<(i32, i32)>) -> bool {
    &&& forall|i: int|
        0 <= i < r.len() ==> {
            &&& in_circle(diameter, #[trigger] r[i].0 as int, r[i].1 as int)
            &&& -(diameter / 2) <= r[i].0 <= diameter / 2
            &&& -(diameter / 2) <= r[i].1 <= diameter / 2
        }
    &&& forall|dx: i32, dy: i32| in_circle(diameter, dx as int, dy as int) ==> #[trigger] r.contains((dx, dy))
    &&& forall|i: int, j: int| 0 <= i < j < r.len() ==> offset_before(#[trigger] r[i], #[trigger] r[j])
}

/// `v` limited to `[lo, hi]`.
pub open spec fn clamp(v: int, lo: int, hi: int) -> int {
    if v < lo {
        lo
    } else if v > hi {
        hi
    } else {
        v
    }
}

/// First column (or row) a square brush of `size` centered on `center` paints:
/// `ceil(center - size / 2)`, and never below zero.
pub open spec fn square_low(center: int, size: int) -> int {
    if center - size / 2 < 0 {
        0
    } else {
        center - size / 2
    }
}

/// One past the last column (or row) a square brush paints:
/// `center + ceil(size / 2)`, limited to `[0, grid_size]`.
pub open spec fn square_high(center: int, size: int, grid_size: int) -> int {
    clamp(center + (size + 1) / 2, 0, grid_size)
}

proof fn lemma_axis_within_radius(diameter: int, v: int)
    requires
        0 <= diameter,
        4 * (v * v) <= diameter * diameter,
    ensures
        -(diameter / 2) <= v <= diameter / 2,
{
    let r = diameter / 2;
    assert((2 * v) * (2 * v) == 4 * (v * v)) by (nonlinear_arith);
    assert((-2 * v) * (-2 * v) == 4 * (v * v)) by (nonlinear_arith);
    if v > r {
        assert((2 * v) * (2 * v) > diameter * diameter) by (nonlinear_arith)
            requires
                2 * v >= diameter + 1,
                diameter >= 0,
        ;
    }
    if v < -r {
        assert((-2 * v) * (-2 * v) > diameter * diameter) by (nonlinear_arith)
            requires
                -2 * v >= diameter + 1,
                diameter >= 0,
        ;
    }
}

/// Every point of a circle lies within the truncated radius on both axes.
pub proof fn lemma_circle_within_radius(diameter: int, dx: int, dy: int)
    requires
        0 <= diameter,
        in_circle(diameter, dx, dy),
    ensures
        -(diameter / 2) <= dx <= diameter / 2,
        -(diameter / 2) <= dy <= diameter / 2,
{
    assert(0 <= dy * dy) by (nonlinear_arith);
    assert(0 <= dx * dx) by (nonlinear_arith);
    lemma_axis_within_radius(diameter, dx);
    lemma_axis_within_radius(diameter, dy);
}

/// The offsets `(dx, dy)` a circle brush of `diameter` covers: every lattice
/// point with `dx² + dy² <= (diameter / 2)²`, scanning `dx` and `dy` from
/// `-radius` to `radius` with the truncated radius.
pub fn circle_offsets(diameter: usize) -> (r: Vec<(i32, i32)>)
    requires
        diameter <= crate::MAX_GRID_SIZE,
    ensures
        is_circle_offsets(diameter as int, r@),
{
    let d: i32 = diameter as i32;
    let radius: i32 = d / 2;
    let mut points: Vec<(i32, i32)> = Vec::new();
    let mut x: i32 = -radius;
    assert forall|dx: i32, dy: i32|
        dx < x && in_circle(d as int, dx as int, dy as int) implies #[trigger] points@.contains(
        (dx, dy),
    ) by {
        lemma_circle_within_radius(d as int, dx as int, dy as int);
    }
    while x <= radius
        invariant
            0 <= d <= 64,
            radius == d / 2,
            -radius <= x <= radius + 1,
            forall|i: int|
                0 <= i < points.len() ==> {
                    &&& in_circle(d as int, #[trigger] points[i].0 as int, points[i].1 as int)
                    &&& -radius <= points[i].0 < x
                    &&& -radius <= points[i].1 <= radius
                },
            forall|dx: i32, dy: i32|
                dx < x && in_circle(d as int, dx as int, dy as int) ==> #[trigger] points@.contains(
                    (dx, dy),
                ),
            forall|i: int, j: int|
                0 <= i < j < points.len() ==> offset_before(#[trigger] points[i], #[trigger] points[j]),
        decreases radius + 1 - x,
    {
        let mut y: i32 = -radius;
        assert forall|dx: i32, dy: i32|
            (dx < x || (dx == x && dy < y)) && in_circle(
                d as int,
                dx as int,
                dy as int,
            ) implies #[trigger] points@.contains((dx, dy)) by {
            lemma_circle_within_radius(d as int, dx as int, dy as int);
        }
        while y <= radius
            invariant
                0 <= d <= 64,
                radius == d / 2,
                -radius <= x <= radius,
                -radius <= y <= radius + 1,
                forall|i: int|
                    0 <= i < points.len() ==> {
                        &&& in_circle(d as int, #[trigger] points[i].0 as int, points[i].1 as int)
                        &&& -radius <= points[i].0 <= x
                        &&& -radius <= points[i].1 <= radius
                        &&& offset_before(points[i], (x, y))
                    },
                forall|dx: i32, dy: i32|
                    (dx < x || (dx == x && dy < y)) && in_circle(d as int, dx as int, dy as int)
                        ==> #[trigger] points@.contains((dx, dy)),
                forall|i: int, j: int|
                    0 <= i < j < points.len() ==> offset_before(
                        #[trigger] points[i],
                        #[trigger] points[j],
                    ),
            decreases radius + 1 - y,
        {
            assert(-32 <= x <= 32 && -32 <= y <= 32);
            assert(0 <= d * d <= 4096) by (nonlinear_arith)
                requires
                    0 <= d <= 64,
            ;
            assert(0 <= x * x <= 1024 && 0 <= y * y <= 1024) by (nonlinear_arith)
                requires
                    -32 <= x <= 32,
                    -32 <= y <= 32,
            ;
            if 4 * (x * x + y * y) <= d * d {
                let ghost before = points@;
                points.push((x, y));
                assert forall|dx: i32, dy: i32|
                    (dx < x || (dx == x && dy < y + 1)) && in_circle(
                        d as int,
                        dx as int,
                        dy as int,
                    ) implies #[trigger] points@.contains((dx, dy)) by {
                    if dx == x && dy == y {
                        assert(points@[before.len() as int] == (dx, dy));
                    } else {
                        assert(before.contains((dx, dy)));
                        let k = choose|k: int| 0 <= k < before.len() && before[k] == (dx, dy);
                        assert(points@[k] == (dx, dy));
                    }
                }
            } else {
                assert forall|dx: i32, dy: i32|
                    (dx < x || (dx == x && dy < y + 1)) && in_circle(
                        d as int,
                        dx as int,
                        dy as int,
                    ) implies #[trigger] points@.contains((dx, dy)) by {
                    if dx == x && dy == y {
                        assert(false);
                    }
                }
            }
            y = y + 1;
        }
        assert forall|dx: i32, dy: i32|
            dx < x + 1 && in_circle(d as int, dx as int, dy as int) implies #[trigger] points@.contains(
            (dx, dy),
        ) by {
            lemma_circle_within_radius(d as int, dx as int, dy as int);
        }
        x = x + 1;
    }
    assert forall|dx: i32, dy: i32| in_circle(d as int, dx as int, dy as int) implies #[trigger] points@.contains(
        (dx, dy),
    ) by {
        lemma_circle_within_radius(d as int, dx as int, dy as int);
    }
    points
}

/// `v` limited to the valid indices `[0, grid_size - 1]` of a grid.
pub fn clamp_index(v: i64, grid_size: usize) -> (r: usize)
    requires
        1 <= grid_size <= crate::MAX_GRID_SIZE,
    ensures
        r == clamp(v as int, 0, grid_size - 1),
{
    if v < 0 {
        0
    } else if v > grid_size as i64 - 1 {
        grid_size - 1
    } else {
        v as usize
    }
}

/// The half-open range `[low, high)` of columns (or rows) a square brush of
/// `size` centered on `center` paints in a grid of `grid_size`.
pub fn square_span(center: i32, size: usize, grid_size: usize) -> (r: (usize, usize))
    requires
        size <= crate::MAX_GRID_SIZE,
        grid_size <= crate::MAX_GRID_SIZE,
    ensures
        r.0 == square_low(center as int, size as int),
        r.1 == square_high(center as int, size as int, grid_size as int),
{
    let c: i64 = center as i64;
    let s: i64 = size as i64;
    let low_raw: i64 = c - s / 2;
    let high_raw: i64 = c + (s + 1) / 2;
    let low: usize = if low_raw < 0 {
        0
    } else {
        low_raw as usize
    };
    let high: usize = if high_raw < 0 {
        0
    } else if high_raw > grid_size as i64 {
        grid_size
    } else {
        high_raw as usize
    };
    (low, high)
}

} // verus!
