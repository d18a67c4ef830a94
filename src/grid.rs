use vstd::prelude::*;

use crate::brush::{
    circle_offsets,
    clamp,
    clamp_index,
    in_circle,
    is_circle_offsets,
    lemma_circle_within_radius,
    square_high,
    square_low,
    square_span,
    Brush,
};
use crate::color::Color;

verus! {

/// A square canvas of colored cells, stored column by column:
/// `cells[x][y]` is the cell in column `x`, row `y`.
pub struct Grid {
    cells: Vec<Vec<Color>>,
}

/// `cells` is a valid canvas: between 1 and the largest size columns, each
/// as long as there are columns.
pub open spec fn is_canvas(cells: Seq<Seq<Color>>) -> bool {
    &&& 1 <= cells.len() <= crate::MAX_GRID_SIZE
    &&& forall|x: int| 0 <= x < cells.len() ==> (#[trigger] cells[x]).len() == cells.len()
}

/// A canvas of `n` by `n` cells, all of the background color.
pub open spec fn blank(n: nat) -> Seq<Seq<Color>> {
    Seq::new(n, |x: int| Seq::new(n, |y: int| Color::background()))
}

/// A reset canvas of side `n` is a valid canvas of exactly `n * n` cells,
/// `n` columns of `n` rows, and every one of them holds the background color.
pub proof fn lemma_blank_canvas(n: nat)
    requires
        1 <= n <= crate::MAX_GRID_SIZE,
    ensures
        is_canvas(blank(n)),
        blank(n).len() == n,
        forall|x: int| 0 <= x < n ==> (#[trigger] blank(n)[x]).len() == n,
        forall|x: int, y: int| 0 <= x < n && 0 <= y < n ==> #[trigger] blank(n)[x][y] == Color::background(),
{
}

/// Cell `(x, y)` of a grid of `grid_size` is painted by a brush stamped with
/// its logical center on cell `(cx, cy)`.
///
/// A square brush paints the rectangle its span gives on each axis; a circle
/// brush paints each of its offsets, moved onto the nearest cell of the grid.
pub open spec fn covers(
    brush: Brush,
    size: int,
    cx: int,
    cy: int,
    grid_size: int,
    x: int,
    y: int,
) -> bool {
    match brush {
        Brush::Square => {
            &&& square_low(cx, size) <= x < square_high(cx, size, grid_size)
            &&& square_low(cy, size) <= y < square_high(cy, size, grid_size)
        },
        Brush::Circle => exists|dx: int, dy: int|
            {
                &&& #[trigger] in_circle(size, dx, dy)
                &&& clamp(cx + dx, 0, grid_size - 1) == x
                &&& clamp(cy + dy, 0, grid_size - 1) == y
            },
    }
}

/// `cells` after a brush stamp of `color` centered on `(cx, cy)`.
pub open spec fn stamped(
    cells: Seq<Seq<Color>>,
    brush: Brush,
    size: int,
    cx: int,
    cy: int,
    color: Color,
) -> Seq<Seq<Color>> {
    Seq::new(
        cells.len(),
        |x: int|
            Seq::new(
                cells[x].len(),
                |y: int|
                    if covers(brush, size, cx, cy, cells.len() as int, x, y) {
                        color
                    } else {
                        cells[x][y]
                    },
            ),
    )
}

/// A circle stamp skips no offset: the cell each offset lands on, after
/// being moved onto the grid, takes the color, and it is always a valid cell.
pub proof fn lemma_circle_stamp_clamps(
    cells: Seq<Seq<Color>>,
    size: int,
    cx: int,
    cy: int,
    color: Color,
    dx: int,
    dy: int,
)
    requires
        is_canvas(cells),
        in_circle(size, dx, dy),
    ensures
        ({
            let n = cells.len() as int;
            let x = clamp(cx + dx, 0, n - 1);
            let y = clamp(cy + dy, 0, n - 1);
            &&& 0 <= x < n
            &&& 0 <= y < n
            &&& stamped(cells, Brush::Circle, size, cx, cy, color)[x][y] == color
        }),
{
    let n = cells.len() as int;
    let x = clamp(cx + dx, 0, n - 1);
    assert(cells[x].len() == n);
    assert(covers(Brush::Circle, size, cx, cy, n, x, clamp(cy + dy, 0, n - 1)));
}

/// Some offset among the first `n` of `offsets`, moved from `(cx, cy)` and
/// onto the grid, lands on `(x, y)`.
spec fn hit_by(
    offsets: Seq<(i32, i32)>,
    n: int,
    cx: int,
    cy: int,
    grid_size: int,
    x: int,
    y: int,
) -> bool {
    exists|k: int|
        {
            &&& 0 <= k < n
            &&& clamp(cx + (#[trigger] offsets[k]).0, 0, grid_size - 1) == x
            &&& clamp(cy + offsets[k].1, 0, grid_size - 1) == y
        }
}

impl View for Grid {
    type V = Seq<Seq<Color>>;

    closed spec fn view(&self) -> Seq<Seq<Color>> {
        self.cells@.map_values(|c: Vec<Color>| c@)
    }
}

/// A column of `n` background cells.
fn blank_column(n: usize) -> (r: Vec<Color>)
    ensures
        r@ == Seq::new(n as nat, |y: int| Color::background()),
{
    let mut col: Vec<Color> = Vec::new();
    while col.len() < n
        invariant
            col.len() <= n,
            forall|y: int| 0 <= y < col.len() ==> col@[y] == Color::background(),
        decreases n - col.len(),
    {
        col.push(Color::black());
    }
    assert(col@ =~= Seq::new(n as nat, |y: int| Color::background()));
    col
}

impl Grid {
    pub open spec fn wf(&self) -> bool {
        is_canvas(self@)
    }

    /// A canvas of `grid_size` by `grid_size` background cells.
    pub fn new(grid_size: usize) -> (g: Grid)
        requires
            1 <= grid_size <= crate::MAX_GRID_SIZE,
        ensures
            g.wf(),
            g@ == blank(grid_size as nat),
    {
        let mut cells: Vec<Vec<Color>> = Vec::new();
        while cells.len() < grid_size
            invariant
                cells.len() <= grid_size,
                forall|x: int|
                    0 <= x < cells.len() ==> (#[trigger] cells@[x])@ == Seq::new(
                        grid_size as nat,
                        |y: int| Color::background(),
                    ),
            decreases grid_size - cells.len(),
        {
            let col = blank_column(grid_size);
            cells.push(col);
        }
        let g = Grid { cells };
        assert(g@ =~= blank(grid_size as nat));
        g
    }

    /// Discards every color and makes the canvas `grid_size` by `grid_size`
    /// background cells, whatever it held before.
    pub fn reset(&mut self, grid_size: usize)
        requires
            1 <= grid_size <= crate::MAX_GRID_SIZE,
        ensures
            final(self).wf(),
            final(self)@ == blank(grid_size as nat),
    {
        *self = Grid::new(grid_size);
    }

    /// Changes the side length; no color survives, even at the same size.
    pub fn resize(&mut self, new_size: usize)
        requires
            1 <= new_size <= crate::MAX_GRID_SIZE,
        ensures
            final(self).wf(),
            final(self)@ == blank(new_size as nat),
    {
        self.reset(new_size);
    }

    /// The number of columns, which is also the number of rows.
    pub fn size(&self) -> (n: usize)
        requires
            self.wf(),
        ensures
            n == self@.len(),
    {
        self.cells.len()
    }

    /// The color of the cell in column `x`, row `y`.
    pub fn get(&self, x: usize, y: usize) -> (c: Color)
        requires
            self.wf(),
            x < self@.len(),
            y < self@.len(),
        ensures
            c == self@[x as int][y as int],
    {
        assert(self.cells@[x as int]@ == self@[x as int]);
        self.cells[x][y]
    }

    /// The cells of column `x`, from the bottom row up.
    pub(crate) fn column(&self, x: usize) -> (c: &Vec<Color>)
        requires
            self.wf(),
            x < self@.len(),
        ensures
            c@ == self@[x as int],
    {
        &self.cells[x]
    }

    /// Colors the cell in column `x`, row `y`.
    pub fn set(&mut self, x: usize, y: usize, color: Color)
        requires
            old(self).wf(),
            x < old(self)@.len(),
            y < old(self)@.len(),
        ensures
            final(self).wf(),
            final(self)@ == old(self)@.update(x as int, old(self)@[x as int].update(y as int, color)),
    {
        let ghost before = self@;
        assert(self.cells@[x as int]@ == self@[x as int]);
        self.cells[x][y] = color;
        assert(self@ =~= before.update(x as int, before[x as int].update(y as int, color)));
        assert(self@.len() == before.len());
        assert forall|i: int| 0 <= i < self@.len() implies (#[trigger] self@[i]).len() == self@.len() by {
            if i != x {
                assert(self@[i] == before[i]);
            }
        }
    }

    /// Stamps a square brush of `size` centered on cell `(cx, cy)`; the span
    /// on each axis is limited to the grid.
    fn paint_square(&mut self, size: usize, cx: i32, cy: i32, color: Color)
        requires
            old(self).wf(),
            size <= crate::MAX_GRID_SIZE,
        ensures
            final(self).wf(),
            final(self)@ == stamped(old(self)@, Brush::Square, size as int, cx as int, cy as int, color),
    {
        let ghost before = self@;
        let n = self.size();
        let (x_low, x_high) = square_span(cx, size, n);
        let (y_low, y_high) = square_span(cy, size, n);
        let mut x: usize = x_low;
        while x < x_high
            invariant
                self.wf(),
                self@.len() == n,
                before.len() == n,
                is_canvas(before),
                x_high <= n,
                x_low <= x,
                x <= x_high || x == x_low,
                x_low == square_low(cx as int, size as int),
                x_high == square_high(cx as int, size as int, n as int),
                y_low == square_low(cy as int, size as int),
                y_high == square_high(cy as int, size as int, n as int),
                forall|i: int, j: int|
                    0 <= i < n && 0 <= j < n ==> #[trigger] self@[i][j] == if x_low <= i < x
                        && y_low <= j < y_high {
                        color
                    } else {
                        before[i][j]
                    },
            decreases x_high - x,
        {
            let mut y: usize = y_low;
            while y < y_high
                invariant
                    self.wf(),
                    self@.len() == n,
                    before.len() == n,
                    is_canvas(before),
                is_canvas(before),
                    x < x_high <= n,
                    y_high <= n,
                    x_low <= x,
                    y_low <= y,
                    y <= y_high || y == y_low,
                    forall|i: int, j: int|
                        0 <= i < n && 0 <= j < n ==> #[trigger] self@[i][j] == if (x_low <= i < x
                            && y_low <= j < y_high) || (i == x && y_low <= j < y) {
                            color
                        } else {
                            before[i][j]
                        },
                decreases y_high - y,
            {
                self.set(x, y, color);
                y = y + 1;
            }
            x = x + 1;
        }
        assert(self@ =~= stamped(before, Brush::Square, size as int, cx as int, cy as int, color)) by {
            assert forall|i: int| 0 <= i < n implies #[trigger] self@[i] =~= stamped(
                before,
                Brush::Square,
                size as int,
                cx as int,
                cy as int,
                color,
            )[i] by {
                assert(before[i].len() == n);
            }
        }
    }

    /// Stamps a circle brush of diameter `size` centered on cell `(cx, cy)`;
    /// each offset that falls outside the grid lands on the nearest edge cell.
    fn paint_circle(&mut self, size: usize, cx: i32, cy: i32, color: Color)
        requires
            old(self).wf(),
            size <= crate::MAX_GRID_SIZE,
        ensures
            final(self).wf(),
            final(self)@ == stamped(old(self)@, Brush::Circle, size as int, cx as int, cy as int, color),
    {
        let ghost before = self@;
        let n = self.size();
        let offsets = circle_offsets(size);
        let mut k: usize = 0;
        while k < offsets.len()
            invariant
                self.wf(),
                self@.len() == n,
                before.len() == n,
                is_canvas(before),
                1 <= n <= crate::MAX_GRID_SIZE,
                k <= offsets.len(),
                is_circle_offsets(size as int, offsets@),
                forall|i: int, j: int|
                    0 <= i < n && 0 <= j < n ==> #[trigger] self@[i][j] == if hit_by(
                        offsets@,
                        k as int,
                        cx as int,
                        cy as int,
                        n as int,
                        i,
                        j,
                    ) {
                        color
                    } else {
                        before[i][j]
                    },
            decreases offsets.len() - k,
        {
            let (dx, dy) = offsets[k];
            let tx = clamp_index(cx as i64 + dx as i64, n);
            let ty = clamp_index(cy as i64 + dy as i64, n);
            let ghost mid = self@;
            self.set(tx, ty, color);
            assert forall|i: int, j: int| 0 <= i < n && 0 <= j < n implies #[trigger] self@[i][j]
                == if hit_by(offsets@, k + 1, cx as int, cy as int, n as int, i, j) {
                color
            } else {
                before[i][j]
            } by {
                if i == tx && j == ty {
                    assert(offsets@[k as int] == (dx, dy));
                    assert(hit_by(offsets@, k + 1, cx as int, cy as int, n as int, i, j));
                } else {
                    assert(self@[i][j] == mid[i][j]);
                    if hit_by(offsets@, k + 1, cx as int, cy as int, n as int, i, j) {
                        let w = choose|w: int|
                            {
                                &&& 0 <= w < k + 1
                                &&& clamp(cx + (#[trigger] offsets@[w]).0, 0, n - 1) == i
                                &&& clamp(cy + offsets@[w].1, 0, n - 1) == j
                            };
                        assert(w != k);
                        assert(hit_by(offsets@, k as int, cx as int, cy as int, n as int, i, j));
                    }
                    if hit_by(offsets@, k as int, cx as int, cy as int, n as int, i, j) {
                        let w = choose|w: int|
                            {
                                &&& 0 <= w < k
                                &&& clamp(cx + (#[trigger] offsets@[w]).0, 0, n - 1) == i
                                &&& clamp(cy + offsets@[w].1, 0, n - 1) == j
                            };
                        assert(hit_by(offsets@, k + 1, cx as int, cy as int, n as int, i, j));
                    }
                }
            }
            k = k + 1;
        }
        let ghost target = stamped(before, Brush::Circle, size as int, cx as int, cy as int, color);
        assert forall|i: int, j: int| 0 <= i < n && 0 <= j < n implies hit_by(
            offsets@,
            offsets@.len() as int,
            cx as int,
            cy as int,
            n as int,
            i,
            j,
        ) == covers(Brush::Circle, size as int, cx as int, cy as int, n as int, i, j) by {
            if hit_by(offsets@, offsets@.len() as int, cx as int, cy as int, n as int, i, j) {
                let w = choose|w: int|
                    {
                        &&& 0 <= w < offsets@.len()
                        &&& clamp(cx + (#[trigger] offsets@[w]).0, 0, n - 1) == i
                        &&& clamp(cy + offsets@[w].1, 0, n - 1) == j
                    };
                assert(in_circle(size as int, offsets@[w].0 as int, offsets@[w].1 as int));
            }
            if covers(Brush::Circle, size as int, cx as int, cy as int, n as int, i, j) {
                let (dx, dy) = choose|dx: int, dy: int|
                    {
                        &&& #[trigger] in_circle(size as int, dx, dy)
                        &&& clamp(cx + dx, 0, n - 1) == i
                        &&& clamp(cy + dy, 0, n - 1) == j
                    };
                lemma_circle_within_radius(size as int, dx, dy);
                let p: (i32, i32) = (dx as i32, dy as i32);
                assert(in_circle(size as int, p.0 as int, p.1 as int));
                assert(offsets@.contains(p));
                let w = choose|w: int| 0 <= w < offsets@.len() && offsets@[w] == p;
                assert(hit_by(offsets@, offsets@.len() as int, cx as int, cy as int, n as int, i, j));
            }
        }
        assert(self@ =~= target) by {
            assert forall|i: int| 0 <= i < n implies #[trigger] self@[i] =~= target[i] by {
                assert(before[i].len() == n);
            }
        }
    }

    /// Stamps `brush` of `size` centered on cell `(cx, cy)` with `color`.
    /// Cells outside the grid are never touched: a square's span is cut at
    /// the edges, and a circle's offsets are moved onto the nearest edge cell.
    pub fn paint(&mut self, brush: Brush, size: usize, cx: i32, cy: i32, color: Color)
        requires
            old(self).wf(),
            size <= crate::MAX_GRID_SIZE,
        ensures
            final(self).wf(),
            final(self)@ == stamped(old(self)@, brush, size as int, cx as int, cy as int, color),
    {
        match brush {
            Brush::Square => self.paint_square(size, cx, cy, color),
            Brush::Circle => self.paint_circle(size, cx, cy, color),
        }
    }
}

} // verus!
