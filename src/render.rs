use vstd::prelude::*;

use crate::brush::{circle_offsets, is_circle_offsets, Brush};
use crate::color::Color;
use crate::grid::{is_canvas, Grid};

verus! {

/// One draw rectangle: `height` cells of column `column`, starting at `row`
/// and going up, all of `color`.
#[derive(Clone, Copy, Debug, PartialEq, Eq, Structural)]
pub struct RenderRect {
    pub column: usize,
    pub row: usize,
    pub height: usize,
    pub color: Color,
}

/// The number of consecutive cells of `col`, from `start` on, that hold `c`.
pub open spec fn run_length(col: Seq<Color>, c: Color, start: int) -> nat
    decreases col.len() - start,
{
    if 0 <= start < col.len() && col[start] == c {
        1 + run_length(col, c, start + 1)
    } else {
        0
    }
}

/// The runs of `col` from row `start` on, scanning upward: each run is as
/// long as the cells keep the color of its first cell.
pub open spec fn column_runs(col: Seq<Color>, column: int, start: int) -> Seq<RenderRect>
    decreases col.len() - start
    via column_runs_decreases
{
    if 0 <= start < col.len() {
        let h = run_length(col, col[start], start);
        seq![RenderRect { column: column as usize, row: start as usize, height: h as usize, color: col[start] }]
            + column_runs(col, column, start + h)
    } else {
        Seq::empty()
    }
}

#[via_fn]
proof fn column_runs_decreases(col: Seq<Color>, column: int, start: int) {
    if 0 <= start < col.len() {
        assert(run_length(col, col[start], start) >= 1);
        lemma_run_length(col, col[start], start);
    }
}

/// The runs of every column of `cells` from column `from` on, column by column.
pub open spec fn grid_runs(cells: Seq<Seq<Color>>, from: int) -> Seq<RenderRect>
    decreases cells.len() - from,
{
    if 0 <= from < cells.len() {
        column_runs(cells[from], from, 0) + grid_runs(cells, from + 1)
    } else {
        Seq::empty()
    }
}

/// A run ends at the end of the column or at the first cell of another color.
pub proof fn lemma_run_length(col: Seq<Color>, c: Color, start: int)
    requires
        0 <= start <= col.len(),
    ensures
        start + run_length(col, c, start) <= col.len(),
        forall|k: int| start <= k < start + run_length(col, c, start) ==> col[k] == c,
        start + run_length(col, c, start) < col.len() ==> col[start + run_length(col, c, start)] != c,
    decreases col.len() - start,
{
    if start < col.len() && col[start] == c {
        lemma_run_length(col, c, start + 1);
    }
}

/// The runs of a column split it into maximal blocks: they start at `start`,
/// each begins where the one before it ends, none is empty, each holds one
/// color throughout, two neighbours never share a color, and the last one
/// ends at the top of the column.
pub proof fn lemma_column_runs_are_maximal(col: Seq<Color>, column: int, start: int)
    requires
        0 <= start <= col.len(),
        col.len() <= crate::MAX_GRID_SIZE,
        0 <= column < crate::MAX_GRID_SIZE,
    ensures
        ({
            let runs = column_runs(col, column, start);
            &&& (runs.len() == 0 <==> start == col.len())
            &&& runs.len() > 0 ==> runs[0].row == start
            &&& runs.len() > 0 ==> runs.last().row + runs.last().height == col.len()
            &&& forall|i: int| 0 <= i < runs.len() ==> (#[trigger] runs[i]).height >= 1
            &&& forall|i: int| 0 <= i < runs.len() ==> (#[trigger] runs[i]).column == column
            &&& forall|i: int, k: int|
                0 <= i < runs.len() && runs[i].row <= k < runs[i].row + runs[i].height
                    ==> #[trigger] col[k] == (#[trigger] runs[i]).color
            &&& forall|i: int|
                0 < i < runs.len() ==> (#[trigger] runs[i]).row == runs[i - 1].row + runs[i - 1].height
            &&& forall|i: int| 0 < i < runs.len() ==> (#[trigger] runs[i]).color != runs[i - 1].color
        }),
    decreases col.len() - start,
{
    if start < col.len() {
        let h = run_length(col, col[start], start);
        lemma_run_length(col, col[start], start);
        lemma_column_runs_are_maximal(col, column, start + h);
        let rest = column_runs(col, column, start + h);
        let runs = column_runs(col, column, start);
        let head = RenderRect {
            column: column as usize,
            row: start as usize,
            height: h as usize,
            color: col[start],
        };
        assert(runs == seq![head] + rest);
        assert forall|i: int| 0 < i < runs.len() implies (#[trigger] runs[i]).row == runs[i
            - 1].row + runs[i - 1].height && runs[i].color != runs[i - 1].color by {
            if i > 1 {
                assert(runs[i] == rest[i - 1]);
                assert(runs[i - 1] == rest[i - 2]);
            } else {
                assert(runs[1] == rest[0]);
                lemma_run_length(col, col[start + h], start + h);
            }
        }
        assert forall|i: int, k: int|
            0 <= i < runs.len() && runs[i].row <= k < runs[i].row + runs[i].height
                implies #[trigger] col[k] == (#[trigger] runs[i]).color by {
            if i > 0 {
                assert(runs[i] == rest[i - 1]);
            }
        }
        if rest.len() > 0 {
            assert(runs.last() == rest.last());
        }
    }
}

/// Compaction depends on the colors alone: two canvases that hold the same
/// colors, such as one canvas compacted twice with nothing painted in
/// between, give the same rectangles in the same order.
pub proof fn lemma_compaction_repeatable(a: Seq<Seq<Color>>, b: Seq<Seq<Color>>)
    requires
        is_canvas(a),
        a =~~= b,
    ensures
        grid_runs(a, 0) == grid_runs(b, 0),
{
    assert(a == b);
}

/// The runs of `col`, from row `start` on, appended to `out`.
fn compact_column(col: &Vec<Color>, column: usize, out: &mut Vec<RenderRect>)
    requires
        col@.len() <= crate::MAX_GRID_SIZE,
        column < crate::MAX_GRID_SIZE,
    ensures
        final(out)@ == old(out)@ + column_runs(col@, column as int, 0),
{
    let n = col.len();
    let ghost whole = old(out)@ + column_runs(col@, column as int, 0);
    let mut y: usize = 0;
    while y < n
        invariant
            n == col@.len(),
            n <= crate::MAX_GRID_SIZE,
            y <= n,
            whole == out@ + column_runs(col@, column as int, y as int),
        decreases n - y,
    {
        let c = col[y];
        let mut end: usize = y;
        while end < n && col[end] == c
            invariant
                n == col@.len(),
                y <= end <= n,
                c == col@[y as int],
                run_length(col@, c, y as int) == (end - y) + run_length(col@, c, end as int),
            decreases n - end,
        {
            end = end + 1;
        }
        proof {
            lemma_run_length(col@, c, y as int);
        }
        let rect = RenderRect { column, row: y, height: end - y, color: c };
        let ghost before = out@;
        out.push(rect);
        assert(column_runs(col@, column as int, y as int) == seq![rect] + column_runs(
            col@,
            column as int,
            end as int,
        ));
        assert(before + column_runs(col@, column as int, y as int) =~= out@ + column_runs(
            col@,
            column as int,
            end as int,
        ));
        y = end;
    }
    assert(out@ =~= whole);
}

impl Grid {
    /// The draw rectangles of the canvas: column by column, left to right,
    /// each column cut into its runs of equal color from the bottom row up.
    /// The canvas is only read, so the same canvas always gives the same list.
    pub fn compact(&self) -> (r: Vec<RenderRect>)
        requires
            self.wf(),
        ensures
            r@ == grid_runs(self@, 0),
    {
        let n = self.size();
        let mut out: Vec<RenderRect> = Vec::new();
        let mut x: usize = 0;
        while x < n
            invariant
                self.wf(),
                n == self@.len(),
                x <= n,
                grid_runs(self@, 0) == out@ + grid_runs(self@, x as int),
            decreases n - x,
        {
            let col = self.column(x);
            let ghost before = out@;
            compact_column(col, x, &mut out);
            assert(before + grid_runs(self@, x as int) =~= out@ + grid_runs(self@, x + 1));
            x = x + 1;
        }
        assert(out@ =~= grid_runs(self@, 0));
        out
    }
}

/// One square of the brush preview: `side` cells wide and high, with its
/// lower-left cell at column `x`, row `y` (possibly outside the grid).
#[derive(Clone, Copy, Debug, PartialEq, Eq, Structural)]
pub struct OverlayRect {
    pub x: i64,
    pub y: i64,
    pub side: usize,
}

/// `r` is the preview of `brush` of `size` around cell `(cx, cy)`.
///
/// A square brush shows as one square of `size` cells whose lower-left cell
/// is `size / 2` cells below and left of the center; a circle brush shows
/// one unit square per offset, in the order of its offsets.
pub open spec fn is_brush_preview(brush: Brush, size: int, cx: int, cy: int, r: Seq<OverlayRect>) -> bool {
    match brush {
        Brush::Square => r == seq![
            OverlayRect { x: (cx - size / 2) as i64, y: (cy - size / 2) as i64, side: size as usize },
        ],
        Brush::Circle => {
            &&& forall|i: int| 0 <= i < r.len() ==> (#[trigger] r[i]).side == 1
            &&& is_circle_offsets(size, r.map_values(|o: OverlayRect| ((o.x - cx) as i32, (o.y - cy) as i32)))
        },
    }
}

/// The overlay that shows where `brush` would paint around cell `(cx, cy)`.
/// It is read-only: nothing is clamped and no cell is touched.
pub fn brush_preview(brush: Brush, size: usize, cx: i32, cy: i32) -> (r: Vec<OverlayRect>)
    requires
        size <= crate::MAX_GRID_SIZE,
    ensures
        is_brush_preview(brush, size as int, cx as int, cy as int, r@),
{
    let mut out: Vec<OverlayRect> = Vec::new();
    match brush {
        Brush::Square => {
            let half: i64 = (size / 2) as i64;
            out.push(OverlayRect { x: cx as i64 - half, y: cy as i64 - half, side: size });
            assert(out@ =~= seq![OverlayRect { x: (cx - size / 2) as i64, y: (cy - size / 2) as i64, side: size }]);
        },
        Brush::Circle => {
            let offsets = circle_offsets(size);
            let mut k: usize = 0;
            while k < offsets.len()
                invariant
                    k <= offsets.len(),
                    out@.len() == k,
                    forall|i: int|
                        0 <= i < k ==> (#[trigger] out@[i]) == (OverlayRect {
                            x: (cx + offsets@[i].0) as i64,
                            y: (cy + offsets@[i].1) as i64,
                            side: 1,
                        }),
                decreases offsets.len() - k,
            {
                let (dx, dy) = offsets[k];
                out.push(OverlayRect { x: cx as i64 + dx as i64, y: cy as i64 + dy as i64, side: 1 });
                k = k + 1;
            }
            assert(out@.map_values(|o: OverlayRect| ((o.x - cx) as i32, (o.y - cy) as i32))
                =~= offsets@);
        },
    }
    out
}

} // verus!
