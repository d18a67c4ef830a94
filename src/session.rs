use vstd::prelude::*;

use crate::brush::{clamp, Brush};
use crate::color::Color;
use crate::geometry::{cell_of, pointer_cell};
use crate::grid::{blank, stamped, Grid};
use crate::render::{brush_preview, grid_runs, is_brush_preview, OverlayRect, RenderRect};

verus! {

/// The side length a new session starts with.
pub const DEFAULT_GRID_SIZE: usize = 16;

/// One input the session reacts to.
#[derive(Clone, Copy, Debug, PartialEq, Eq, Structural)]
pub enum Input {
    PaintPressed,
    PaintReleased,
    ErasePressed,
    EraseReleased,
    ResetRequested,
    ExitRequested,
    GridSizeChanged(usize),
    BrushSizeChanged(usize),
    BrushChanged(Brush),
    PrimaryColorChanged(Color),
    SecondaryColorChanged(Color),
}

/// The canvas and every setting that shapes painting.
pub struct Session {
    pub grid: Grid,
    pub grid_size: usize,
    pub brush: Brush,
    pub brush_size: usize,
    pub primary: Color,
    pub secondary: Color,
    pub painting: bool,
    pub erasing: bool,
    pub reset_pending: bool,
    pub exit_requested: bool,
}

/// An input is in range: sizes between 1 and the grid size.
pub open spec fn valid_input(s: Session, input: Input) -> bool {
    match input {
        Input::GridSizeChanged(n) => 1 <= n <= crate::MAX_GRID_SIZE,
        Input::BrushSizeChanged(n) => 1 <= n <= s.grid_size,
        _ => true,
    }
}

/// The session after `input`. Buttons only set or clear their flag; a reset
/// or a new grid size only marks the canvas for a reset at the next tick.
pub open spec fn after_input(s: Session, input: Input) -> Session {
    match input {
        Input::PaintPressed => Session { painting: true, ..s },
        Input::PaintReleased => Session { painting: false, ..s },
        Input::ErasePressed => Session { erasing: true, ..s },
        Input::EraseReleased => Session { erasing: false, ..s },
        Input::ResetRequested => Session { reset_pending: true, ..s },
        Input::ExitRequested => Session { exit_requested: true, ..s },
        Input::GridSizeChanged(n) => Session { grid_size: n, reset_pending: true, ..s },
        Input::BrushSizeChanged(n) => Session { brush_size: n, ..s },
        Input::BrushChanged(b) => Session { brush: b, ..s },
        Input::PrimaryColorChanged(c) => Session { primary: c, ..s },
        Input::SecondaryColorChanged(c) => Session { secondary: c, ..s },
    }
}

/// The canvas a tick paints on: a fresh one if a reset is pending.
pub open spec fn tick_base(s: Session) -> Seq<Seq<Color>> {
    if s.reset_pending {
        blank(s.grid_size as nat)
    } else {
        s.grid@
    }
}

/// The cell under the pointer on one axis, for a canvas of `n` cells.
pub open spec fn tick_cell(floored: i32, n: int) -> int {
    clamp(pointer_cell(floored as int, n), i32::MIN as int, i32::MAX as int)
}

/// The canvas after one tick with the pointer at `(px, py)`, given as the
/// pointer coordinates divided by the cell edge length and rounded down.
/// Painting wins over erasing when both buttons are held.
pub open spec fn after_tick(s: Session, px: i32, py: i32) -> Seq<Seq<Color>> {
    let base = tick_base(s);
    let cx = tick_cell(px, base.len() as int);
    let cy = tick_cell(py, base.len() as int);
    if s.painting {
        stamped(base, s.brush, s.brush_size as int, cx, cy, s.primary)
    } else if s.erasing {
        stamped(base, s.brush, s.brush_size as int, cx, cy, s.secondary)
    } else {
        base
    }
}

impl Session {
    pub open spec fn wf(&self) -> bool {
        &&& self.grid.wf()
        &&& 1 <= self.grid_size <= crate::MAX_GRID_SIZE
        &&& 1 <= self.brush_size <= crate::MAX_GRID_SIZE
    }

    /// A fresh session: a blank 16 by 16 canvas, a square brush of one cell,
    /// white to paint, black to erase, no button held.
    pub fn new() -> (s: Session)
        ensures
            s.wf(),
            s.grid@ == blank(DEFAULT_GRID_SIZE as nat),
            s.grid_size == DEFAULT_GRID_SIZE,
            s.brush == Brush::Square,
            s.brush_size == 1,
            s.primary == (Color { red: 255, green: 255, blue: 255 }),
            s.secondary == Color::background(),
            !s.painting,
            !s.erasing,
            !s.reset_pending,
            !s.exit_requested,
    {
        Session {
            grid: Grid::new(DEFAULT_GRID_SIZE),
            grid_size: DEFAULT_GRID_SIZE,
            brush: Brush::Square,
            brush_size: 1,
            primary: Color::white(),
            secondary: Color::black(),
            painting: false,
            erasing: false,
            reset_pending: false,
            exit_requested: false,
        }
    }

    /// Records one input; the canvas itself only changes at the next tick.
    pub fn handle_input(&mut self, input: Input)
        requires
            old(self).wf(),
            valid_input(*old(self), input),
        ensures
            final(self).wf(),
            *final(self) == after_input(*old(self), input),
    {
        match input {
            Input::PaintPressed => self.painting = true,
            Input::PaintReleased => self.painting = false,
            Input::ErasePressed => self.erasing = true,
            Input::EraseReleased => self.erasing = false,
            Input::ResetRequested => self.reset_pending = true,
            Input::ExitRequested => self.exit_requested = true,
            Input::GridSizeChanged(n) => {
                self.grid_size = n;
                self.reset_pending = true;
            },
            Input::BrushSizeChanged(n) => self.brush_size = n,
            Input::BrushChanged(b) => self.brush = b,
            Input::PrimaryColorChanged(c) => self.primary = c,
            Input::SecondaryColorChanged(c) => self.secondary = c,
        }
    }

    /// One update step: first a pending reset, then, while a button is held,
    /// one stamp of the brush at the pointer's cell.
    pub fn tick(&mut self, px: i32, py: i32)
        requires
            old(self).wf(),
        ensures
            final(self).wf(),
            final(self).grid@ == after_tick(*old(self), px, py),
            !final(self).reset_pending,
            final(self).grid_size == old(self).grid_size,
            final(self).brush == old(self).brush,
            final(self).brush_size == old(self).brush_size,
            final(self).primary == old(self).primary,
            final(self).secondary == old(self).secondary,
            final(self).painting == old(self).painting,
            final(self).erasing == old(self).erasing,
            final(self).exit_requested == old(self).exit_requested,
    {
        if self.reset_pending {
            self.reset_pending = false;
            self.grid.reset(self.grid_size);
        }
        if self.painting || self.erasing {
            let n = self.grid.size();
            let cx = cell_of(px, n);
            let cy = cell_of(py, n);
            let color = if self.painting {
                self.primary
            } else {
                self.secondary
            };
            self.grid.paint(self.brush, self.brush_size, cx, cy, color);
        }
    }

    /// What a frame shows: the canvas's draw rectangles, then the brush
    /// preview around the pointer's cell.
    pub fn render(&self, px: i32, py: i32) -> (r: (Vec<RenderRect>, Vec<OverlayRect>))
        requires
            self.wf(),
        ensures
            r.0@ == grid_runs(self.grid@, 0),
            is_brush_preview(
                self.brush,
                self.brush_size as int,
                tick_cell(px, self.grid@.len() as int),
                tick_cell(py, self.grid@.len() as int),
                r.1@,
            ),
    {
        let n = self.grid.size();
        let rects = self.grid.compact();
        let overlay = brush_preview(self.brush, self.brush_size, cell_of(px, n), cell_of(py, n));
        (rects, overlay)
    }
}

} // verus!
