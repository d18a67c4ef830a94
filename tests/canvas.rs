use pixel_canvas::brush::{circle_offsets, clamp_index, square_span, Brush};
use pixel_canvas::color::Color;
use pixel_canvas::geometry::{cell_of, center_of_span};
use pixel_canvas::grid::Grid;
use pixel_canvas::render::{brush_preview, OverlayRect, RenderRect};
use pixel_canvas::session::{Input, Session};

fn painted_cells(grid: &Grid, color: Color) -> Vec<(usize, usize)> {
    let mut out = Vec::new();
    for x in 0..grid.size() {
        for y in 0..grid.size() {
            if grid.get(x, y) == color {
                out.push((x, y));
            }
        }
    }
    out
}

fn red() -> Color {
    Color::rgb(255, 0, 0)
}

fn green() -> Color {
    Color::rgb(0, 255, 0)
}

#[test]
fn reset_yields_blank_grid_for_every_size() {
    for n in 1..=64usize {
        let grid = Grid::new(n);
        assert_eq!(grid.size(), n);
        assert_eq!(painted_cells(&grid, Color::black()).len(), n * n);
    }
}

#[test]
fn reset_after_painting_clears_everything() {
    let mut grid = Grid::new(8);
    grid.paint(Brush::Square, 4, 3, 3, red());
    assert!(!painted_cells(&grid, red()).is_empty());
    grid.reset(8);
    assert_eq!(painted_cells(&grid, Color::black()).len(), 64);
}

#[test]
fn square_size_one_paints_single_cell() {
    let mut grid = Grid::new(16);
    grid.paint(Brush::Square, 1, 5, 5, red());
    assert_eq!(painted_cells(&grid, red()), vec![(5, 5)]);
}

#[test]
fn square_size_two_paints_ceiling_span() {
    // [ceil(5 - 1), ceil(5 + 1)) = [4, 6) on each axis
    let mut grid = Grid::new(16);
    grid.paint(Brush::Square, 2, 5, 5, red());
    assert_eq!(painted_cells(&grid, red()), vec![(4, 4), (4, 5), (5, 4), (5, 5)]);
}

#[test]
fn square_size_three_is_centered() {
    let mut grid = Grid::new(16);
    grid.paint(Brush::Square, 3, 5, 5, red());
    let expected: Vec<(usize, usize)> =
        (4..7).flat_map(|x| (4..7).map(move |y| (x, y))).collect();
    assert_eq!(painted_cells(&grid, red()), expected);
}

#[test]
fn circle_diameter_four_offsets() {
    let offsets = circle_offsets(4);
    assert!(offsets.contains(&(2, 0)));
    assert!(offsets.contains(&(0, 2)));
    assert!(offsets.contains(&(-2, 0)));
    assert!(!offsets.contains(&(2, 2)));
    assert!(!offsets.contains(&(2, 1)));
    let mut expected = Vec::new();
    for dx in -2i32..=2 {
        for dy in -2i32..=2 {
            if dx * dx + dy * dy <= 4 {
                expected.push((dx, dy));
            }
        }
    }
    assert_eq!(offsets, expected);
    assert_eq!(offsets.len(), 13);
}

#[test]
fn circle_uses_untruncated_radius() {
    // diameter 5: radius 2.5 for the test, 2 for the range
    let offsets = circle_offsets(5);
    assert!(offsets.contains(&(2, 1)));
    assert!(!offsets.contains(&(2, 2)));
    assert_eq!(offsets.len(), 21);
    assert_eq!(circle_offsets(1), vec![(0, 0)]);
    assert_eq!(circle_offsets(2), vec![(-1, 0), (0, -1), (0, 0), (0, 1), (1, 0)]);
}

#[test]
fn circle_offsets_match_float_rule() {
    for d in 1..=64usize {
        let radius_f = d as f32 / 2.0;
        let radius = radius_f as i32;
        let mut expected = Vec::new();
        for x in -radius..=radius {
            for y in -radius..=radius {
                let (xf, yf) = (x as f32, y as f32);
                if xf * xf + yf * yf <= radius_f * radius_f {
                    expected.push((x, y));
                }
            }
        }
        assert_eq!(circle_offsets(d), expected);
    }
}

#[test]
fn square_brush_clamps_at_corner() {
    let mut grid = Grid::new(16);
    grid.paint(Brush::Square, 3, 0, 0, red());
    assert_eq!(painted_cells(&grid, red()), vec![(0, 0), (0, 1), (1, 0), (1, 1)]);
}

#[test]
fn circle_brush_clamps_at_corner() {
    let mut grid = Grid::new(16);
    grid.paint(Brush::Circle, 3, 0, 0, red());
    assert_eq!(painted_cells(&grid, red()), vec![(0, 0), (0, 1), (1, 0), (1, 1)]);
}

#[test]
fn circle_brush_far_outside_piles_on_edge() {
    let mut grid = Grid::new(16);
    grid.paint(Brush::Circle, 4, -40, 100, red());
    assert_eq!(painted_cells(&grid, red()), vec![(0, 15)]);
}

#[test]
fn square_brush_outside_grid_paints_nothing() {
    let mut grid = Grid::new(16);
    grid.paint(Brush::Square, 3, 40, 5, red());
    assert!(painted_cells(&grid, red()).is_empty());
    grid.paint(Brush::Square, 3, -40, 5, red());
    assert!(painted_cells(&grid, red()).is_empty());
}

#[test]
fn square_brush_at_far_edge() {
    let mut grid = Grid::new(16);
    grid.paint(Brush::Square, 4, 15, 15, red());
    assert_eq!(painted_cells(&grid, red()), vec![(13, 13), (13, 14), (13, 15), (14, 13), (14, 14), (14, 15), (15, 13), (15, 14), (15, 15)]);
}

#[test]
fn compaction_is_repeatable() {
    let mut grid = Grid::new(8);
    grid.paint(Brush::Circle, 5, 3, 4, red());
    grid.paint(Brush::Square, 2, 6, 1, green());
    let first = grid.compact();
    let second = grid.compact();
    assert_eq!(first, second);
}

#[test]
fn run_length_splits_column_into_three() {
    let mut grid = Grid::new(4);
    grid.set(0, 0, red());
    grid.set(0, 1, red());
    grid.set(0, 2, green());
    grid.set(0, 3, red());
    let rects = grid.compact();
    let column0: Vec<&RenderRect> = rects.iter().filter(|r| r.column == 0).collect();
    let heights: Vec<usize> = column0.iter().map(|r| r.height).collect();
    assert_eq!(heights, vec![2, 1, 1]);
    assert_eq!(column0[0], &RenderRect { column: 0, row: 0, height: 2, color: red() });
    assert_eq!(column0[1], &RenderRect { column: 0, row: 2, height: 1, color: green() });
    assert_eq!(column0[2], &RenderRect { column: 0, row: 3, height: 1, color: red() });
    assert_eq!(rects.len(), 6);
    for x in 1..4 {
        assert_eq!(rects[2 + x], RenderRect { column: x, row: 0, height: 4, color: Color::black() });
    }
}

#[test]
fn compaction_of_blank_grid_is_one_rect_per_column() {
    let grid = Grid::new(5);
    let rects = grid.compact();
    assert_eq!(rects.len(), 5);
    for (x, r) in rects.iter().enumerate() {
        assert_eq!(*r, RenderRect { column: x, row: 0, height: 5, color: Color::black() });
    }
}

#[test]
fn resize_is_destructive() {
    let mut grid = Grid::new(16);
    grid.paint(Brush::Square, 5, 8, 8, red());
    grid.resize(16);
    assert_eq!(grid.size(), 16);
    assert_eq!(painted_cells(&grid, Color::black()).len(), 256);
    grid.paint(Brush::Circle, 5, 2, 2, red());
    grid.resize(3);
    assert_eq!(grid.size(), 3);
    assert_eq!(painted_cells(&grid, Color::black()).len(), 9);
}

#[test]
fn clamp_index_limits_to_grid() {
    assert_eq!(clamp_index(-3, 16), 0);
    assert_eq!(clamp_index(7, 16), 7);
    assert_eq!(clamp_index(16, 16), 15);
    assert_eq!(clamp_index(0, 1), 0);
}

#[test]
fn square_span_bounds() {
    assert_eq!(square_span(5, 1, 16), (5, 6));
    assert_eq!(square_span(5, 2, 16), (4, 6));
    assert_eq!(square_span(5, 3, 16), (4, 7));
    assert_eq!(square_span(0, 3, 16), (0, 2));
    assert_eq!(square_span(15, 4, 16), (13, 16));
    assert_eq!(square_span(-10, 4, 16), (0, 0));
}

#[test]
fn pointer_maps_to_cell() {
    assert_eq!(cell_of(0, 16), 8);
    assert_eq!(cell_of(-1, 16), 7);
    assert_eq!(cell_of(-8, 16), 0);
    assert_eq!(cell_of(0, 5), 2);
    assert_eq!(cell_of(i32::MAX, 64), i32::MAX);
}

#[test]
fn cell_centers_in_half_edges() {
    // cell 0 of 16 sits at -(8 - 0.5) edges, -15 half edges
    assert_eq!(center_of_span(0, 1, 16), -15);
    assert_eq!(center_of_span(15, 1, 16), 15);
    assert_eq!(center_of_span(0, 1, 5), -3);
    // a run of two cells from row 0 is centered between them
    assert_eq!(center_of_span(0, 2, 16), -14);
}

#[test]
fn preview_shapes() {
    assert_eq!(brush_preview(Brush::Square, 2, 5, 5), vec![OverlayRect { x: 4, y: 4, side: 2 }]);
    assert_eq!(brush_preview(Brush::Square, 3, 5, 5), vec![OverlayRect { x: 4, y: 4, side: 3 }]);
    assert_eq!(brush_preview(Brush::Circle, 1, -3, 5), vec![OverlayRect { x: -3, y: 5, side: 1 }]);
    let circle = brush_preview(Brush::Circle, 4, 10, 10);
    assert_eq!(circle.len(), 13);
    assert!(circle.contains(&OverlayRect { x: 12, y: 10, side: 1 }));
    assert!(!circle.contains(&OverlayRect { x: 12, y: 12, side: 1 }));
}

#[test]
fn default_color_is_black() {
    assert_eq!(Color::default(), Color::black());
    assert_eq!(Color::black(), Color::rgb(0, 0, 0));
    assert_eq!(Color::white(), Color::rgb(255, 255, 255));
}

#[test]
fn session_starts_blank() {
    let s = Session::new();
    assert_eq!(s.grid.size(), 16);
    assert_eq!(s.brush, Brush::Square);
    assert_eq!(s.brush_size, 1);
    assert_eq!(s.primary, Color::white());
    assert_eq!(s.secondary, Color::black());
    assert!(!s.painting && !s.erasing && !s.reset_pending && !s.exit_requested);
}

#[test]
fn session_paints_while_button_held() {
    let mut s = Session::new();
    s.tick(0, 0);
    assert!(painted_cells(&s.grid, Color::white()).is_empty());
    s.handle_input(Input::PaintPressed);
    s.tick(-3, 2);
    assert_eq!(painted_cells(&s.grid, Color::white()), vec![(5, 10)]);
    s.tick(-3, 3);
    assert_eq!(painted_cells(&s.grid, Color::white()), vec![(5, 10), (5, 11)]);
    s.handle_input(Input::PaintReleased);
    s.tick(0, 0);
    assert_eq!(painted_cells(&s.grid, Color::white()).len(), 2);
}

#[test]
fn session_erases_with_secondary_and_paint_wins() {
    let mut s = Session::new();
    s.handle_input(Input::PrimaryColorChanged(red()));
    s.handle_input(Input::SecondaryColorChanged(green()));
    s.handle_input(Input::ErasePressed);
    s.tick(0, 0);
    assert_eq!(painted_cells(&s.grid, green()), vec![(8, 8)]);
    s.handle_input(Input::PaintPressed);
    s.tick(0, 0);
    assert_eq!(painted_cells(&s.grid, red()), vec![(8, 8)]);
    assert!(painted_cells(&s.grid, green()).is_empty());
}

#[test]
fn session_reset_and_resize_happen_at_tick() {
    let mut s = Session::new();
    s.handle_input(Input::BrushChanged(Brush::Circle));
    s.handle_input(Input::BrushSizeChanged(3));
    s.handle_input(Input::PaintPressed);
    s.tick(0, 0);
    assert_eq!(painted_cells(&s.grid, Color::white()).len(), 9);
    s.handle_input(Input::PaintReleased);
    s.handle_input(Input::ResetRequested);
    assert!(s.reset_pending);
    assert_eq!(painted_cells(&s.grid, Color::white()).len(), 9);
    s.tick(0, 0);
    assert!(!s.reset_pending);
    assert!(painted_cells(&s.grid, Color::white()).is_empty());
    s.handle_input(Input::GridSizeChanged(4));
    s.tick(0, 0);
    assert_eq!(s.grid.size(), 4);
    assert_eq!(s.grid_size, 4);
    s.handle_input(Input::ExitRequested);
    assert!(s.exit_requested);
}

#[test]
fn session_render_lists_grid_then_preview() {
    let mut s = Session::new();
    s.handle_input(Input::GridSizeChanged(2));
    s.tick(0, 0);
    s.handle_input(Input::PaintPressed);
    s.tick(0, 0);
    let (rects, overlay) = s.render(-1, -1);
    assert_eq!(
        rects,
        vec![
            RenderRect { column: 0, row: 0, height: 2, color: Color::black() },
            RenderRect { column: 1, row: 0, height: 1, color: Color::black() },
            RenderRect { column: 1, row: 1, height: 1, color: Color::white() },
        ]
    );
    assert_eq!(overlay, vec![OverlayRect { x: 0, y: 0, side: 1 }]);
}
