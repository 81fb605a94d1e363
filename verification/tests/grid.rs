use tileboard::grid::{terminal_fits, Grid, Placement, Rect};

#[test]
fn touching_edges_are_not_collisions_and_overflows_are_rejected() {
    let a = Placement {
        column: 0,
        row: 0,
        column_span: 4,
        row_span: 2,
    };
    let b = Placement {
        column: 4,
        row: 0,
        column_span: 2,
        row_span: 1,
    };
    assert!(!a.overlaps(b));
    assert!(a.overlaps(Placement { column: 3, ..b }));
    assert!(
        !Placement {
            column: u16::MAX,
            ..a
        }
        .fits(6, 4)
    );
    assert!(
        !Placement {
            column_span: 0,
            ..a
        }
        .fits(6, 4)
    );
}

#[test]
fn every_rendered_cell_maps_back_to_its_grid_coordinate() {
    for width in 1..60 {
        let grid = Grid {
            area: Rect::new(2, 3, width, 19),
            columns: 6,
            rows: 4,
        };
        for row in 0..grid.rows {
            for column in 0..grid.columns {
                let rect = grid.rect(Placement {
                    column,
                    row,
                    column_span: 1,
                    row_span: 1,
                });
                for y in rect.y..rect.bottom() {
                    for x in rect.x..rect.right() {
                        assert_eq!(grid.cell(x, y), Some((column, row)));
                    }
                }
            }
        }
    }
}

#[test]
fn boundaries_spread_leftover_cells() {
    let grid = Grid {
        area: Rect::new(0, 0, 10, 5),
        columns: 3,
        rows: 2,
    };
    let p = |column, row| Placement {
        column,
        row,
        column_span: 1,
        row_span: 1,
    };
    assert_eq!(grid.rect(p(0, 0)), Rect::new(0, 0, 3, 2));
    assert_eq!(grid.rect(p(1, 0)), Rect::new(3, 0, 3, 2));
    assert_eq!(grid.rect(p(2, 1)), Rect::new(6, 2, 4, 3));
    let full = Placement {
        column: 0,
        row: 0,
        column_span: 3,
        row_span: 2,
    };
    assert_eq!(grid.rect(full), grid.area);
    assert_eq!(grid.cell(10, 0), None);
    assert_eq!(grid.cell(9, 4), Some((2, 1)));
}

#[test]
fn rect_new_clips_to_the_coordinate_space() {
    let r = Rect::new(65530, 10, 20, 5);
    assert_eq!(r.width, 5);
    assert_eq!(r.right(), 65535);
    assert!(!r.is_empty());
    assert!(Rect::new(1, 1, 0, 3).is_empty());
    assert!(r.contains(65534, 14));
    assert!(!r.contains(65534, 15));
}

#[test]
fn small_terminals_and_tiles_below_their_minimum_are_recognised() {
    assert!(terminal_fits(26, 10));
    assert!(!terminal_fits(25, 40));
    assert!(!terminal_fits(80, 9));
    let tile = Rect::new(0, 0, 12, 4);
    assert!(tile.holds((12, 4)));
    assert!(!tile.holds((13, 4)));
    assert!(!tile.holds((12, 5)));
}
