use rray::pixels::{make_pixels, Pixel};

#[test]
fn grid_lists_every_pixel_row_by_row() {
    let grid = make_pixels(3, 2);
    assert_eq!(
        grid,
        vec![
            vec![Pixel { x: 0, y: 0 }, Pixel { x: 1, y: 0 }, Pixel { x: 2, y: 0 }],
            vec![Pixel { x: 0, y: 1 }, Pixel { x: 1, y: 1 }, Pixel { x: 2, y: 1 }],
        ]
    );
}

#[test]
fn grid_of_one_pixel() {
    assert_eq!(make_pixels(1, 1), vec![vec![Pixel { x: 0, y: 0 }]]);
}

#[test]
fn grid_without_rows_is_empty() {
    let grid = make_pixels(4, 0);
    assert!(grid.is_empty());
}

#[test]
fn grid_without_columns_has_empty_rows() {
    let grid = make_pixels(0, 3);
    assert_eq!(grid.len(), 3);
    assert!(grid.iter().all(|row| row.is_empty()));
}

#[test]
fn grid_can_be_listed_again() {
    assert_eq!(make_pixels(5, 4), make_pixels(5, 4));
}

#[test]
fn grid_holds_each_pixel_once() {
    let grid = make_pixels(4, 3);
    let mut seen = vec![0u32; 12];
    for row in &grid {
        for p in row {
            seen[p.y * 4 + p.x] += 1;
        }
    }
    assert!(seen.iter().all(|&n| n == 1));
}
