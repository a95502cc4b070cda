use rray::colour::Colour;
use rray::ppm::write_ppm;
use rray::render::render;

#[test]
fn pixmap_of_one_pixel() {
    let buf = vec![vec![Colour { r: 26, g: 26, b: 26 }]];
    assert_eq!(write_ppm(1, 1, &buf), b"P3\n1 1\n255\n26 26 26 \n".to_vec());
}

#[test]
fn pixmap_rows_and_columns_in_order() {
    let buf = vec![
        vec![Colour { r: 0, g: 1, b: 2 }, Colour { r: 10, g: 11, b: 12 }],
        vec![Colour { r: 100, g: 101, b: 102 }, Colour { r: 253, g: 254, b: 255 }],
        vec![Colour { r: 9, g: 99, b: 199 }, Colour { r: 200, g: 20, b: 2 }],
    ];
    let expected = "P3\n2 3\n255\n0 1 2 10 11 12 \n100 101 102 253 254 255 \n9 99 199 200 20 2 \n";
    assert_eq!(write_ppm(2, 3, &buf), expected.as_bytes().to_vec());
}

#[test]
fn pixmap_writes_every_level() {
    for level in 0..=255u8 {
        let buf = vec![vec![Colour { r: level, g: 0, b: 255 - level }]];
        let expected = format!("P3\n1 1\n255\n{} 0 {} \n", level, 255 - level);
        assert_eq!(write_ppm(1, 1, &buf), expected.into_bytes());
    }
}

#[test]
fn pixmap_of_empty_raster_is_the_header() {
    assert_eq!(write_ppm(0, 0, &vec![]), b"P3\n0 0\n255\n".to_vec());
    assert_eq!(write_ppm(0, 2, &vec![vec![], vec![]]), b"P3\n0 2\n255\n\n\n".to_vec());
}

#[test]
fn pixmap_header_holds_large_sizes() {
    let out = write_ppm(1920, 0, &vec![]);
    assert_eq!(out, b"P3\n1920 0\n255\n".to_vec());
    let out = write_ppm(usize::MAX, 0, &vec![]);
    assert_eq!(out, format!("P3\n{} 0\n255\n", usize::MAX).into_bytes());
    let out = write_ppm(0, 12, &vec![vec![]; 12]);
    assert_eq!(out, format!("P3\n0 12\n255\n{}", "\n".repeat(12)).into_bytes());
}

#[test]
fn pixmap_of_a_rendering_is_the_same_each_time() {
    let shade = |p: rray::pixels::Pixel| Colour { r: (p.x * 40) as u8, g: (p.y * 60) as u8, b: 7 };
    let first = write_ppm(4, 3, &render(4, 3, shade));
    let second = write_ppm(4, 3, &render(4, 3, shade));
    assert_eq!(first, second);
    let text = String::from_utf8(first).unwrap();
    let lines: Vec<&str> = text.lines().collect();
    assert_eq!(lines.len(), 3 + 3);
    assert_eq!(lines[3], "0 0 7 40 0 7 80 0 7 120 0 7 ");
    assert_eq!(lines[5], "0 120 7 40 120 7 80 120 7 120 120 7 ");
    for line in &lines[3..] {
        for word in line.split_whitespace() {
            assert!(word.parse::<u16>().unwrap() <= 255);
        }
    }
}
