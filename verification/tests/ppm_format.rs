use raytrace::ppm::{encode, format_decimal, header, pixel_line, Rgb};

#[test]
fn header_of_the_usual_image() {
    assert_eq!(header(400, 300), b"P3\n400 300\n255\n".to_vec());
}

#[test]
fn header_agrees_with_the_formatter() {
    for (nx, ny) in [(0u32, 0u32), (1, 1), (9, 10), (10, 99), (100, 101), (1920, 1080), (u32::MAX, u32::MAX)] {
        assert_eq!(header(nx, ny), format!("P3\n{} {}\n255\n", nx, ny).into_bytes());
    }
}

#[test]
fn pixel_line_of_a_plain_pixel() {
    assert_eq!(pixel_line(Rgb { r: 255, g: 0, b: 127 }), b"255 0 127\n".to_vec());
}

#[test]
fn channels_out_of_range_are_written_as_they_are() {
    assert_eq!(pixel_line(Rgb { r: 256, g: -1, b: 1000 }), b"256 -1 1000\n".to_vec());
    assert_eq!(
        pixel_line(Rgb { r: i32::MAX, g: i32::MIN, b: 0 }),
        b"2147483647 -2147483648 0\n".to_vec()
    );
}

#[test]
fn pixel_line_agrees_with_the_formatter() {
    let values = [i32::MIN, -2147483647, -1000, -10, -9, -1, 0, 1, 9, 10, 11, 99, 100, 255, 256, 65535, i32::MAX];
    for &r in &values {
        for &g in &values {
            let b = r.wrapping_add(g);
            assert_eq!(pixel_line(Rgb { r, g, b }), format!("{} {} {}\n", r, g, b).into_bytes());
        }
    }
}

#[test]
fn format_decimal_agrees_with_the_formatter() {
    let mut n: i32 = i32::MIN;
    loop {
        assert_eq!(format_decimal(n), format!("{}", n).into_bytes());
        match n.checked_add(7_654_321) {
            Some(next) => n = next,
            None => break,
        }
    }
    for n in -1100..1100 {
        assert_eq!(format_decimal(n), format!("{}", n).into_bytes());
    }
}

#[test]
fn an_image_is_the_header_and_then_the_lines() {
    let pixels = vec![
        Rgb { r: 255, g: 255, b: 255 },
        Rgb { r: 127, g: 178, b: 255 },
        Rgb { r: 0, g: 0, b: 0 },
        Rgb { r: 1, g: 22, b: 133 },
    ];
    assert_eq!(
        encode(2, 2, &pixels),
        b"P3\n2 2\n255\n255 255 255\n127 178 255\n0 0 0\n1 22 133\n".to_vec()
    );
}

#[test]
fn an_image_without_pixels_is_its_header() {
    assert_eq!(encode(0, 0, &vec![]), b"P3\n0 0\n255\n".to_vec());
    assert_eq!(encode(3, 4, &vec![]), header(3, 4));
}

#[test]
fn an_image_is_its_header_followed_by_its_pixel_lines() {
    let pixels: Vec<Rgb> = (0..50).map(|k| Rgb { r: k, g: 255 - k, b: k * k - 300 }).collect();
    let mut expected = header(10, 5);
    for &p in &pixels {
        expected.extend(pixel_line(p));
    }
    assert_eq!(encode(10, 5, &pixels), expected);
}
