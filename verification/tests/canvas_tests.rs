use ray_tracer::{Canvas, Color, Scalar};

fn scv(v: f32) -> Scalar {
    Scalar::from_bits(v.to_bits())
}

fn rgb(r: f32, g: f32, b: f32) -> Color {
    Color::new(scv(r), scv(g), scv(b))
}

fn level(channel: Scalar) -> u8 {
    (f32::from_bits(channel.bits) * 255_f32).clamp(0.0, 255.0).round() as u8
}

fn levels_of(c: &Canvas) -> Vec<u8> {
    let mut out = Vec::new();
    for p in &c.data {
        out.push(level(p.red));
        out.push(level(p.green));
        out.push(level(p.blue));
    }
    out
}

fn ppm_of(c: &Canvas) -> String {
    c.get_ppm(&levels_of(c))
}

#[test]
fn canvas_init_with_black() {
    let c = Canvas::new(10, 20);
    let black_color = rgb(0.0, 0.0, 0.0);

    assert_eq!(c.width, 10);
    assert_eq!(c.height, 20);
    for i in 1..c.height {
        for j in 1..c.width {
            assert_eq!(c.pixel_at(j, i), black_color);
        }
    }
}

#[test]
fn writing_a_pixel_in_canvas() {
    let mut c = Canvas::new(10, 20);
    let red = rgb(1.0, 0.0, 0.0);
    c.write_pixel(2, 3, red);
    assert_eq!(c.pixel_at(2, 3), red);
}

#[test]
fn ppm_header() {
    let c = Canvas::new(5, 3);
    let ppm = ppm_of(&c);
    let mut ppm_iter = ppm.split("\n");
    assert_eq!("P3", ppm_iter.next().unwrap());
    assert_eq!("5 3", ppm_iter.next().unwrap());
    assert_eq!("255", ppm_iter.next().unwrap());
}

#[test]
fn ppm_pixel_data() {
    let mut c = Canvas::new(5, 3);
    let c1 = rgb(1.5, 0.0, 0.0);
    let c2 = rgb(0.0, 0.5, 0.0);
    let c3 = rgb(-0.5, 0.0, 1.0);
    c.write_pixel(0, 0, c1);
    c.write_pixel(2, 1, c2);
    c.write_pixel(4, 2, c3);

    let ppm = ppm_of(&c);
    println!("{}", ppm);
    let mut ppm_iter = ppm.split("\n").skip(3);
    assert_eq!("255 0 0 0 0 0 0 0 0 0 0 0 0 0 0", ppm_iter.next().unwrap());
    assert_eq!("0 0 0 0 0 0 0 128 0 0 0 0 0 0 0", ppm_iter.next().unwrap());
    assert_eq!("0 0 0 0 0 0 0 0 0 0 0 0 0 0 255", ppm_iter.next().unwrap());
}

#[test]
fn ppm_row_length_check() {
    let mut c = Canvas::new(10, 2);
    c.fill(rgb(1.0, 0.8, 0.6));
    let ppm = ppm_of(&c);
    let mut ppm_iter = ppm.split("\n").skip(3);

    assert_eq!(
        "255 204 153 255 204 153 255 204 153 255 204 153 255 204 153 255 204",
        ppm_iter.next().unwrap()
    );
    assert_eq!(
        "153 255 204 153 255 204 153 255 204 153 255 204 153",
        ppm_iter.next().unwrap()
    );
    assert_eq!(
        "255 204 153 255 204 153 255 204 153 255 204 153 255 204 153 255 204",
        ppm_iter.next().unwrap()
    );
    assert_eq!(
        "153 255 204 153 255 204 153 255 204 153 255 204 153",
        ppm_iter.next().unwrap()
    );
}

#[test]
fn ppm_newline_character_termination() {
    let c = Canvas::new(5, 3);
    let ppm = ppm_of(&c);
    assert_eq!(ppm.chars().last().unwrap(), '\n');
}

#[test]
fn ppm_whole_text_of_a_small_canvas() {
    let c = Canvas::new(2, 2);
    let levels: Vec<u8> = vec![0, 9, 10, 99, 100, 255, 1, 2, 3, 4, 5, 6];
    assert_eq!(c.get_ppm(&levels), "P3\n2 2\n255\n0 9 10 99 100 255\n1 2 3 4 5 6\n");
    assert_eq!(
        String::from_utf8(c.get_ppm_header()).unwrap()
            + &String::from_utf8(c.get_ppm_pixel_values(&levels)).unwrap(),
        c.get_ppm(&levels)
    );
}

#[test]
fn ppm_lines_never_exceed_seventy_characters() {
    let c = Canvas::new(40, 3);
    let mut levels: Vec<u8> = Vec::new();
    for i in 0..(3 * 40 * 3) {
        levels.push(((i * 37) % 256) as u8);
    }
    let ppm = c.get_ppm(&levels);
    for line in ppm.split("\n") {
        assert!(line.len() <= 70);
        assert!(!line.ends_with(' '));
    }
    let numbers: Vec<u8> = ppm
        .split_whitespace()
        .skip(4)
        .map(|t| t.parse::<u8>().unwrap())
        .collect();
    assert_eq!(numbers, levels);
}

#[test]
fn ppm_of_an_empty_canvas() {
    let none: Vec<u8> = Vec::new();
    assert_eq!(Canvas::new(0, 0).get_ppm(&none), "P3\n0 0\n255\n");
    assert_eq!(Canvas::new(3, 0).get_ppm(&none), "P3\n3 0\n255\n");
    assert_eq!(Canvas::new(0, 2).get_ppm(&none), "P3\n0 2\n255\n\n");
}

#[test]
fn fill_paints_every_pixel() {
    let mut c = Canvas::new(3, 2);
    c.fill(rgb(0.25, 0.5, 0.75));
    assert_eq!(c.data.len(), 6);
    for row in 0..2 {
        for col in 0..3 {
            assert_eq!(c.pixel_at(col, row), rgb(0.25, 0.5, 0.75));
        }
    }
}

#[test]
fn pixels_are_stored_row_by_row() {
    let mut c = Canvas::new(4, 3);
    c.write_pixel(1, 2, rgb(1.0, 0.0, 0.0));
    assert_eq!(c.data[2 * 4 + 1], rgb(1.0, 0.0, 0.0));
    assert_eq!(c.pixel_at(1, 2), rgb(1.0, 0.0, 0.0));
    assert_eq!(c.pixel_at(2, 1), rgb(0.0, 0.0, 0.0));
}
