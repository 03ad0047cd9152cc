use elem::ascii_art::{
    glyph_row, glyphs_for, number_to_art, number_to_image, render, Glyph, DUMMY_CODE, ERROR_CODE,
    HEIGHT, PENDING_CODE,
};

const DIGIT_WIDTHS: [usize; 10] = [9, 4, 8, 8, 8, 8, 9, 8, 8, 8];

fn transparent() -> Vec<u8> {
    vec![0, 0, 0, 0]
}

fn opaque() -> Vec<u8> {
    vec![255, 255, 255, 255]
}

#[test]
fn zero_art_is_the_zero_glyph() {
    let expected = " ██████  \n██  ████ \n██ ██ ██ \n████  ██ \n ██████  ";
    assert_eq!(number_to_art(0), expected);
}

#[test]
fn two_digit_art_joins_glyphs_row_by_row() {
    let expected = " ██ ██████  \n███      ██ \n ██  █████  \n ██ ██      \n ██ ███████ ";
    assert_eq!(number_to_art(12), expected);
}

#[test]
fn error_code_art_is_the_question_mark() {
    let expected = "██████  \n     ██ \n  ▄███  \n  ▀▀    \n  ██    ";
    assert_eq!(number_to_art(ERROR_CODE), expected);
}

#[test]
fn glyph_rows_come_from_the_table() {
    assert_eq!(glyph_row(Glyph::One, 1), "███ ");
    assert_eq!(glyph_row(Glyph::SmileyFace, 0), "   ██  ");
    assert_eq!(glyphs_for(407), vec![Glyph::Four, Glyph::Zero, Glyph::Seven]);
    assert_eq!(glyphs_for(PENDING_CODE), vec![Glyph::Ellipsis]);
}

#[test]
fn width_is_the_sum_of_digit_glyph_widths() {
    for n in 0u64..10000 {
        if n == ERROR_CODE {
            continue;
        }
        let expected: usize = n
            .to_string()
            .chars()
            .map(|c| DIGIT_WIDTHS[c.to_digit(10).unwrap() as usize])
            .sum();
        let b = render(n);
        assert_eq!(b.width, expected, "width of {}", n);
        assert_eq!(b.height, HEIGHT);
        assert_eq!(b.pixels.len(), 4 * b.width * b.height);
    }
}

#[test]
fn hundred_renders_twenty_two_columns() {
    let b = render(100);
    assert_eq!(b.width, 22);
    assert_eq!(b.height, 5);
    assert_eq!(b.pixels.len(), 440);
}

#[test]
fn largest_value_renders_twenty_digits() {
    let b = render(u64::MAX);
    assert_eq!(b.width, 152);
    assert_eq!(number_to_art(u64::MAX).lines().count(), 5);
}

#[test]
fn zero_differs_from_other_digits() {
    let zero = render(0);
    assert!(!zero.pixels.is_empty());
    for d in 1u64..10 {
        assert_ne!(zero.pixels, render(d).pixels, "digit {}", d);
    }
}

#[test]
fn sentinel_codes_render_their_own_glyph() {
    let error = render(ERROR_CODE);
    let pending = render(PENDING_CODE);
    let dummy = render(DUMMY_CODE);
    assert_eq!(error.width, 8);
    assert_eq!(pending.width, 9);
    assert_eq!(dummy.width, 7);
    assert_ne!(error.pixels, pending.pixels);
    assert_ne!(error.pixels, dummy.pixels);
    assert_ne!(pending.pixels, dummy.pixels);
    assert_eq!(number_to_art(DUMMY_CODE), "   ██  \n██  ██ \n    ██ \n██  ██ \n   ██  ");
}

#[test]
fn rendering_twice_is_identical() {
    for n in [0u64, 7, 42, 100, ERROR_CODE, PENDING_CODE, DUMMY_CODE, 123456789] {
        assert_eq!(render(n).pixels, render(n).pixels);
        assert_eq!(number_to_image(n), number_to_image(n));
        assert!(!number_to_image(n).is_empty());
    }
}

#[test]
fn cells_become_white_or_transparent() {
    let b = render(1);
    let row0: Vec<u8> = [transparent(), opaque(), opaque(), transparent()].concat();
    assert_eq!(&b.pixels[0..16], &row0[..]);
    let row1: Vec<u8> = [opaque(), opaque(), opaque(), transparent()].concat();
    assert_eq!(&b.pixels[16..32], &row1[..]);
}

#[test]
fn half_blocks_are_transparent() {
    let b = render(ERROR_CODE);
    let row2 = &b.pixels[2 * 8 * 4..3 * 8 * 4];
    assert_eq!(&row2[8..12], &transparent()[..]);
    assert_eq!(&row2[12..16], &opaque()[..]);
}

#[test]
fn image_is_a_png_file() {
    let png = number_to_image(42);
    assert_eq!(&png[0..8], &[137u8, 80, 78, 71, 13, 10, 26, 10][..]);
    let decoded = lodepng::decode32(&png).expect("decodes");
    assert_eq!(decoded.width, 16);
    assert_eq!(decoded.height, 5);
    let b = render(42);
    let raw: Vec<u8> = decoded.buffer.iter().flat_map(|p| [p.r, p.g, p.b, p.a]).collect();
    assert_eq!(raw, b.pixels);
}

#[test]
fn zero_image_has_thirty_opaque_pixels() {
    let png = number_to_image(0);
    let decoded = lodepng::decode32(&png).expect("decodes");
    assert_eq!(decoded.width, 9);
    assert_eq!(decoded.height, 5);
    let opaque = decoded
        .buffer
        .iter()
        .filter(|p| p.r == 255 && p.g == 255 && p.b == 255 && p.a == 255)
        .count();
    assert_eq!(opaque, 30);
    for d in 1u64..10 {
        assert_ne!(png, number_to_image(d), "digit {}", d);
    }
}

#[test]
fn art_rows_are_as_wide_as_the_digit_glyphs() {
    for n in 0u64..10000 {
        if n == ERROR_CODE {
            continue;
        }
        let expected: usize = n
            .to_string()
            .chars()
            .map(|c| DIGIT_WIDTHS[c.to_digit(10).unwrap() as usize])
            .sum();
        let art = number_to_art(n);
        assert_eq!(art.split('\n').count(), 5);
        for line in art.split('\n') {
            assert_eq!(line.chars().count(), expected, "row of {}", n);
        }
    }
}
