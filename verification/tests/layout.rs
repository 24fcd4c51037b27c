use svgcard::fit::Ratio;
use svgcard::layout::{line_height, Align};
use svgcard::template::{default_offset, default_scale};

#[test]
fn left_aligned_line_starts_at_the_anchor() {
    assert_eq!(Align::Left.shift(), Ratio { num: 0, den: 1 });
}

#[test]
fn centred_line_starts_half_its_width_before_the_anchor() {
    assert_eq!(Align::Center.shift(), Ratio { num: 1, den: 2 });
}

#[test]
fn right_aligned_line_starts_its_width_before_the_anchor() {
    assert_eq!(Align::Right.shift(), Ratio { num: 1, den: 1 });
}

#[test]
fn first_cursor_for_each_alignment() {
    let anchor = 100.0;
    let width = 30.0;
    let start = |align: Align| {
        let part = align.shift();
        anchor - width * (part.num as f64 / part.den as f64)
    };
    assert_eq!(start(Align::Left), 100.0);
    assert_eq!(start(Align::Center), 85.0);
    assert_eq!(start(Align::Right), 70.0);
}

#[test]
fn alignment_defaults_to_left() {
    assert_eq!(Align::default(), Align::Left);
}

#[test]
fn line_is_as_tall_as_its_tallest_character() {
    assert_eq!(line_height(&[3072, 9216, 4096]), 9216);
    assert_eq!(line_height(&[9216, 3072]), 9216);
    assert_eq!(line_height(&[7]), 7);
}

#[test]
fn line_without_characters_has_no_height() {
    assert_eq!(line_height(&[]), 0);
}

#[test]
fn line_height_is_never_negative() {
    assert_eq!(line_height(&[-5, -1]), 0);
}

#[test]
fn second_line_starts_below_the_first_by_its_height_and_the_spacing() {
    let unit = 1024.0;
    let spacing = 2.5;
    let first_y = 40.0;
    let first_line = line_height(&[12288, 14336, 10240]) as f64 / unit;
    assert_eq!(first_line, 14.0);
    assert_eq!(first_y + first_line + spacing, 56.5);
}

#[test]
fn dimension_defaults() {
    assert_eq!(default_offset(), (0, 0));
    assert_eq!(default_scale(), 10);
}
