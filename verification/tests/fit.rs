use svgcard::dict::ValueDictionary;
use svgcard::fit::{fontscale, maxlen, Ratio};
use svgcard::text::{filltexts, Text};

fn strings(items: &[&str]) -> Vec<String> {
    items.iter().map(|s| s.to_string()).collect()
}

fn value(ratio: Ratio) -> f64 {
    ratio.num as f64 / ratio.den as f64
}

#[test]
fn maxlen_is_the_longest_character_count() {
    assert_eq!(maxlen(&strings(&["ab", "abcd", "a"])), 4);
    assert_eq!(maxlen(&strings(&["abcd", "ab"])), 4);
    assert_eq!(maxlen(&strings(&["x"])), 1);
}

#[test]
fn maxlen_of_no_line_is_one() {
    assert_eq!(maxlen(&[]), 1);
}

#[test]
fn maxlen_of_empty_lines_is_zero() {
    assert_eq!(maxlen(&strings(&["", ""])), 0);
}

#[test]
fn maxlen_counts_characters_not_bytes() {
    assert_eq!(maxlen(&strings(&["héé", "ab"])), 3);
    assert_eq!(maxlen(&strings(&["花子"])), 2);
}

#[test]
fn scale_without_cap_is_declared_over_expanded() {
    assert_eq!(fontscale(&strings(&["a", "b"]), 1, None), Ratio { num: 1, den: 2 });
    assert_eq!(fontscale(&strings(&["a", "b", "c"]), 3, None), Ratio { num: 3, den: 3 });
    assert_eq!(fontscale(&strings(&["a"]), 4, None), Ratio { num: 4, den: 1 });
}

#[test]
fn scale_never_grows_with_more_expanded_lines() {
    let mut lines: Vec<String> = Vec::new();
    let mut last = f64::INFINITY;
    for _ in 0..6 {
        lines.push("line".to_string());
        let now = 12.0 * value(fontscale(&lines, 2, None));
        assert!(now <= last);
        last = now;
    }
    assert_eq!(last, 4.0);
}

#[test]
fn column_cap_below_the_magnitude_decides() {
    let lines = strings(&["abcdefghij"]);
    assert_eq!(fontscale(&lines, 1, Some(5)), Ratio { num: 5, den: 10 });
    assert_eq!(fontscale(&lines, 7, Some(5)), Ratio { num: 5, den: 10 });
    assert_eq!(8.0 * value(fontscale(&lines, 1, Some(5))), 4.0);
}

#[test]
fn column_cap_above_the_magnitude_changes_nothing() {
    let lines = strings(&["abcdefghij", "ab"]);
    assert_eq!(fontscale(&lines, 1, Some(20)), Ratio { num: 1, den: 2 });
    assert_eq!(fontscale(&lines, 1, Some(6)), Ratio { num: 1, den: 2 });
}

#[test]
fn column_cap_equal_to_the_magnitude_is_kept() {
    let lines = strings(&["abcd", "ab"]);
    assert_eq!(fontscale(&lines, 1, Some(2)), Ratio { num: 2, den: 4 });
}

#[test]
fn column_cap_of_zero_scales_to_nothing() {
    let lines = strings(&["abcd"]);
    assert_eq!(fontscale(&lines, 1, Some(0)), Ratio { num: 0, den: 4 });
}

#[test]
fn scale_of_no_line_is_the_cap_or_unbounded() {
    assert_eq!(fontscale(&[], 1, None), Ratio { num: 1, den: 0 });
    assert_eq!(fontscale(&[], 1, Some(3)), Ratio { num: 3, den: 1 });
}

#[test]
fn scale_of_empty_lines_ignores_the_cap() {
    assert_eq!(fontscale(&strings(&["", ""]), 1, Some(3)), Ratio { num: 1, den: 2 });
}

#[test]
fn lesser_picks_the_smaller_ratio() {
    let half = Ratio { num: 1, den: 2 };
    let third = Ratio { num: 1, den: 3 };
    assert_eq!(half.lesser(third), third);
    assert_eq!(third.lesser(half), third);
    assert_eq!(Ratio { num: 2, den: 4 }.lesser(half), Ratio { num: 2, den: 4 });
    assert_eq!(half.lesser(Ratio { num: 2, den: 4 }), half);
}

#[test]
fn lesser_lets_an_unbounded_ratio_give_way() {
    let unbounded = Ratio { num: 5, den: 0 };
    let big = Ratio { num: 900, den: 1 };
    assert_eq!(unbounded.lesser(big), big);
    assert_eq!(big.lesser(unbounded), big);
    assert_eq!(unbounded.lesser(Ratio { num: 0, den: 0 }), Ratio { num: 0, den: 0 });
}

#[test]
fn lesser_compares_exactly_at_the_machine_limit() {
    let a = Ratio { num: usize::MAX, den: usize::MAX - 1 };
    let b = Ratio { num: usize::MAX - 1, den: usize::MAX - 2 };
    assert_eq!(a.lesser(b), a);
    assert_eq!(b.lesser(a), a);
}

#[test]
fn hello_name_end_to_end() {
    let mut dict = ValueDictionary::new();
    dict.insert("name".to_string(), Text::Multi(strings(&["Ann", "Bo"])));
    let spec = Text::Multi(strings(&["Hello {name}"]));
    let (lines, slots) = filltexts(&spec, &dict);
    assert_eq!(lines, strings(&["Hello Ann", "Hello Bo"]));
    assert_eq!(slots, 1);
    let factor = fontscale(&lines, slots, None);
    assert_eq!(factor, Ratio { num: 1, den: 2 });
    assert_eq!(value(factor), 0.5);
    assert_eq!(10.0 * value(factor), 5.0);
}
