use chat_context::compress::compress_content;

const MARKER: &str = "...[truncated]";

#[test]
fn content_that_fits_is_trimmed_and_kept() {
    assert_eq!(compress_content("  hello world \n", 11), "hello world");
    assert_eq!(compress_content("hello", 100), "hello");
    assert_eq!(compress_content("   ", 0), "");
    assert_eq!(compress_content("", 5), "");
}

#[test]
fn cut_falls_after_the_last_sentence_end_in_range() {
    // budget 20, range [10, 20): '.' at 11 and '!' at 17
    let text = "aaaa bbbbbb.ccccc! dddd eeee ffff";
    assert_eq!(compress_content(text, 20), format!("aaaa bbbbbb.ccccc!{}", MARKER));
}

#[test]
fn sentence_end_wins_over_a_later_soft_break() {
    // range [5, 10): '.' at 5, space at 8
    let text = "abcde.gh jklmnop";
    assert_eq!(compress_content(text, 10), format!("abcde.{}", MARKER));
}

#[test]
fn sentence_end_at_the_last_place_of_the_range_cuts_at_the_budget() {
    // range [5, 10): space at 6, '.' at 9: the cut is just after the '.'
    let text = "abcdef hi.klmnop";
    assert_eq!(compress_content(text, 10), format!("abcdef hi.{}", MARKER));
}

#[test]
fn cut_falls_at_the_last_soft_break_without_a_sentence_end() {
    // range [5, 10): space at 6 and comma at 8
    let text = "abcdef h,jklmnop";
    assert_eq!(compress_content(text, 10), format!("abcdef h{}", MARKER));
    let text = "abcdef hijklmnop";
    assert_eq!(compress_content(text, 10), format!("abcdef{}", MARKER));
}

#[test]
fn cut_falls_at_the_budget_as_a_last_resort() {
    assert_eq!(compress_content("abcdefghijklmnop", 10), format!("abcdefghij{}", MARKER));
    // a break before the middle of the budget is not used
    assert_eq!(compress_content("abc. efghijklmnop", 10), format!("abc. efghi{}", MARKER));
}

#[test]
fn positions_are_characters_not_bytes() {
    let text = "\u{4f60}\u{597d}\u{4e16}\u{754c}\u{3002}\u{4f60}\u{597d}\u{4e16}\u{754c}\u{ff01}\u{4f60}\u{597d}";
    // range [4, 8): full-width full stop at 4
    assert_eq!(
        compress_content(text, 8),
        format!("\u{4f60}\u{597d}\u{4e16}\u{754c}\u{3002}{}", MARKER)
    );
    // range [5, 10): full-width exclamation mark at 9
    assert_eq!(
        compress_content(text, 10),
        format!(
            "\u{4f60}\u{597d}\u{4e16}\u{754c}\u{3002}\u{4f60}\u{597d}\u{4e16}\u{754c}\u{ff01}{}",
            MARKER
        )
    );
    assert_eq!(compress_content("a\u{ff1f}bcdef", 2), format!("a\u{ff1f}{}", MARKER));
}

#[test]
fn kept_part_is_trimmed_again() {
    // range [5, 10): the last soft break is the space at 9
    let text = "ab        cdefgh";
    assert_eq!(compress_content(text, 10), format!("ab{}", MARKER));
}

#[test]
fn zero_budget_keeps_only_the_marker() {
    assert_eq!(compress_content("abc", 0), MARKER);
}

#[test]
fn output_is_bounded_and_a_prefix() {
    let text = "  The quick brown fox jumps over the lazy dog. Then it rests, sleeps and dreams!  ";
    let trimmed: Vec<char> = text.trim().chars().collect();
    for budget in 1..100usize {
        let out: Vec<char> = compress_content(text, budget).chars().collect();
        if trimmed.len() <= budget {
            assert_eq!(out, trimmed);
        } else {
            assert!(out.len() <= budget + MARKER.chars().count());
            let kept = out.len() - MARKER.chars().count();
            assert!(kept < trimmed.len());
            assert_eq!(&out[..kept], &trimmed[..kept]);
            assert_eq!(out[kept..].iter().collect::<String>(), MARKER);
        }
    }
}

#[test]
fn compressing_a_fitting_content_twice_changes_nothing() {
    let text = "  short enough \t";
    let once = compress_content(text, 20);
    let twice = compress_content(&once, 20);
    assert_eq!(once, "short enough");
    assert_eq!(twice, once);
}
