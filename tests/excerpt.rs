use ripbk::{remove_excerpt, strip};

const TAIL: &str = "\n\nExcerpt From\nLife\nby me\nbob.com\nThis material may be protected by copyright.";

fn with_tail(excerpt: &str) -> String {
    format!("{}{}", excerpt, TAIL)
}

#[test]
fn balanced_quotes_are_stripped() {
    let input = "“Hello World”\n\nExcerpt From\nLife\nby me\nbob.com\nThis material may be protected by copyright.";
    assert_eq!(remove_excerpt(input.to_string()), "Hello World");
}

#[test]
fn text_without_marker_is_trimmed_only() {
    assert_eq!(remove_excerpt("  “Hello” there \n".to_string()), "“Hello” there");
    assert_eq!(strip("  “Hello” there \n".to_string()), "“Hello” there");
    assert_eq!(strip(" a".to_string()), "a");
}

#[test]
fn two_markers_leave_text_trimmed() {
    let input = format!(" “a”{}{}\n", TAIL, TAIL);
    assert_eq!(remove_excerpt(input.clone()), input.trim());
    assert_eq!(strip(input.clone()), input.trim());
}

#[test]
fn overlapping_markers_split_in_two() {
    let input = "“a”\n\nExcerpt From\n\nExcerpt From\nx".to_string();
    assert_eq!(remove_excerpt(input), "a");
}

#[test]
fn dangling_closing_quote_at_end_is_removed() {
    let input = with_tail("elderly father...distance. But s”");
    assert_eq!(remove_excerpt(input), "elderly father...distance. But s");
}

#[test]
fn dangling_opening_quote_at_start_is_removed() {
    let input = with_tail("“elderly father...distance. But s");
    assert_eq!(remove_excerpt(input), "elderly father...distance. But s");
}

#[test]
fn opening_quote_at_start_with_dangling_closer_removes_last_only() {
    let input = with_tail("“elderly” father...distance. But s”");
    assert_eq!(remove_excerpt(input), "“elderly” father...distance. But s");
}

#[test]
fn nested_balanced_quotes_are_kept() {
    let input = with_tail("“He said” then “she said”");
    assert_eq!(remove_excerpt(input), "“He said” then “she said”");
}

#[test]
fn inner_pair_inside_outer_pair_strips_outer() {
    let input = with_tail("“He said “no” to me”");
    assert_eq!(remove_excerpt(input), "He said “no” to me");
}

#[test]
fn quotes_in_the_middle_are_kept() {
    let input = with_tail("He said “no” to me");
    assert_eq!(remove_excerpt(input), "He said “no” to me");
}

#[test]
fn excerpt_without_quotes_is_kept_whole() {
    assert_eq!(remove_excerpt(with_tail("abcd")), "abcd");
    assert_eq!(remove_excerpt(with_tail("a")), "a");
    assert_eq!(strip("a\n\nExcerpt From\nb".to_string()), "a");
}

#[test]
fn empty_inputs_do_not_panic() {
    assert_eq!(remove_excerpt(String::new()), "");
    assert_eq!(remove_excerpt("   ".to_string()), "");
    assert_eq!(remove_excerpt("\n\nExcerpt From\nx".to_string()), "\n\nExcerpt From\nx".trim());
    assert_eq!(strip("\n\nExcerpt From\nx".to_string()), "Excerpt From\nx");
    assert_eq!(strip(" “a”\n\nExcerpt From\nX".to_string()), "a");
}

#[test]
fn surrounding_white_space_is_trimmed_before_splitting() {
    let input = format!("  \t{}\n ", with_tail("“Hello World”"));
    assert_eq!(remove_excerpt(input), "Hello World");
}

#[test]
fn extract_is_idempotent() {
    let inputs = vec![
        with_tail("“Hello World”"),
        with_tail("“ spaced ”"),
        with_tail("He said “no” to me"),
        format!("“a”{}{}", TAIL, TAIL),
        "plain text ".to_string(),
    ];
    for input in inputs {
        let once = remove_excerpt(input);
        let twice = remove_excerpt(once.clone());
        assert_eq!(twice, once.trim());
    }
    let once = strip(with_tail("“ spaced ”"));
    assert_eq!(once, " spaced ");
    assert_eq!(strip(once.clone()), "spaced");
}

#[test]
fn multi_byte_characters_are_kept_whole() {
    let input = with_tail("“日本語の文”");
    assert_eq!(remove_excerpt(input), "日本語の文");
    let input = with_tail("é”");
    assert_eq!(remove_excerpt(input), "é");
    let input = with_tail("“é");
    assert_eq!(remove_excerpt(input), "é");
}
