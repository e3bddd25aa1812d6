use backloggd_feed::summarize::summarize;

#[test]
fn short_input_passes_through_with_breaks_converted() {
    assert_eq!(summarize("good<br>game", false, 500), "good\ngame");
}

#[test]
fn short_spoiler_is_wrapped() {
    assert_eq!(summarize("good game", true, 500), "||good game||");
}

#[test]
fn six_hundred_characters_truncate_within_marker_bound() {
    // 60 words of 9 letters, each followed by a space: 600 characters.
    let long: String = "abcdefghi ".repeat(60);
    assert_eq!(long.chars().count(), 600);
    let out = summarize(&long, false, 500);
    assert!(out.chars().count() <= 503);
    assert!(out.ends_with("..."));
    // Whitespace boundary: what precedes the marker is whole words.
    let kept = &out[..out.len() - 3];
    for w in kept.split_whitespace() {
        assert_eq!(w, "abcdefghi");
    }
}

#[test]
fn truncation_keeps_whole_words() {
    let out = summarize("hello world wonderful", false, 12);
    assert_eq!(out, "hello world...");
}

#[test]
fn truncated_spoiler_wraps_the_truncated_text() {
    let out = summarize("hello world wonderful", true, 12);
    assert_eq!(out, "||hello world...||");
}

#[test]
fn no_marker_when_nothing_was_cut() {
    // The text is exactly at the limit, so the truncation path runs, but
    // joining the words keeps every character: no marker is appended and
    // the trailing space of the greedy join stays.
    assert_eq!(summarize("ab cd", false, 5), "ab cd ");
}

#[test]
fn first_word_longer_than_limit_leaves_only_the_marker() {
    assert_eq!(summarize("incomprehensibilities yes", false, 10), "...");
}

#[test]
fn empty_input_stays_empty_at_zero_limit() {
    assert_eq!(summarize("", false, 0), "");
}

#[test]
fn break_markup_counts_once_replaced() {
    // After replacement the text is 9 characters and passes through whole.
    assert_eq!(summarize("good<br>game", false, 10), "good\ngame");
}
