use backloggd_feed::config::update_env_lines;

fn lines(xs: &[&str]) -> Vec<String> {
    xs.iter().map(|s| s.to_string()).collect()
}

#[test]
fn matching_line_is_replaced_others_kept() {
    let input = lines(&[
        "DISCORD_TOKEN=SECRET-REDACTED",
        "TWITCH_ACCESS_TOKEN=old",
        "SECONDS_UNTIL_NEXT_CHECK=1800",
    ]);
    let out = update_env_lines(&input, "TWITCH_ACCESS_TOKEN", "new");
    assert_eq!(out.len(), 3);
    assert_eq!(out[0], "DISCORD_TOKEN=SECRET-REDACTED");
    assert_eq!(out[1], "TWITCH_ACCESS_TOKEN=new");
    assert_eq!(out[2], "SECONDS_UNTIL_NEXT_CHECK=1800");
}

#[test]
fn replacement_goes_by_line_start() {
    // Every line starting with the key is rewritten, as the store's rewrite
    // rule says — even when the key only prefixes a longer name.
    let input = lines(&["TWITCH_TOKEN=x", "TWITCH_TOKEN_GENERATION_DATE=2024-01-01"]);
    let out = update_env_lines(&input, "TWITCH_TOKEN", "y");
    assert_eq!(out[0], "TWITCH_TOKEN=y");
    assert_eq!(out[1], "TWITCH_TOKEN=y");
}

#[test]
fn absent_key_changes_nothing() {
    let input = lines(&["A=1", "B=2"]);
    let out = update_env_lines(&input, "C", "3");
    assert_eq!(out, input);
}

#[test]
fn empty_file_stays_empty() {
    let out = update_env_lines(&Vec::new(), "A", "1");
    assert!(out.is_empty());
}
