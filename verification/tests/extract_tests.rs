use backloggd_feed::entry::ExtractError;
use backloggd_feed::extract::extract;
use backloggd_feed::status::Status;

const TOOLTIP: &str = "<p class=\"mb-0 time-tooltip\" data-tippy-content=\
\"&lt;time datetime=&quot;2024-01-01T12:00:00Z&quot;&gt;x&lt;/time&gt;\">now</p>";

fn fragment(body: &str) -> String {
    format!("<div class=\"col-auto\">{}</div>{}", TOOLTIP, body)
}

#[test]
fn full_fragment_extracts_all_fields() {
    let frag = fragment(
        "<div class=\"col pl-1\"><a href=\"/u/Ana/\"> Ana </a> finished playing \
         <a href=\"/games/celeste/\"> Celeste </a>\
         <div class=\"stars-inline star-ratings-static\">\
         <div class=\"stars-top\" style=\"width:70%\"></div></div></div>",
    );
    let e = extract(&frag, 500).unwrap();
    assert_eq!(e.username, "Ana");
    assert_eq!(e.game_name, "Celeste");
    assert_eq!(e.game_url, "/games/celeste/");
    assert_eq!(e.rating_halves, 7);
    assert_eq!(e.status, Status::Finished);
    assert_eq!(e.timestamp, 1704110400);
    assert!(e.review.is_none());
}

#[test]
fn game_name_is_entity_decoded() {
    let frag = fragment(
        "<div class=\"col pl-1\"><a href=\"/u/Ana/\">Ana</a> finished \
         <a href=\"/games/x/\">Ico &amp; Yorda</a></div>",
    );
    let e = extract(&frag, 500).unwrap();
    assert_eq!(e.game_name, "Ico & Yorda");
    // The username is trimmed but not decoded further; the raw anchor text
    // had no markup here.
    assert_eq!(e.username, "Ana");
}

#[test]
fn missing_tooltip_is_missing_timestamp() {
    let frag = "<div class=\"col pl-1\"><a href=\"/u/Ana/\">Ana</a> finished \
                <a href=\"/games/x/\">X</a></div>";
    assert_eq!(extract(frag, 500).unwrap_err(), ExtractError::MissingTimestamp);
}

#[test]
fn tooltip_without_time_element_is_missing_timestamp() {
    let frag = "<div class=\"col-auto\">\
                <p class=\"mb-0 time-tooltip\" data-tippy-content=\"no time here\">now</p>\
                </div>\
                <div class=\"col pl-1\"><a href=\"/u/Ana/\">Ana</a> finished \
                <a href=\"/games/x/\">X</a></div>";
    assert_eq!(extract(frag, 500).unwrap_err(), ExtractError::MissingTimestamp);
}

#[test]
fn unparsable_datetime_is_malformed_timestamp() {
    let frag = "<div class=\"col-auto\">\
                <p class=\"mb-0 time-tooltip\" data-tippy-content=\
                \"&lt;time datetime=&quot;yesterday at noon&quot;&gt;x&lt;/time&gt;\">now</p>\
                </div>\
                <div class=\"col pl-1\"><a href=\"/u/Ana/\">Ana</a> finished \
                <a href=\"/games/x/\">X</a></div>";
    assert_eq!(extract(frag, 500).unwrap_err(), ExtractError::MalformedTimestamp);
}

#[test]
fn nonexistent_date_is_malformed_timestamp() {
    let frag = fragment("<div class=\"col pl-1\"><a href=\"/u/Ana/\">Ana</a> finished \
                <a href=\"/games/x/\">X</a></div>")
        .replace("2024-01-01", "2023-02-29");
    assert_eq!(extract(&frag, 500).unwrap_err(), ExtractError::MalformedTimestamp);
}

#[test]
fn no_anchor_is_missing_actor() {
    let frag = fragment("<div class=\"col pl-1\">finished something</div>");
    assert_eq!(extract(&frag, 500).unwrap_err(), ExtractError::MissingActor);
}

#[test]
fn one_anchor_is_missing_game() {
    let frag = fragment("<div class=\"col pl-1\"><a href=\"/u/Ana/\">Ana</a> finished</div>");
    assert_eq!(extract(&frag, 500).unwrap_err(), ExtractError::MissingGame);
}

#[test]
fn game_anchor_without_target_is_missing_game() {
    let frag = fragment(
        "<div class=\"col pl-1\"><a href=\"/u/Ana/\">Ana</a> finished <a>Celeste</a></div>",
    );
    assert_eq!(extract(&frag, 500).unwrap_err(), ExtractError::MissingGame);
}

#[test]
fn review_card_attaches_review() {
    let frag = fragment(
        "<div class=\"col pl-1\"><a href=\"/u/Ana/\">Ana</a> finished \
         <a href=\"/games/celeste/\">Celeste</a></div>\
         <div class=\"review-card\">\
         <div class=\"card-text\">lovely game<br>truly</div>\
         <a class=\"open-review-link\" href=\"/review/99/\">read</a>\
         </div>",
    );
    let e = extract(&frag, 500).unwrap();
    let review = e.review.unwrap();
    assert_eq!(review.review_url, "/review/99/");
    assert_eq!(review.review_text, "lovely game\ntruly");
}

#[test]
fn spoiler_review_is_masked() {
    let frag = fragment(
        "<div class=\"col pl-1\"><a href=\"/u/Ana/\">Ana</a> finished \
         <a href=\"/games/celeste/\">Celeste</a></div>\
         <div class=\"review-card\">\
         <div class=\"spoiler-warning\">spoilers!</div>\
         <div class=\"card-text\">she climbs the mountain</div>\
         <a class=\"open-review-link\" href=\"/review/7/\">read</a>\
         </div>",
    );
    let e = extract(&frag, 500).unwrap();
    assert_eq!(e.review.unwrap().review_text, "||she climbs the mountain||");
}

#[test]
fn review_card_without_body_means_no_review() {
    let frag = fragment(
        "<div class=\"col pl-1\"><a href=\"/u/Ana/\">Ana</a> finished \
         <a href=\"/games/celeste/\">Celeste</a></div>\
         <div class=\"review-card\">\
         <a class=\"open-review-link\" href=\"/review/7/\">read</a>\
         </div>",
    );
    let e = extract(&frag, 500).unwrap();
    assert!(e.review.is_none());
}

#[test]
fn review_card_without_link_means_no_review() {
    let frag = fragment(
        "<div class=\"col pl-1\"><a href=\"/u/Ana/\">Ana</a> finished \
         <a href=\"/games/celeste/\">Celeste</a></div>\
         <div class=\"review-card\">\
         <div class=\"card-text\">text with nowhere to point</div>\
         </div>",
    );
    let e = extract(&frag, 500).unwrap();
    assert!(e.review.is_none());
}

#[test]
fn long_review_is_truncated_through_extraction() {
    // 60 words of 9 characters: 600 characters of body text.
    let word = "abcdefgh ";
    let body: String = word.repeat(60);
    let frag = fragment(&format!(
        "<div class=\"col pl-1\"><a href=\"/u/Ana/\">Ana</a> finished \
         <a href=\"/games/celeste/\">Celeste</a></div>\
         <div class=\"review-card\">\
         <div class=\"card-text\">{}</div>\
         <a class=\"open-review-link\" href=\"/review/1/\">read</a>\
         </div>",
        body.trim_end(),
    ));
    let e = extract(&frag, 500).unwrap();
    let text = e.review.unwrap().review_text;
    assert!(text.chars().count() <= 503);
    assert!(text.ends_with("..."));
}
