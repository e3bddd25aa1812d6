use backloggd_feed::entry::{RawEntry, Review};
use backloggd_feed::notify::{build_notification, covers_query_body, games_query_body};
use backloggd_feed::status::Status;

fn entry_with_review() -> RawEntry {
    RawEntry {
        username: "Ana".to_string(),
        game_name: "Celeste".to_string(),
        game_url: "/games/celeste/".to_string(),
        status: Status::Finished,
        rating_halves: 7,
        timestamp: 1704110400,
        review: Some(Review {
            review_url: "/review/99/".to_string(),
            review_text: "lovely game".to_string(),
        }),
    }
}

#[test]
fn notification_texts_are_exact() {
    let e = entry_with_review();
    let n = build_notification(&e, "https://img.example/ana.png".to_string(), None);
    assert_eq!(n.title, "Celeste ★★★½");
    assert_eq!(n.url, "https://www.backloggd.com/games/celeste/");
    assert_eq!(n.status_line, "Terminado <t:1704110400:R>");
    assert_eq!(n.author_name, "Ana");
    assert_eq!(n.author_url, "https://www.backloggd.com/u/Ana");
    assert_eq!(n.author_icon_url, "https://img.example/ana.png");
    assert_eq!(
        n.description.unwrap(),
        ">>> lovely game\n[Ver review en Backloggd](https://www.backloggd.com/review/99/)"
    );
    assert!(n.thumbnail_url.is_none());
}

#[test]
fn cover_becomes_a_trimmed_thumbnail() {
    let mut e = entry_with_review();
    e.review = None;
    let n = build_notification(&e, "a".to_string(), Some(" co1abc \n".to_string()));
    assert_eq!(
        n.thumbnail_url.unwrap(),
        "https://images.igdb.com/igdb/image/upload/t_cover_big/co1abc.png"
    );
    assert!(n.description.is_none());
}

#[test]
fn unrated_title_has_no_glyphs_but_keeps_the_space() {
    let mut e = entry_with_review();
    e.rating_halves = 0;
    let n = build_notification(&e, "a".to_string(), None);
    assert_eq!(n.title, "Celeste ");
}

#[test]
fn negative_timestamps_render_signed() {
    let mut e = entry_with_review();
    e.timestamp = -1;
    let n = build_notification(&e, "a".to_string(), None);
    assert_eq!(n.status_line, "Terminado <t:-1:R>");
}

#[test]
fn game_query_drops_the_trailing_path_character() {
    assert_eq!(
        games_query_body("/games/celeste/"),
        "fields cover; where url = \"https://www.igdb.com/games/celeste\";"
    );
    assert_eq!(games_query_body(""), "fields cover; where url = \"https://www.igdb.com\";");
}

#[test]
fn cover_query_carries_the_game_id() {
    assert_eq!(covers_query_body(1234), "fields image_id; where game =1234;");
    assert_eq!(covers_query_body(0), "fields image_id; where game =0;");
}
