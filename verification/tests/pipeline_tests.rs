use backloggd_feed::dedup::dedup;
use backloggd_feed::entry::RawEntry;
use backloggd_feed::pipeline::{exclude_statuses, ingest};
use backloggd_feed::status::Status;

fn row(username: &str, game: &str, href: &str, width: &str, verb: &str, datetime: &str) -> String {
    format!(
        "<div class=\"row activity\">\
         <div class=\"col-auto\">\
         <p class=\"mb-0 time-tooltip\" data-tippy-content=\
         \"&lt;time datetime=&quot;{dt}&quot;&gt;a moment ago&lt;/time&gt;\">now</p>\
         </div>\
         <div class=\"col pl-1\">\
         <a href=\"/u/{user}/\">{user}</a> {verb} \
         <a href=\"{href}\"> {game} </a>\
         <div class=\"stars-inline star-ratings-static\">\
         <div class=\"stars-top\" style=\"width:{width}%\"></div>\
         </div>\
         </div>\
         </div>",
        dt = datetime,
        user = username,
        game = game,
        href = href,
        verb = verb,
        width = width,
    )
}

const NOW: i64 = 1704110700; // 2024-01-01T12:05:00Z

#[test]
fn single_row_end_to_end() {
    let html = format!(
        "<html><body>{}</body></html>",
        row("Ana", "Celeste", "/games/celeste/", "70", "finished playing Celeste", "2024-01-01T12:00:00Z")
    );
    let logs = ingest(&html, NOW, 1800, 500);
    assert_eq!(logs.len(), 1);
    let e = &logs[0];
    assert_eq!(e.username, "Ana");
    assert_eq!(e.game_name, "Celeste");
    assert_eq!(e.game_url, "/games/celeste/");
    assert_eq!(e.rating_halves, 7); // 3.5 stars
    assert_eq!(e.status, Status::Finished);
    assert_eq!(e.timestamp, 1704110400);
    assert!(e.review.is_none());
}

#[test]
fn duplicate_key_collapses_to_first() {
    let html = format!(
        "<html><body>{}{}</body></html>",
        row("Ana", "Celeste", "/games/celeste/", "70", "finished playing", "2024-01-01T12:00:00Z"),
        row("Ana", "Celeste", "/games/celeste/", "90", "finished playing", "2024-01-01T12:01:00Z"),
    );
    let logs = ingest(&html, NOW, 1800, 500);
    assert_eq!(logs.len(), 1);
    // The first occurrence's fields are the ones retained.
    assert_eq!(logs[0].rating_halves, 7);
    assert_eq!(logs[0].timestamp, 1704110400);
}

#[test]
fn distinct_keys_survive_in_order() {
    let html = format!(
        "<html><body>{}{}{}</body></html>",
        row("Ana", "Celeste", "/games/celeste/", "70", "finished playing", "2024-01-01T12:00:00Z"),
        row("Bo", "Celeste", "/games/celeste/", "80", "finished playing", "2024-01-01T12:01:00Z"),
        row("Ana", "Hades", "/games/hades/", "90", "finished playing", "2024-01-01T12:02:00Z"),
    );
    let logs = ingest(&html, NOW, 1800, 500);
    assert_eq!(logs.len(), 3);
    assert_eq!(logs[0].username, "Ana");
    assert_eq!(logs[0].game_name, "Celeste");
    assert_eq!(logs[1].username, "Bo");
    assert_eq!(logs[2].game_name, "Hades");
}

#[test]
fn stale_row_is_filtered() {
    let html = format!(
        "<html><body>{}</body></html>",
        row("Ana", "Celeste", "/games/celeste/", "70", "finished playing", "2024-01-01T11:30:00Z")
    );
    // 35 minutes old against a 30-minute window.
    let logs = ingest(&html, NOW, 1800, 500);
    assert_eq!(logs.len(), 0);
}

#[test]
fn exactly_at_window_boundary_is_stale() {
    let html = format!(
        "<html><body>{}</body></html>",
        row("Ana", "Celeste", "/games/celeste/", "70", "finished playing", "2024-01-01T11:35:00Z")
    );
    // Exactly 1800 seconds old: `now - t < window` fails.
    let logs = ingest(&html, NOW, 1800, 500);
    assert_eq!(logs.len(), 0);
}

#[test]
fn malformed_row_is_skipped_batch_continues() {
    let bad = "<div class=\"row activity\"><div class=\"col pl-1\">\
               <a href=\"/u/Ana/\">Ana</a></div></div>";
    let html = format!(
        "<html><body>{}{}</body></html>",
        bad,
        row("Bo", "Hades", "/games/hades/", "50", "finished playing", "2024-01-01T12:00:00Z"),
    );
    let logs = ingest(&html, NOW, 1800, 500);
    assert_eq!(logs.len(), 1);
    assert_eq!(logs[0].username, "Bo");
}

#[test]
fn empty_page_yields_empty_batch() {
    let logs = ingest("<html><body><p>nothing here</p></body></html>", NOW, 1800, 500);
    assert_eq!(logs.len(), 0);
}

#[test]
fn unrated_row_has_zero_rating() {
    let html = "<html><body><div class=\"row activity\">\
         <div class=\"col-auto\">\
         <p class=\"mb-0 time-tooltip\" data-tippy-content=\
         \"&lt;time datetime=&quot;2024-01-01T12:00:00Z&quot;&gt;x&lt;/time&gt;\">now</p>\
         </div>\
         <div class=\"col pl-1\"><a href=\"/u/Ana/\">Ana</a> finished \
         <a href=\"/games/celeste/\">Celeste</a></div>\
         </div></body></html>";
    let logs = ingest(html, NOW, 1800, 500);
    assert_eq!(logs.len(), 1);
    assert_eq!(logs[0].rating_halves, 0);
}

fn plain_entry(user: &str, game: &str, halves: u8, ts: i64) -> RawEntry {
    RawEntry {
        username: user.to_string(),
        game_name: game.to_string(),
        game_url: format!("/games/{}/", game.to_lowercase()),
        status: Status::Finished,
        rating_halves: halves,
        timestamp: ts,
        review: None,
    }
}

#[test]
fn status_exclusion_is_caller_policy() {
    let mut unknown = plain_entry("Ana", "Mystery", 0, 1);
    unknown.status = Status::Unknown;
    let mut completed = plain_entry("Bo", "Hades", 10, 2);
    completed.status = Status::Completed;
    let finished = plain_entry("Cy", "Celeste", 7, 3);
    let batch = vec![unknown, completed, finished];
    let kept = exclude_statuses(batch, &vec![Status::Unknown, Status::Completed]);
    assert_eq!(kept.len(), 1);
    assert_eq!(kept[0].username, "Cy");
    let all = vec![
        plain_entry("Ana", "Mystery", 0, 1),
        plain_entry("Bo", "Hades", 10, 2),
    ];
    assert_eq!(exclude_statuses(all, &Vec::new()).len(), 2);
}

#[test]
fn dedup_is_idempotent_on_values() {
    let xs = vec![
        plain_entry("Ana", "Celeste", 7, 1),
        plain_entry("Bo", "Celeste", 6, 2),
        plain_entry("Ana", "Celeste", 9, 3),
        plain_entry("Ana", "Hades", 8, 4),
    ];
    let once = dedup(xs);
    let once_snapshot: Vec<(String, String, u8, i64)> = once
        .iter()
        .map(|e| (e.username.clone(), e.game_name.clone(), e.rating_halves, e.timestamp))
        .collect();
    let twice = dedup(once);
    let twice_snapshot: Vec<(String, String, u8, i64)> = twice
        .iter()
        .map(|e| (e.username.clone(), e.game_name.clone(), e.rating_halves, e.timestamp))
        .collect();
    assert_eq!(once_snapshot, twice_snapshot);
    assert_eq!(once_snapshot.len(), 3);
    // First-seen order, first occurrence retained.
    assert_eq!(once_snapshot[0], ("Ana".to_string(), "Celeste".to_string(), 7, 1));
    assert_eq!(once_snapshot[1], ("Bo".to_string(), "Celeste".to_string(), 6, 2));
    assert_eq!(once_snapshot[2], ("Ana".to_string(), "Hades".to_string(), 8, 4));
}
