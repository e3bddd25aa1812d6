//! Notification content: the exact texts of the message sent for one entry
//! (title with star glyphs, links, localized status with a relative
//! timestamp, optional review block and cover thumbnail), and the query
//! bodies of the cover-art lookup. Delivery itself is the caller's concern.

use vstd::prelude::*;
use vstd::string::StringExecFns;

use crate::entry::{RawEntry, RawEntryView, ReviewView};
use crate::stars::{stars_text, stars_text_spec};
use crate::status::{localize_spec, localize_status};
use crate::text::{chars_to_string, dec_i64_spec, i64_to_dec, str_to_chars, trim_spec,
    trim_string};

verus! {

/// The texts of one notification, ready for a chat embed.
pub struct NotificationContent {
    pub title: String,
    pub url: String,
    pub status_line: String,
    pub author_name: String,
    pub author_url: String,
    pub author_icon_url: String,
    pub description: Option<String>,
    pub thumbnail_url: Option<String>,
}

/// The notification title: the game name, a space, and the star glyphs.
pub open spec fn title_spec(e: RawEntryView) -> Seq<char> {
    e.game_name + " "@ + stars_text_spec(e.rating_halves)
}

/// The clickable target of the notification: the site root plus the game's
/// path.
pub open spec fn game_link_spec(e: RawEntryView) -> Seq<char> {
    "https://www.backloggd.com"@ + e.game_url
}

/// The status field: the localized status and a relative timestamp tag
/// carrying the entry's epoch second.
pub open spec fn status_line_spec(e: RawEntryView) -> Seq<char> {
    localize_spec(e.status) + " <t:"@ + dec_i64_spec(e.timestamp) + ":R>"@
}

/// The author link: the site's profile path plus the username.
pub open spec fn author_url_spec(e: RawEntryView) -> Seq<char> {
    "https://www.backloggd.com/u/"@ + e.username
}

/// The review block: a quoted review text and an attribution link to the
/// full review on the site.
pub open spec fn description_spec(r: ReviewView) -> Seq<char> {
    ">>> "@ + r.review_text + "\n[Ver review en Backloggd](https://www.backloggd.com"@
        + r.review_url + ")"@
}

/// The cover thumbnail: the image host path plus the trimmed image id.
pub open spec fn thumbnail_spec(cover: Seq<char>) -> Seq<char> {
    "https://images.igdb.com/igdb/image/upload/t_cover_big/"@ + trim_spec(cover) + ".png"@
}

/// Builds the notification texts for one entry; `avatar_url` and `cover`
/// are the enrichments the orchestrator fetched (the cover may be absent).
pub fn build_notification(e: &RawEntry, avatar_url: String, cover: Option<String>) -> (r:
    NotificationContent)
    ensures
        r.title@ == title_spec(e@),
        r.url@ == game_link_spec(e@),
        r.status_line@ == status_line_spec(e@),
        r.author_name@ == e@.username,
        r.author_url@ == author_url_spec(e@),
        r.author_icon_url@ == avatar_url@,
        r.description.deep_view() == match e@.review {
            Option::Some(rv) => Option::Some(description_spec(rv)),
            Option::None => Option::None::<Seq<char>>,
        },
        r.thumbnail_url.deep_view() == match cover {
            Option::Some(c) => Option::Some(thumbnail_spec(c@)),
            Option::None => Option::None::<Seq<char>>,
        },
{
    let mut title = e.game_name.clone();
    title.append(" ");
    let glyphs = stars_text(e.rating_halves);
    title.append(glyphs.as_str());
    assert(title@ =~= title_spec(e@));

    let mut url = String::from_str("https://www.backloggd.com");
    url.append(e.game_url.as_str());

    let mut status_line = localize_status(&e.status);
    status_line.append(" <t:");
    let ts = i64_to_dec(e.timestamp);
    status_line.append(ts.as_str());
    status_line.append(":R>");
    assert(status_line@ =~= status_line_spec(e@));

    let mut author_url = String::from_str("https://www.backloggd.com/u/");
    author_url.append(e.username.as_str());

    let description = match &e.review {
        Option::Some(review) => {
            let mut d = String::from_str(">>> ");
            d.append(review.review_text.as_str());
            d.append("\n[Ver review en Backloggd](https://www.backloggd.com");
            d.append(review.review_url.as_str());
            d.append(")");
            assert(d@ =~= description_spec(review@));
            Option::Some(d)
        },
        Option::None => Option::None,
    };

    let thumbnail_url = match cover {
        Option::Some(c) => {
            let mut t = String::from_str(
                "https://images.igdb.com/igdb/image/upload/t_cover_big/",
            );
            let trimmed = trim_string(c.as_str());
            t.append(trimmed.as_str());
            t.append(".png");
            assert(t@ =~= thumbnail_spec(c@));
            Option::Some(t)
        },
        Option::None => Option::None,
    };

    NotificationContent {
        title,
        url,
        status_line,
        author_name: e.username.clone(),
        author_url,
        author_icon_url: avatar_url,
        description,
        thumbnail_url,
    }
}

/// The query body of the game lookup: the game's site path with its
/// trailing character dropped, spliced into a fixed query. An empty path is
/// passed through unshortened.
pub open spec fn games_query_spec(game_url: Seq<char>) -> Seq<char> {
    let shortened = if game_url.len() >= 1 {
        game_url.take(game_url.len() - 1)
    } else {
        game_url
    };
    "fields cover; where url = \"https://www.igdb.com"@ + shortened + "\";"@
}

/// Builds the body of the game-id lookup query for a game's site path.
pub fn games_query_body(game_url: &str) -> (r: String)
    ensures
        r@ == games_query_spec(game_url@),
{
    let mut chars = str_to_chars(game_url);
    if chars.len() >= 1 {
        chars.pop();
        assert(chars@ =~= game_url@.take(game_url@.len() - 1));
    }
    let shortened = chars_to_string(&chars);
    let mut r = String::from_str("fields cover; where url = \"https://www.igdb.com");
    r.append(shortened.as_str());
    r.append("\";");
    r
}

/// The query body of the cover lookup for a game id.
pub open spec fn covers_query_spec(game_id: int) -> Seq<char> {
    "fields image_id; where game ="@ + dec_i64_spec(game_id) + ";"@
}

/// Builds the body of the cover-image lookup query for a game id.
pub fn covers_query_body(game_id: i32) -> (r: String)
    ensures
        r@ == covers_query_spec(game_id as int),
{
    let mut r = String::from_str("fields image_id; where game =");
    let id = i64_to_dec(game_id as i64);
    r.append(id.as_str());
    r.append(";");
    r
}

} // verus!
