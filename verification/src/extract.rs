//! The entry extractor: one activity-row fragment becomes one structured
//! record, or an error that the orchestrator isolates to that row. The
//! actor is the first matching anchor and the game the second — the markup
//! reuses one container class for both, so the disambiguation is by
//! position, kept in one place here.

use vstd::prelude::*;

use crate::calendar::{timestamp_valid, timestamp_value, parse_iso_timestamp};
use crate::entry::{ExtractError, RawEntry, RawEntryView, Review, ReviewView};
use crate::scrape::{anchors_of, datetime_of, decoded_of, review_of, star_style_of,
    tooltip_of, decode_entities, scrape_anchors, scrape_datetime, scrape_review,
    scrape_star_style, scrape_tooltip};
use crate::stars::{rating_halves_spec, rating_halves_of_style};
use crate::status::{classify, classify_spec};
use crate::summarize::{summarize, summarize_spec};
use crate::text::{trim_spec, trim_string};

verus! {

/// The half-star rating encoded in a row fragment: absent indicators and
/// absent attributes mean "unrated".
pub open spec fn fragment_rating_spec(frag: Seq<char>) -> int {
    match star_style_of(frag) {
        Option::None => 0,
        Option::Some(attr) => match attr {
            Option::None => 0,
            Option::Some(style) => rating_halves_spec(style),
        },
    }
}

/// The review of a row fragment: present exactly when a review card with
/// both a body and a link to the full review exists; its text is the
/// summarized body.
pub open spec fn fragment_review_spec(frag: Seq<char>, limit: int) -> Option<ReviewView> {
    match review_of(frag) {
        Option::None => Option::None,
        Option::Some(parts) => {
            if parts.1 is Some && parts.2 is Some {
                Option::Some(
                    ReviewView {
                        review_url: parts.2.unwrap(),
                        review_text: summarize_spec(parts.1.unwrap(), parts.0, limit),
                    },
                )
            } else {
                Option::None
            }
        },
    }
}

/// What extraction of a row fragment yields. The timestamp is read in two
/// stages — the tooltip attribute holds a nested snippet whose `<time>`
/// element carries the authoritative value — and a row without one, or with
/// one that is not a valid UTC timestamp, fails. A row without two anchors
/// (actor, then game), or whose game anchor has no target, fails. Everything
/// else is normalized: names and the game path are trimmed, the game name
/// entity-decoded, the status classified from the raw fragment text, the
/// rating read from the star indicator, and the review summarized.
pub open spec fn extract_spec(frag: Seq<char>, limit: int) -> Result<RawEntryView, ExtractError> {
    if tooltip_of(frag) is None {
        Result::Err(ExtractError::MissingTimestamp)
    } else if datetime_of(tooltip_of(frag).unwrap()) is None {
        Result::Err(ExtractError::MissingTimestamp)
    } else if !timestamp_valid(datetime_of(tooltip_of(frag).unwrap()).unwrap()) {
        Result::Err(ExtractError::MalformedTimestamp)
    } else if anchors_of(frag).len() < 1 {
        Result::Err(ExtractError::MissingActor)
    } else if anchors_of(frag).len() < 2 || anchors_of(frag)[1].1 is None {
        Result::Err(ExtractError::MissingGame)
    } else {
        Result::Ok(
            RawEntryView {
                username: trim_spec(anchors_of(frag)[0].0),
                game_name: decoded_of(trim_spec(anchors_of(frag)[1].0)),
                game_url: trim_spec(anchors_of(frag)[1].1.unwrap()),
                status: classify_spec(frag),
                rating_halves: fragment_rating_spec(frag),
                timestamp: timestamp_value(datetime_of(tooltip_of(frag).unwrap()).unwrap()),
                review: fragment_review_spec(frag, limit),
            },
        )
    }
}

/// The shape of an extraction result, for stating contracts.
pub open spec fn extract_result_view(r: Result<RawEntry, ExtractError>) -> Result<
    RawEntryView,
    ExtractError,
> {
    match r {
        Result::Ok(e) => Result::Ok(e@),
        Result::Err(x) => Result::Err(x),
    }
}

/// Extracts one activity-row fragment into a structured record; `limit` is
/// the review length limit. Fails exactly as [`extract_spec`] says, and a
/// malformed row never panics — the caller drops it and continues.
pub fn extract(fragment: &str, limit: usize) -> (r: Result<RawEntry, ExtractError>)
    ensures
        extract_result_view(r) == extract_spec(fragment@, limit as int),
{
    let tooltip = match scrape_tooltip(fragment) {
        Option::Some(t) => t,
        Option::None => {
            return Result::Err(ExtractError::MissingTimestamp);
        },
    };
    assert(tooltip@ == tooltip_of(fragment@).unwrap());
    let datetime = match scrape_datetime(tooltip.as_str()) {
        Option::Some(d) => d,
        Option::None => {
            return Result::Err(ExtractError::MissingTimestamp);
        },
    };
    assert(datetime@ == datetime_of(tooltip_of(fragment@).unwrap()).unwrap());
    let timestamp = match parse_iso_timestamp(datetime.as_str()) {
        Option::Some(t) => t,
        Option::None => {
            return Result::Err(ExtractError::MalformedTimestamp);
        },
    };
    let anchors = scrape_anchors(fragment);
    if anchors.len() == 0 {
        assert(anchors_of(fragment@).len() == 0);
        return Result::Err(ExtractError::MissingActor);
    }
    if anchors.len() == 1 {
        assert(anchors_of(fragment@).len() == 1);
        return Result::Err(ExtractError::MissingGame);
    }
    proof {
        assert(anchors.deep_view()[0] == anchors_of(fragment@)[0]);
        assert(anchors.deep_view()[1] == anchors_of(fragment@)[1]);
    }
    let username = trim_string(anchors[0].0.as_str());
    let game_name_raw = trim_string(anchors[1].0.as_str());
    let game_name = decode_entities(game_name_raw.as_str());
    let game_url = match &anchors[1].1 {
        Option::Some(href) => trim_string(href.as_str()),
        Option::None => {
            return Result::Err(ExtractError::MissingGame);
        },
    };
    let status = classify(fragment);
    let rating_halves = match scrape_star_style(fragment) {
        Option::Some(attr) => match attr {
            Option::Some(style) => rating_halves_of_style(style.as_str()),
            Option::None => 0u8,
        },
        Option::None => 0u8,
    };
    let review = match scrape_review(fragment) {
        Option::Some(parts) => {
            let (is_spoiler, body_opt, link_opt) = parts;
            match (body_opt, link_opt) {
                (Option::Some(body), Option::Some(link)) => Option::Some(
                    Review {
                        review_url: link,
                        review_text: summarize(body.as_str(), is_spoiler, limit),
                    },
                ),
                _ => Option::None,
            }
        },
        Option::None => Option::None,
    };
    let entry = RawEntry {
        username,
        game_name,
        game_url,
        status,
        rating_halves,
        timestamp,
        review,
    };
    Result::Ok(entry)
}

} // verus!
