//! The structured records of the pipeline: one activity row parsed into a
//! `RawEntry`, with an optional attached `Review`, plus the extraction
//! error taxonomy. Ratings are carried in half-star units and timestamps
//! as UTC epoch seconds.

use vstd::prelude::*;

use crate::status::Status;

verus! {

/// A review attached to an activity row: the link to the full review and
/// its display text, already summarized and spoiler-masked.
#[derive(Debug)]
pub struct Review {
    pub review_url: String,
    pub review_text: String,
}

/// The mathematical shape of a [`Review`].
pub ghost struct ReviewView {
    pub review_url: Seq<char>,
    pub review_text: Seq<char>,
}

impl View for Review {
    type V = ReviewView;

    open spec fn view(&self) -> ReviewView {
        ReviewView { review_url: self.review_url@, review_text: self.review_text@ }
    }
}

impl DeepView for Review {
    type V = ReviewView;

    open spec fn deep_view(&self) -> ReviewView {
        self.view()
    }
}

/// One activity row parsed into a structured record. The pair of `username`
/// and `game_name` is the deduplication key; `rating_halves` counts half
/// stars (0 means unrated); `timestamp` is UTC epoch seconds.
#[derive(Debug)]
pub struct RawEntry {
    pub username: String,
    pub game_name: String,
    pub game_url: String,
    pub status: Status,
    pub rating_halves: u8,
    pub timestamp: i64,
    pub review: Option<Review>,
}

/// The mathematical shape of a [`RawEntry`].
pub ghost struct RawEntryView {
    pub username: Seq<char>,
    pub game_name: Seq<char>,
    pub game_url: Seq<char>,
    pub status: Status,
    pub rating_halves: int,
    pub timestamp: int,
    pub review: Option<ReviewView>,
}

impl View for RawEntry {
    type V = RawEntryView;

    open spec fn view(&self) -> RawEntryView {
        RawEntryView {
            username: self.username@,
            game_name: self.game_name@,
            game_url: self.game_url@,
            status: self.status,
            rating_halves: self.rating_halves as int,
            timestamp: self.timestamp as int,
            review: match self.review {
                Option::Some(rv) => Option::Some(rv@),
                Option::None => Option::None,
            },
        }
    }
}

impl DeepView for RawEntry {
    type V = RawEntryView;

    open spec fn deep_view(&self) -> RawEntryView {
        self.view()
    }
}

/// Why the extraction of one activity row failed. A failure is isolated to
/// its row: the orchestrator drops the row and goes on with the batch.
#[derive(Debug, Clone, Copy, PartialEq, Eq, Structural)]
pub enum ExtractError {
    /// The row carries no machine-readable timestamp.
    MissingTimestamp,
    /// The timestamp text is not a valid UTC timestamp.
    MalformedTimestamp,
    /// The row names no actor.
    MissingActor,
    /// The row names no game, or the game link has no target.
    MissingGame,
}

} // verus!
