//! Status classification: maps the free text of an activity row to a closed
//! set of lifecycle statuses by ordered substring matching, and localizes
//! each status to its display text.

use vstd::prelude::*;
use vstd::string::StringExecFns;

use crate::text::{contains_seq, contains_str};

verus! {

/// The closed set of recognized lifecycle statuses. `Unknown` is the
/// fallback for text that matches no keyword and marks an entry as
/// informational noise.
#[derive(Debug, Clone, Copy, PartialEq, Eq, Structural)]
pub enum Status {
    Playing,
    Played,
    Finished,
    Completed,
    Abandoned,
    Shelved,
    Retired,
    Unknown,
}

impl View for Status {
    type V = Status;

    open spec fn view(&self) -> Status {
        *self
    }
}

impl DeepView for Status {
    type V = Status;

    open spec fn deep_view(&self) -> Status {
        *self
    }
}

/// The position of a status in the keyword priority order; smaller wins.
/// `Unknown` has no keyword and sits last.
pub open spec fn status_priority(st: Status) -> int {
    match st {
        Status::Playing => 0,
        Status::Played => 1,
        Status::Finished => 2,
        Status::Completed => 3,
        Status::Abandoned => 4,
        Status::Shelved => 5,
        Status::Retired => 6,
        Status::Unknown => 7,
    }
}

/// The keyword whose presence in the row text signals the status.
pub open spec fn status_keyword(st: Status) -> Seq<char> {
    match st {
        Status::Playing => "now playing"@,
        Status::Played => "played"@,
        Status::Finished => "finished"@,
        Status::Completed => "completed"@,
        Status::Abandoned => "abandoned"@,
        Status::Shelved => "shelved"@,
        Status::Retired => "retired"@,
        Status::Unknown => ""@,
    }
}

/// The status of a fragment's text: the first keyword in priority order
/// that occurs as a substring wins; text matching none is `Unknown`.
pub open spec fn classify_spec(s: Seq<char>) -> Status {
    if contains_seq(s, "now playing"@) { Status::Playing }
    else if contains_seq(s, "played"@) { Status::Played }
    else if contains_seq(s, "finished"@) { Status::Finished }
    else if contains_seq(s, "completed"@) { Status::Completed }
    else if contains_seq(s, "abandoned"@) { Status::Abandoned }
    else if contains_seq(s, "shelved"@) { Status::Shelved }
    else if contains_seq(s, "retired"@) { Status::Retired }
    else { Status::Unknown }
}

/// Classifies the raw text of one activity row.
pub fn classify(s: &str) -> (st: Status)
    ensures
        st == classify_spec(s@),
{
    if contains_str(s, "now playing") { Status::Playing }
    else if contains_str(s, "played") { Status::Played }
    else if contains_str(s, "finished") { Status::Finished }
    else if contains_str(s, "completed") { Status::Completed }
    else if contains_str(s, "abandoned") { Status::Abandoned }
    else if contains_str(s, "shelved") { Status::Shelved }
    else if contains_str(s, "retired") { Status::Retired }
    else { Status::Unknown }
}

/// Classification is total and respects the keyword priority order: every
/// text maps to exactly one status; a recognized result's own keyword occurs
/// in the text while no keyword of strictly higher priority does; and the
/// result is `Unknown` exactly when no keyword occurs at all.
pub proof fn lemma_classify_precedence(s: Seq<char>)
    ensures
        classify_spec(s) != Status::Unknown ==> contains_seq(
            s,
            status_keyword(classify_spec(s)),
        ),
        forall|other: Status|
            status_priority(other) < status_priority(classify_spec(s)) ==> !contains_seq(
                s,
                #[trigger] status_keyword(other),
            ),
        classify_spec(s) == Status::Unknown <==> (forall|other: Status|
            other != Status::Unknown ==> !contains_seq(s, #[trigger] status_keyword(other))),
{
    assert(!contains_seq(s, status_keyword(Status::Playing)) == !contains_seq(
        s,
        "now playing"@,
    ));
    assert(!contains_seq(s, status_keyword(Status::Played)) == !contains_seq(s, "played"@));
    assert(!contains_seq(s, status_keyword(Status::Finished)) == !contains_seq(s, "finished"@));
    assert(!contains_seq(s, status_keyword(Status::Completed)) == !contains_seq(
        s,
        "completed"@,
    ));
    assert(!contains_seq(s, status_keyword(Status::Abandoned)) == !contains_seq(
        s,
        "abandoned"@,
    ));
    assert(!contains_seq(s, status_keyword(Status::Shelved)) == !contains_seq(s, "shelved"@));
    assert(!contains_seq(s, status_keyword(Status::Retired)) == !contains_seq(s, "retired"@));
}

/// The display text of a status.
pub open spec fn localize_spec(st: Status) -> Seq<char> {
    match st {
        Status::Playing => "Jugando"@,
        Status::Played => "Jugado"@,
        Status::Finished => "Terminado"@,
        Status::Completed => "Completado"@,
        Status::Abandoned => "Abandonado"@,
        Status::Shelved => "Aparcado"@,
        Status::Retired => "Retirado"@,
        Status::Unknown => "No sé que ha hecho"@,
    }
}

/// Localizes a status to its display text.
pub fn localize_status(st: &Status) -> (r: String)
    ensures
        r@ == localize_spec(*st),
{
    match st {
        Status::Playing => String::from_str("Jugando"),
        Status::Played => String::from_str("Jugado"),
        Status::Finished => String::from_str("Terminado"),
        Status::Completed => String::from_str("Completado"),
        Status::Abandoned => String::from_str("Abandonado"),
        Status::Shelved => String::from_str("Aparcado"),
        Status::Retired => String::from_str("Retirado"),
        Status::Unknown => String::from_str("No sé que ha hecho"),
    }
}

/// No two recognized statuses share a display text: the localization is
/// injective on the recognized statuses, and only `Unknown` carries the
/// fallback text.
pub proof fn lemma_localize_injective(a: Status, b: Status)
    requires
        a != b,
    ensures
        localize_spec(a) != localize_spec(b),
{
    reveal_strlit("Jugando");
    reveal_strlit("Jugado");
    reveal_strlit("Terminado");
    reveal_strlit("Completado");
    reveal_strlit("Abandonado");
    reveal_strlit("Aparcado");
    reveal_strlit("Retirado");
    reveal_strlit("No sé que ha hecho");
    if localize_spec(a) == localize_spec(b) {
        assert(localize_spec(a).len() == localize_spec(b).len());
        assert(localize_spec(a)[0] == localize_spec(b)[0]);
        assert(false);
    }
}

} // verus!
