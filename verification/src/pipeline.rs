//! One ingestion pass over a fetched document: split into activity rows,
//! extract each row (dropping malformed rows, never the batch), keep the
//! entries inside the freshness window, and collapse duplicate keys. The
//! pass is stateless: nothing persists across poll cycles.

use vstd::prelude::*;

use crate::calendar::{fresh_spec, is_fresh};
use crate::dedup::{dedup, dedup_spec, lemma_dedup_keeps_first};
use crate::entry::{RawEntry, RawEntryView};
use crate::extract::{extract, extract_spec};
use crate::scrape::{rows_of, scrape_rows};
use crate::status::Status;

verus! {

/// The entries of the rows that extract cleanly, in document order;
/// malformed rows contribute nothing.
pub open spec fn extract_all(rows: Seq<Seq<char>>, limit: int) -> Seq<RawEntryView>
    decreases rows.len(),
{
    if rows.len() == 0 {
        Seq::empty()
    } else {
        let rest = extract_all(rows.drop_first(), limit);
        match extract_spec(rows[0], limit) {
            Result::Ok(e) => seq![e] + rest,
            Result::Err(_) => rest,
        }
    }
}

/// The entries whose timestamps fall inside the freshness window, in order.
pub open spec fn fresh_only(s: Seq<RawEntryView>, now: int, window: int) -> Seq<RawEntryView>
    decreases s.len(),
{
    if s.len() == 0 {
        s
    } else {
        let rest = fresh_only(s.drop_first(), now, window);
        if fresh_spec(s[0].timestamp, now, window) {
            seq![s[0]] + rest
        } else {
            rest
        }
    }
}

/// One full pass over a batch of row fragments: extraction, freshness
/// filtering, deduplication.
pub open spec fn pipeline_spec(rows: Seq<Seq<char>>, now: int, window: int, limit: int) -> Seq<
    RawEntryView,
> {
    dedup_spec(fresh_only(extract_all(rows, limit), now, window))
}

/// Processes a batch of activity-row fragments: extracts each fragment,
/// drops rows that fail extraction or fall outside the freshness window,
/// and collapses duplicate `(username, game_name)` keys to the first
/// occurrence. `now` is the ingestion time and `window` the staleness
/// threshold, both in seconds; `limit` is the review length limit.
pub fn process_fragments(fragments: &Vec<String>, now: i64, window: i64, limit: usize) -> (r: Vec<
    RawEntry,
>)
    ensures
        r.deep_view() == pipeline_spec(fragments.deep_view(), now as int, window as int,
            limit as int),
{
    let ghost rows = fragments.deep_view();
    let n = fragments.len();
    let mut kept: Vec<RawEntry> = Vec::new();
    let mut i: usize = 0;
    proof {
        assert(rows.skip(0) =~= rows);
        assert(kept.deep_view() =~= Seq::<RawEntryView>::empty());
    }
    while i < n
        invariant
            n == fragments@.len(),
            rows == fragments.deep_view(),
            0 <= i <= n,
            fresh_only(extract_all(rows, limit as int), now as int, window as int)
                == kept.deep_view() + fresh_only(
                extract_all(rows.skip(i as int), limit as int),
                now as int,
                window as int,
            ),
        decreases n - i,
    {
        let ghost rest = rows.skip(i as int);
        let ghost kept0 = kept.deep_view();
        proof {
            assert(rest.drop_first() =~= rows.skip(i + 1 as int));
            assert(rest[0] =~~= fragments@[i as int]@);
        }
        match extract(fragments[i].as_str(), limit) {
            Result::Ok(e) => {
                let ghost ev = e.deep_view();
                let ghost inner = fresh_only(
                    extract_all(rest.drop_first(), limit as int),
                    now as int,
                    window as int,
                );
                proof {
                    let cons = seq![ev] + extract_all(rest.drop_first(), limit as int);
                    assert(extract_all(rest, limit as int) == cons);
                    assert(cons[0] == ev);
                    assert(cons.drop_first() =~= extract_all(rest.drop_first(), limit as int));
                }
                if is_fresh(e.timestamp, now, window) {
                    kept.push(e);
                    proof {
                        assert(kept.deep_view() =~~= kept0.push(ev));
                        assert(kept.deep_view() + inner =~= kept0 + (seq![ev] + inner));
                    }
                } else {
                }
            },
            Result::Err(_) => {},
        }
        i += 1;
    }
    proof {
        assert(rows.skip(n as int) =~= Seq::<Seq<char>>::empty());
        assert(kept.deep_view() =~= fresh_only(
            extract_all(rows, limit as int),
            now as int,
            window as int,
        ));
    }
    dedup(kept)
}

proof fn lemma_fresh_only_is_fresh(s: Seq<RawEntryView>, now: int, window: int)
    ensures
        forall|i: int|
            0 <= i < fresh_only(s, now, window).len() ==> fresh_spec(
                #[trigger] fresh_only(s, now, window)[i].timestamp,
                now,
                window,
            ),
    decreases s.len(),
{
    if s.len() > 0 {
        lemma_fresh_only_is_fresh(s.drop_first(), now, window);
        let out = fresh_only(s, now, window);
        let inner = fresh_only(s.drop_first(), now, window);
        assert forall|i: int| 0 <= i < out.len() implies fresh_spec(
            #[trigger] out[i].timestamp,
            now,
            window,
        ) by {
            if fresh_spec(s[0].timestamp, now, window) {
                if i > 0 {
                    assert(out[i] == inner[i - 1]);
                }
            } else {
                assert(out[i] == inner[i]);
            }
        }
    }
}

/// The window guard of the pipeline: every entry an ingestion pass hands on
/// is fresh — strictly younger than the staleness window at ingestion time.
pub proof fn lemma_pipeline_entries_fresh(rows: Seq<Seq<char>>, now: int, window: int, limit: int)
    ensures
        forall|i: int|
            0 <= i < pipeline_spec(rows, now, window, limit).len() ==> fresh_spec(
                #[trigger] pipeline_spec(rows, now, window, limit)[i].timestamp,
                now,
                window,
            ),
{
    let filtered = fresh_only(extract_all(rows, limit), now, window);
    lemma_fresh_only_is_fresh(extract_all(rows, limit), now, window);
    lemma_dedup_keeps_first(filtered);
    assert forall|i: int| 0 <= i < pipeline_spec(rows, now, window, limit).len() implies fresh_spec(
        #[trigger] pipeline_spec(rows, now, window, limit)[i].timestamp,
        now,
        window,
    ) by {
        let j = choose|j: int| 0 <= j < filtered.len() && filtered[j] == dedup_spec(filtered)[i];
        assert(fresh_spec(filtered[j].timestamp, now, window));
    }
}

/// The entries whose status is not in the exclusion set, in order.
pub open spec fn without_statuses_spec(s: Seq<RawEntryView>, excluded: Seq<Status>) -> Seq<
    RawEntryView,
>
    decreases s.len(),
{
    if s.len() == 0 {
        s
    } else {
        let rest = without_statuses_spec(s.drop_first(), excluded);
        if excluded.contains(s[0].status) {
            rest
        } else {
            seq![s[0]] + rest
        }
    }
}

/// Whether a status stands in the exclusion set.
fn status_excluded(st: Status, excluded: &Vec<Status>) -> (r: bool)
    ensures
        r == excluded.deep_view().contains(st),
{
    let n = excluded.len();
    let mut i: usize = 0;
    while i < n
        invariant
            n == excluded@.len(),
            0 <= i <= n,
            forall|j: int| 0 <= j < i ==> excluded.deep_view()[j] != st,
        decreases n - i,
    {
        if excluded[i] == st {
            assert(excluded.deep_view()[i as int] == st);
            return true;
        }
        assert(excluded.deep_view()[i as int] != st);
        i += 1;
    }
    proof {
        if excluded.deep_view().contains(st) {
            let w = choose|w: int|
                0 <= w < excluded.deep_view().len() && excluded.deep_view()[w] == st;
            assert(excluded.deep_view()[w] != st);
        }
    }
    false
}

/// Drops the entries whose status stands in the exclusion set — the
/// notification policy is the caller's: which statuses are noise (the
/// unclassified fallback, or further ones) is configuration, not fixed in
/// the classifier.
pub fn exclude_statuses(entries: Vec<RawEntry>, excluded: &Vec<Status>) -> (r: Vec<RawEntry>)
    ensures
        r.deep_view() == without_statuses_spec(entries.deep_view(), excluded.deep_view()),
{
    let ghost all = entries.deep_view();
    let ghost ex = excluded.deep_view();
    let mut rest = entries;
    let mut kept: Vec<RawEntry> = Vec::new();
    proof {
        assert(kept.deep_view() =~= Seq::<RawEntryView>::empty());
    }
    while rest.len() > 0
        invariant
            ex == excluded.deep_view(),
            without_statuses_spec(all, ex) == kept.deep_view() + without_statuses_spec(
                rest.deep_view(),
                ex,
            ),
        decreases rest.len(),
    {
        let ghost rest0 = rest.deep_view();
        let ghost kept0 = kept.deep_view();
        let e = rest.remove(0);
        proof {
            assert(rest.deep_view() =~~= rest0.drop_first());
            assert(e.deep_view() == rest0[0]);
        }
        if !status_excluded(e.status, excluded) {
            let ghost ev = e.deep_view();
            kept.push(e);
            proof {
                assert(kept.deep_view() =~~= kept0.push(ev));
                assert(kept.deep_view() + without_statuses_spec(rest0.drop_first(), ex) =~= kept0
                    + (seq![ev] + without_statuses_spec(rest0.drop_first(), ex)));
            }
        }
    }
    proof {
        assert(rest.deep_view() =~= Seq::<RawEntryView>::empty());
        assert(kept.deep_view() =~= without_statuses_spec(all, ex));
    }
    kept
}

/// One full ingestion pass over a fetched HTML document: the document's
/// activity rows run through extraction, the freshness filter and
/// deduplication, yielding the notification-ready entries in document
/// order.
pub fn ingest(html: &str, now: i64, window: i64, limit: usize) -> (r: Vec<RawEntry>)
    ensures
        r.deep_view() == pipeline_spec(rows_of(html@), now as int, window as int, limit as int),
{
    let fragments = scrape_rows(html);
    process_fragments(&fragments, now, window, limit)
}

} // verus!
