//! Deduplication within one poll cycle: entries repeating the same
//! (username, game name) key collapse to the first occurrence, in order.
//! The pass has no memory across cycles — the freshness window is the only
//! cross-cycle guard.

use vstd::prelude::*;

use crate::entry::{RawEntry, RawEntryView};

verus! {

/// The deduplication key of an entry.
pub open spec fn entry_key(e: RawEntryView) -> (Seq<char>, Seq<char>) {
    (e.username, e.game_name)
}

/// The keys occurring in a batch.
pub open spec fn keys_of(s: Seq<RawEntryView>) -> Set<(Seq<char>, Seq<char>)> {
    Set::new(|k: (Seq<char>, Seq<char>)| exists|i: int| 0 <= i < s.len() && entry_key(s[i]) == k)
}

/// The batch with every entry whose key was already seen removed: entries
/// keep their order, and of each key not in `seen` exactly the first
/// occurrence stays.
pub open spec fn dedup_rec(s: Seq<RawEntryView>, seen: Set<(Seq<char>, Seq<char>)>) -> Seq<
    RawEntryView,
>
    decreases s.len(),
{
    if s.len() == 0 {
        s
    } else if seen.contains(entry_key(s[0])) {
        dedup_rec(s.drop_first(), seen)
    } else {
        seq![s[0]] + dedup_rec(s.drop_first(), seen.insert(entry_key(s[0])))
    }
}

/// The deduplicated batch: the first occurrence of each key, in first-seen
/// order.
pub open spec fn dedup_spec(s: Seq<RawEntryView>) -> Seq<RawEntryView> {
    dedup_rec(s, Set::empty())
}

/// Whether some kept entry already carries the key `(u, g)`.
fn holds_key(kept: &Vec<RawEntry>, u: &String, g: &String) -> (r: bool)
    ensures
        r == keys_of(kept.deep_view()).contains((u@, g@)),
{
    let n = kept.len();
    let mut i: usize = 0;
    while i < n
        invariant
            n == kept@.len(),
            0 <= i <= n,
            forall|j: int| 0 <= j < i ==> entry_key(#[trigger] kept.deep_view()[j]) != (u@, g@),
        decreases n - i,
    {
        if kept[i].username.eq(u) && kept[i].game_name.eq(g) {
            proof {
                assert(entry_key(kept.deep_view()[i as int]) == (u@, g@));
                assert(keys_of(kept.deep_view()).contains((u@, g@)));
            }
            return true;
        }
        proof {
            assert(entry_key(kept.deep_view()[i as int]) != (u@, g@));
        }
        i += 1;
    }
    proof {
        if keys_of(kept.deep_view()).contains((u@, g@)) {
            let w = choose|w: int|
                0 <= w < kept.deep_view().len() && entry_key(kept.deep_view()[w]) == (u@, g@);
            assert(entry_key(kept.deep_view()[w]) != (u@, g@));
        }
    }
    false
}

/// Collapses repeated `(username, game_name)` keys within one batch to the
/// first occurrence of each, preserving order.
pub fn dedup(entries: Vec<RawEntry>) -> (r: Vec<RawEntry>)
    ensures
        r.deep_view() == dedup_spec(entries.deep_view()),
{
    let ghost all = entries.deep_view();
    let mut rest = entries;
    let mut kept: Vec<RawEntry> = Vec::new();
    proof {
        assert(kept.deep_view() =~= Seq::<RawEntryView>::empty());
        assert(keys_of(kept.deep_view()) =~= Set::<(Seq<char>, Seq<char>)>::empty());
    }
    while rest.len() > 0
        invariant
            dedup_spec(all) == kept.deep_view() + dedup_rec(
                rest.deep_view(),
                keys_of(kept.deep_view()),
            ),
        decreases rest.len(),
    {
        let ghost rest0 = rest.deep_view();
        let ghost kept0 = kept.deep_view();
        let e = rest.remove(0);
        proof {
            assert(rest.deep_view() =~~= rest0.drop_first());
            assert(e.deep_view() == rest0[0]);
        }
        if holds_key(&kept, &e.username, &e.game_name) {
            proof {
                assert(keys_of(kept0).contains(entry_key(rest0[0])));
            }
        } else {
            let ghost k = entry_key(e.deep_view());
            kept.push(e);
            proof {
                assert(kept.deep_view() =~~= kept0.push(rest0[0]));
                lemma_keys_of_push(kept0, rest0[0]);
                assert(kept.deep_view() + dedup_rec(rest0.drop_first(), keys_of(kept0).insert(k))
                    =~= kept0 + (seq![rest0[0]] + dedup_rec(
                    rest0.drop_first(),
                    keys_of(kept0).insert(k),
                )));
            }
        }
    }
    proof {
        assert(rest.deep_view() =~= Seq::<RawEntryView>::empty());
        assert(kept.deep_view() =~= dedup_spec(all));
    }
    kept
}

/// Appending one entry to a batch adds exactly its key to the key set.
proof fn lemma_keys_of_push(s: Seq<RawEntryView>, e: RawEntryView)
    ensures
        keys_of(s.push(e)) == keys_of(s).insert(entry_key(e)),
{
    let t = s.push(e);
    assert forall|k2: (Seq<char>, Seq<char>)| #[trigger] keys_of(t).contains(k2) implies keys_of(
        s,
    ).insert(entry_key(e)).contains(k2) by {
        let i = choose|i: int| 0 <= i < t.len() && entry_key(t[i]) == k2;
        if i < s.len() {
            assert(entry_key(s[i]) == k2);
            assert(keys_of(s).contains(k2));
        } else {
            assert(t[i] == e);
        }
    }
    assert forall|k2: (Seq<char>, Seq<char>)|
        keys_of(s).insert(entry_key(e)).contains(k2) implies #[trigger] keys_of(t).contains(
        k2,
    ) by {
        if k2 == entry_key(e) {
            assert(entry_key(t[s.len() as int]) == k2);
        } else {
            let i = choose|i: int| 0 <= i < s.len() && entry_key(s[i]) == k2;
            assert(entry_key(t[i]) == k2);
        }
    }
    assert(keys_of(t) =~= keys_of(s).insert(entry_key(e)));
}

/// Deduplication is idempotent: running the pass over its own output
/// changes nothing, for any set of already-seen keys.
proof fn lemma_dedup_rec_idempotent(s: Seq<RawEntryView>, seen: Set<(Seq<char>, Seq<char>)>)
    ensures
        dedup_rec(dedup_rec(s, seen), seen) == dedup_rec(s, seen),
    decreases s.len(),
{
    if s.len() > 0 {
        let k = entry_key(s[0]);
        if seen.contains(k) {
            lemma_dedup_rec_idempotent(s.drop_first(), seen);
        } else {
            lemma_dedup_rec_seen_mono(s.drop_first(), seen.insert(k), seen);
            lemma_dedup_rec_idempotent(s.drop_first(), seen.insert(k));
            let inner = dedup_rec(s.drop_first(), seen.insert(k));
            let whole = seq![s[0]] + inner;
            assert(whole[0] == s[0]);
            assert(whole.drop_first() =~= inner);
        }
    }
}

/// Entries whose keys are in `seen` never appear in the output, so growing
/// `seen` with a key the remainder never resolves differently... more
/// precisely: if the output of `dedup_rec(s, big)` is computed where `big`
/// contains `seen` plus keys that occur in no element of `s`'s output, it
/// equals the output under `big` itself. Specialized here to what the
/// idempotence induction needs: no element of `dedup_rec(s, big)` carries a
/// key of `big`.
proof fn lemma_dedup_rec_seen_mono(
    s: Seq<RawEntryView>,
    big: Set<(Seq<char>, Seq<char>)>,
    seen: Set<(Seq<char>, Seq<char>)>,
)
    ensures
        forall|i: int|
            0 <= i < dedup_rec(s, big).len() ==> !big.contains(
                entry_key(#[trigger] dedup_rec(s, big)[i]),
            ),
    decreases s.len(),
{
    if s.len() > 0 {
        let k = entry_key(s[0]);
        let out = dedup_rec(s, big);
        if big.contains(k) {
            lemma_dedup_rec_seen_mono(s.drop_first(), big, seen);
            assert forall|i: int| 0 <= i < out.len() implies !big.contains(
                entry_key(#[trigger] out[i]),
            ) by {
                assert(out[i] == dedup_rec(s.drop_first(), big)[i]);
            }
        } else {
            lemma_dedup_rec_seen_mono(s.drop_first(), big.insert(k), seen);
            let inner = dedup_rec(s.drop_first(), big.insert(k));
            assert forall|i: int| 0 <= i < out.len() implies !big.contains(
                entry_key(#[trigger] out[i]),
            ) by {
                if i == 0 {
                    assert(out[0] == s[0]);
                } else {
                    assert(out[i] == inner[i - 1]);
                    assert(!big.insert(k).contains(entry_key(inner[i - 1])));
                }
            }
        }
    }
}

/// The idempotence law of deduplication: deduplicating a batch twice gives
/// the same result as deduplicating it once.
pub proof fn lemma_dedup_idempotent(s: Seq<RawEntryView>)
    ensures
        dedup_spec(dedup_spec(s)) == dedup_spec(s),
{
    lemma_dedup_rec_idempotent(s, Set::empty());
}

/// The keys of a deduplicated batch are pairwise distinct: of each key at
/// most one entry remains.
pub proof fn lemma_dedup_distinct_keys(s: Seq<RawEntryView>)
    ensures
        forall|i: int, j: int|
            0 <= i < j < dedup_spec(s).len() ==> entry_key(dedup_spec(s)[i]) != entry_key(
                dedup_spec(s)[j],
            ),
{
    lemma_dedup_rec_distinct(s, Set::empty());
}

proof fn lemma_dedup_rec_distinct(s: Seq<RawEntryView>, seen: Set<(Seq<char>, Seq<char>)>)
    ensures
        forall|i: int, j: int|
            0 <= i < j < dedup_rec(s, seen).len() ==> entry_key(dedup_rec(s, seen)[i])
                != entry_key(dedup_rec(s, seen)[j]),
    decreases s.len(),
{
    if s.len() > 0 {
        let k = entry_key(s[0]);
        let out = dedup_rec(s, seen);
        if seen.contains(k) {
            lemma_dedup_rec_distinct(s.drop_first(), seen);
            assert forall|i: int, j: int|
                0 <= i < j < out.len() implies entry_key(out[i]) != entry_key(out[j]) by {
                assert(out[i] == dedup_rec(s.drop_first(), seen)[i]);
                assert(out[j] == dedup_rec(s.drop_first(), seen)[j]);
            }
        } else {
            lemma_dedup_rec_distinct(s.drop_first(), seen.insert(k));
            lemma_dedup_rec_seen_mono(s.drop_first(), seen.insert(k), seen);
            let inner = dedup_rec(s.drop_first(), seen.insert(k));
            assert forall|i: int, j: int|
                0 <= i < j < out.len() implies entry_key(out[i]) != entry_key(out[j]) by {
                assert(out[j] == inner[j - 1]);
                assert(!seen.insert(k).contains(entry_key(inner[j - 1])));
                if i == 0 {
                    assert(out[0] == s[0]);
                } else {
                    assert(out[i] == inner[i - 1]);
                }
            }
        }
    }
}

/// First-seen order and membership: every entry of the deduplicated batch
/// stands in the original batch, and the first entry of the original batch
/// with any given key is kept whenever the key is new.
pub proof fn lemma_dedup_keeps_first(s: Seq<RawEntryView>)
    ensures
        forall|i: int|
            0 <= i < dedup_spec(s).len() ==> exists|j: int|
                0 <= j < s.len() && s[j] == #[trigger] dedup_spec(s)[i],
        forall|j: int|
            0 <= j < s.len() && (forall|i: int| 0 <= i < j ==> entry_key(s[i]) != entry_key(s[j]))
                ==> dedup_spec(s).contains(s[j]),
{
    lemma_dedup_rec_membership(s, Set::empty());
    assert forall|j: int|
        0 <= j < s.len() && (forall|i: int| 0 <= i < j ==> entry_key(s[i]) != entry_key(s[j]))
        implies dedup_spec(s).contains(s[j]) by {
        lemma_dedup_rec_first(s, Set::empty(), j);
    }
}

proof fn lemma_dedup_rec_membership(s: Seq<RawEntryView>, seen: Set<(Seq<char>, Seq<char>)>)
    ensures
        forall|i: int|
            0 <= i < dedup_rec(s, seen).len() ==> exists|j: int|
                0 <= j < s.len() && s[j] == #[trigger] dedup_rec(s, seen)[i],
    decreases s.len(),
{
    if s.len() > 0 {
        let k = entry_key(s[0]);
        let tail = s.drop_first();
        if seen.contains(k) {
            lemma_dedup_rec_membership(tail, seen);
            assert forall|i: int| 0 <= i < dedup_rec(s, seen).len() implies exists|j: int|
                0 <= j < s.len() && s[j] == #[trigger] dedup_rec(s, seen)[i] by {
                let jj = choose|jj: int| 0 <= jj < tail.len() && tail[jj] == dedup_rec(tail, seen)[i];
                assert(s[jj + 1] == dedup_rec(s, seen)[i]);
            }
        } else {
            lemma_dedup_rec_membership(tail, seen.insert(k));
            let inner = dedup_rec(tail, seen.insert(k));
            let whole = seq![s[0]] + inner;
            assert forall|i: int| 0 <= i < whole.len() implies exists|j: int|
                0 <= j < s.len() && s[j] == #[trigger] whole[i] by {
                if i == 0 {
                    assert(s[0] == whole[0]);
                } else {
                    assert(whole[i] == inner[i - 1]);
                    let jj = choose|jj: int| 0 <= jj < tail.len() && tail[jj] == inner[i - 1];
                    assert(s[jj + 1] == whole[i]);
                }
            }
        }
    }
}

proof fn lemma_dedup_rec_first(s: Seq<RawEntryView>, seen: Set<(Seq<char>, Seq<char>)>, j: int)
    requires
        0 <= j < s.len(),
        forall|i: int| 0 <= i < j ==> entry_key(s[i]) != entry_key(s[j]),
        !seen.contains(entry_key(s[j])),
    ensures
        dedup_rec(s, seen).contains(s[j]),
    decreases s.len(),
{
    let k = entry_key(s[0]);
    let tail = s.drop_first();
    if j == 0 {
        assert(dedup_rec(s, seen)[0] == s[0]);
    } else {
        assert(forall|i: int| 0 <= i < j - 1 ==> entry_key(tail[i]) == entry_key(s[i + 1]));
        assert(tail[j - 1] == s[j]);
        if seen.contains(k) {
            lemma_dedup_rec_first(tail, seen, j - 1);
        } else {
            assert(k != entry_key(s[j]));
            lemma_dedup_rec_first(tail, seen.insert(k), j - 1);
            let inner = dedup_rec(tail, seen.insert(k));
            let whole = seq![s[0]] + inner;
            let w = choose|w: int| 0 <= w < inner.len() && inner[w] == tail[j - 1];
            assert(whole[w + 1] == tail[j - 1]);
        }
    }
}

} // verus!
