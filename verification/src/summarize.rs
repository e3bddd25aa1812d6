//! Review summarization: line-break markup becomes newlines; text at or
//! over the length limit is truncated greedily on whitespace boundaries and
//! marked; spoilers are wrapped in a masking delimiter. Lengths count
//! characters.

use vstd::prelude::*;
use vstd::string::StringExecFns;

use crate::text::{is_space, is_space_char, str_to_chars, trim_chars, trim_spec,
    trim_start_spec, trim_end_spec, chars_to_string};

verus! {

/// `s` with every occurrence of `<br>` replaced by a newline, scanning left
/// to right without overlap.
pub open spec fn replace_br_spec(s: Seq<char>) -> Seq<char>
    decreases s.len(),
{
    if s.len() == 0 {
        s
    } else if s.len() >= 4 && s.subrange(0, 4) == "<br>"@ {
        seq!['\n'] + replace_br_spec(s.skip(4))
    } else {
        seq![s[0]] + replace_br_spec(s.skip(1))
    }
}

/// Replaces `<br>` markup by newline characters.
pub fn replace_br(v: &Vec<char>) -> (r: Vec<char>)
    ensures
        r@ == replace_br_spec(v@),
{
    proof {
        reveal_strlit("<br>");
    }
    let n = v.len();
    let mut out: Vec<char> = Vec::new();
    let mut i: usize = 0;
    proof {
        assert(v@.skip(0) =~= v@);
        assert(out@ + replace_br_spec(v@) =~= replace_br_spec(v@));
    }
    while i < n
        invariant
            n == v@.len(),
            0 <= i <= n,
            replace_br_spec(v@) == out@ + replace_br_spec(v@.skip(i as int)),
            "<br>"@ =~= seq!['<', 'b', 'r', '>'],
        decreases n - i,
    {
        let ghost rest = v@.skip(i as int);
        let ghost out0 = out@;
        if n - i >= 4 && v[i] == '<' && v[i + 1] == 'b' && v[i + 2] == 'r' && v[i + 3] == '>' {
            proof {
                assert(rest.subrange(0, 4) =~= "<br>"@);
                assert(rest.skip(4) =~= v@.skip(i + 4 as int));
            }
            out.push('\n');
            proof {
                assert(out@ + replace_br_spec(v@.skip(i + 4 as int)) =~= out0 + replace_br_spec(
                    rest,
                ));
            }
            i += 4;
        } else {
            proof {
                if rest.len() >= 4 && rest.subrange(0, 4) == "<br>"@ {
                    assert(rest.subrange(0, 4)[0] == v@[i as int]);
                    assert(rest.subrange(0, 4)[1] == v@[i + 1]);
                    assert(rest.subrange(0, 4)[2] == v@[i + 2]);
                    assert(rest.subrange(0, 4)[3] == v@[i + 3]);
                    assert(false);
                }
                assert(rest.skip(1) =~= v@.skip(i + 1 as int));
            }
            out.push(v[i]);
            proof {
                assert(out@ + replace_br_spec(v@.skip(i + 1 as int)) =~= out0 + replace_br_spec(
                    rest,
                ));
            }
            i += 1;
        }
    }
    proof {
        assert(v@.skip(n as int) =~= Seq::<char>::empty());
        assert(out@ =~= replace_br_spec(v@));
    }
    out
}

/// The whitespace-delimited words of `s`, scanned one character at a time;
/// `cur` is the word being accumulated.
pub open spec fn words_with(s: Seq<char>, cur: Seq<char>) -> Seq<Seq<char>>
    decreases s.len(),
{
    if s.len() == 0 {
        if cur.len() == 0 {
            Seq::empty()
        } else {
            seq![cur]
        }
    } else if is_space_char(s[0]) {
        if cur.len() == 0 {
            words_with(s.drop_first(), cur)
        } else {
            seq![cur] + words_with(s.drop_first(), Seq::empty())
        }
    } else {
        words_with(s.drop_first(), cur.push(s[0]))
    }
}

/// The whitespace-delimited words of `s`, in order, without empty words.
pub open spec fn words_spec(s: Seq<char>) -> Seq<Seq<char>> {
    words_with(s, Seq::empty())
}

/// Splits a character sequence into its whitespace-delimited words.
pub fn split_words(t: &Vec<char>) -> (r: Vec<Vec<char>>)
    ensures
        r.deep_view() == words_spec(t@),
{
    let n = t.len();
    let mut out: Vec<Vec<char>> = Vec::new();
    let mut cur: Vec<char> = Vec::new();
    let mut i: usize = 0;
    proof {
        assert(t@.skip(0) =~= t@);
        assert(out.deep_view() + words_with(t@, cur@) =~~= words_with(t@, Seq::empty()));
    }
    while i < n
        invariant
            n == t@.len(),
            0 <= i <= n,
            words_spec(t@) == out.deep_view() + words_with(t@.skip(i as int), cur@),
        decreases n - i,
    {
        let ghost rest = t@.skip(i as int);
        let ghost out0 = out.deep_view();
        let ghost cur0 = cur@;
        proof {
            assert(rest.drop_first() =~= t@.skip(i + 1 as int));
        }
        let c = t[i];
        if is_space(c) {
            if cur.len() > 0 {
                let finished = cur;
                cur = Vec::new();
                out.push(finished);
                proof {
                    assert(out.deep_view() =~~= out0.push(cur0));
                    assert(out.deep_view() + words_with(t@.skip(i + 1 as int), cur@) =~~= out0 + (
                    seq![cur0] + words_with(rest.drop_first(), Seq::empty())));
                }
            }
        } else {
            cur.push(c);
            proof {
                assert(cur@ =~= cur0.push(rest[0]));
            }
        }
        i += 1;
    }
    proof {
        assert(t@.skip(n as int) =~= Seq::<char>::empty());
    }
    if cur.len() > 0 {
        let ghost out0 = out.deep_view();
        let ghost cur0 = cur@;
        out.push(cur);
        proof {
            assert(out.deep_view() =~~= out0.push(cur0));
            assert(out.deep_view() =~~= out0 + seq![cur0]);
        }
    }
    out
}

/// Greedy accumulation: starting from `cur`, append each next word and one
/// trailing space while the word still fits within `limit`; stop at the
/// first word that would overflow.
pub open spec fn take_words(ws: Seq<Seq<char>>, cur: Seq<char>, limit: int) -> Seq<char>
    decreases ws.len(),
{
    if ws.len() == 0 {
        cur
    } else if cur.len() + ws[0].len() > limit {
        cur
    } else {
        take_words(ws.drop_first(), cur + ws[0] + seq![' '], limit)
    }
}

/// The truncation of over-long text: greedily kept words, and — when that
/// actually shortened the text — trailing whitespace trimmed and an explicit
/// truncation marker appended.
pub open spec fn truncated_spec(t: Seq<char>, limit: int) -> Seq<char> {
    let l = take_words(words_spec(t), Seq::empty(), limit);
    if l.len() < t.len() {
        trim_spec(l) + "..."@
    } else {
        l
    }
}

/// Spoiler masking: the text bracketed by the masking delimiter.
pub open spec fn spoiler_wrap_spec(s: Seq<char>, is_spoiler: bool) -> Seq<char> {
    if is_spoiler {
        "||"@ + s + "||"@
    } else {
        s
    }
}

/// The summarized review: `<br>` markup becomes newlines; text shorter than
/// `limit` is kept whole, anything else is truncated on whitespace
/// boundaries; spoiler masking wraps the final text.
pub open spec fn summarize_spec(review_html: Seq<char>, is_spoiler: bool, limit: int) -> Seq<
    char,
> {
    let t = replace_br_spec(review_html);
    if t.len() < limit {
        spoiler_wrap_spec(t, is_spoiler)
    } else {
        spoiler_wrap_spec(truncated_spec(t, limit), is_spoiler)
    }
}

fn wrap_spoiler(v: Vec<char>, is_spoiler: bool) -> (r: String)
    ensures
        r@ == spoiler_wrap_spec(v@, is_spoiler),
{
    let body = chars_to_string(&v);
    if is_spoiler {
        let mut r = String::from_str("||");
        r.append(body.as_str());
        r.append("||");
        assert(r@ =~= "||"@ + v@ + "||"@);
        r
    } else {
        body
    }
}

/// Summarizes one review: converts line breaks, bounds the length to
/// `limit` plus the truncation marker, and applies spoiler masking.
pub fn summarize(review_html: &str, is_spoiler: bool, limit: usize) -> (r: String)
    ensures
        r@ == summarize_spec(review_html@, is_spoiler, limit as int),
{
    let v = str_to_chars(review_html);
    let t = replace_br(&v);
    let tn = t.len();
    if tn < limit {
        return wrap_spoiler(t, is_spoiler);
    }
    let words = split_words(&t);
    let wn = words.len();
    let mut cur: Vec<char> = Vec::new();
    let mut k: usize = 0;
    proof {
        assert(words.deep_view().skip(0) =~= words.deep_view());
    }
    while k < wn && words[k].len() <= limit && cur.len() <= limit - words[k].len()
        invariant
            wn == words@.len(),
            words.deep_view() == words_spec(t@),
            0 <= k <= wn,
            take_words(words_spec(t@), Seq::empty(), limit as int) == take_words(
                words.deep_view().skip(k as int),
                cur@,
                limit as int,
            ),
            cur@.len() <= limit + 1,
        decreases wn - k,
    {
        let ghost ws = words.deep_view().skip(k as int);
        let ghost cur0 = cur@;
        proof {
            assert(ws[0] == words.deep_view()[k as int]);
            assert(ws.drop_first() =~= words.deep_view().skip(k + 1 as int));
        }
        let w = &words[k];
        let m = w.len();
        let mut j: usize = 0;
        while j < m
            invariant
                m == w@.len(),
                0 <= j <= m,
                cur@ == cur0 + w@.take(j as int),
            decreases m - j,
        {
            cur.push(w[j]);
            assert(cur@ =~= cur0 + w@.take(j + 1 as int));
            j += 1;
        }
        cur.push(' ');
        proof {
            assert(w@.take(m as int) =~= w@);
            assert(cur@ =~= cur0 + words.deep_view()[k as int] + seq![' ']);
        }
        k += 1;
    }
    proof {
        if k == wn {
            assert(words.deep_view().skip(k as int) =~= Seq::<Seq<char>>::empty());
        } else {
            assert(words.deep_view().skip(k as int)[0] =~~= words@[k as int]@);
        }
    }
    let l = cur;
    let ghost lseq = l@;
    assert(lseq == take_words(words_spec(t@), Seq::empty(), limit as int));
    if l.len() < tn {
        let mut trimmed = trim_chars(&l);
        proof {
            reveal_strlit("...");
        }
        trimmed.push('.');
        trimmed.push('.');
        trimmed.push('.');
        proof {
            assert(trimmed@ =~= trim_spec(lseq) + "..."@);
        }
        wrap_spoiler(trimmed, is_spoiler)
    } else {
        wrap_spoiler(l, is_spoiler)
    }
}

/// Lengths through greedy accumulation: if `cur` is within `limit + 1` and
/// ends in a space when nonempty, so does the accumulated result.
proof fn lemma_take_words_len(ws: Seq<Seq<char>>, cur: Seq<char>, limit: int)
    requires
        cur.len() <= limit + 1,
        cur.len() > 0 ==> cur.last() == ' ',
    ensures
        take_words(ws, cur, limit).len() <= limit + 1,
        take_words(ws, cur, limit).len() > 0 ==> take_words(ws, cur, limit).last() == ' ',
    decreases ws.len(),
{
    if ws.len() > 0 && cur.len() + ws[0].len() <= limit {
        let next = cur + ws[0] + seq![' '];
        assert(next.last() == ' ');
        lemma_take_words_len(ws.drop_first(), next, limit);
    }
}

/// Trimming never lengthens text, and strictly shortens text that ends in
/// whitespace.
proof fn lemma_trim_len(s: Seq<char>)
    ensures
        trim_spec(s).len() <= s.len(),
        s.len() > 0 && is_space_char(s.last()) ==> trim_spec(s).len() < s.len(),
{
    lemma_trim_start_len(s);
    lemma_trim_end_len(trim_start_spec(s));
    if s.len() > 0 && is_space_char(s.last()) {
        if trim_start_spec(s).len() > 0 {
            assert(trim_start_spec(s).last() == s.last());
        }
    }
}

proof fn lemma_trim_start_len(s: Seq<char>)
    ensures
        trim_start_spec(s).len() <= s.len(),
        trim_start_spec(s).len() > 0 ==> trim_start_spec(s).last() == s.last(),
    decreases s.len(),
{
    if s.len() > 0 && is_space_char(s[0]) {
        lemma_trim_start_len(s.drop_first());
        if s.len() > 1 {
            assert(s.drop_first().last() == s.last());
        }
    }
}

proof fn lemma_trim_end_len(s: Seq<char>)
    ensures
        trim_end_spec(s).len() <= s.len(),
        s.len() > 0 && is_space_char(s.last()) ==> trim_end_spec(s).len() < s.len(),
    decreases s.len(),
{
    if s.len() > 0 && is_space_char(s.last()) {
        lemma_trim_end_len(s.drop_last());
    }
}

/// The length law of summarization: the summary never exceeds the limit
/// plus the three-character truncation marker (plus the four masking
/// characters when the spoiler wrap applies), and input that is already
/// shorter than the limit passes through whole, only line breaks converted
/// and the spoiler mask applied.
pub proof fn lemma_summarize_bound(review_html: Seq<char>, is_spoiler: bool, limit: int)
    requires
        limit >= 0,
    ensures
        !is_spoiler ==> summarize_spec(review_html, is_spoiler, limit).len() <= limit + 3,
        is_spoiler ==> summarize_spec(review_html, is_spoiler, limit).len() <= limit + 7,
        replace_br_spec(review_html).len() < limit ==> summarize_spec(review_html, is_spoiler, limit)
            == spoiler_wrap_spec(replace_br_spec(review_html), is_spoiler),
{
    reveal_strlit("...");
    reveal_strlit("||");
    let t = replace_br_spec(review_html);
    if t.len() >= limit {
        let l = take_words(words_spec(t), Seq::empty(), limit);
        lemma_take_words_len(words_spec(t), Seq::empty(), limit);
        if l.len() < t.len() {
            lemma_trim_len(l);
            if l.len() == limit + 1 {
                assert(trim_spec(l).len() <= limit);
            }
        }
    }
}

} // verus!
