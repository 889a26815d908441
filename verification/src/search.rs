use vstd::prelude::*;
use crate::model::{Entry, EntryView, Message, entries_view};
use crate::sorting::{is_stable_sort, lemma_insert_front_stable, lemma_stable_sort_same_members, strict_total_order};
use crate::text::{chars_lt, chars_of, chars_order, lemma_chars_order_total, lt_chars};

verus! {

/// The score that the skim fuzzy matcher (`SkimMatcherV2` with its default
/// settings) gives `pattern` in `choice`, or `None` where it finds no match.
pub uninterp spec fn skim_fuzzy_score(choice: Seq<char>, pattern: Seq<char>) -> Option<i64>;

/// Calls `FuzzyMatcher::fuzzy_indices` of `fuzzy_matcher::skim::SkimMatcherV2`
/// with the default settings and keeps the score. The contract claims only that
/// the result is a function of the two texts (named `skim_fuzzy_score`), and
/// that an empty pattern matches with score 0, as the matcher's source does.
#[verifier::external_body]
fn fuzzy_score(choice: &str, pattern: &str) -> (r: Option<i64>)
    ensures
        r == skim_fuzzy_score(choice@, pattern@),
        pattern@.len() == 0 ==> r == Some(0i64),
{
    let matcher = fuzzy_matcher::skim::SkimMatcherV2::default();
    fuzzy_matcher::FuzzyMatcher::fuzzy_indices(&matcher, choice, pattern).map(|found| found.0)
}

/// The text searched for an entry: its title, a space, and its meta text.
pub open spec fn keywords(e: Entry) -> Seq<char> {
    e.title@ + seq![' '] + e.meta@
}

/// The fuzzy score of the query in the keywords of an entry.
pub open spec fn entry_score(e: Entry, query: Seq<char>) -> Option<i64> {
    skim_fuzzy_score(keywords(e), query)
}

/// An entry's title, the key by which entries are listed.
pub open spec fn title_key() -> spec_fn(Entry) -> Seq<char> {
    |e: Entry| e.title@
}

/// The score of an entry that matched the query (0 where none).
pub open spec fn score_key(query: Seq<char>) -> spec_fn(Entry) -> i64 {
    |e: Entry| match entry_score(e, query) {
        Some(s) => s,
        None => 0,
    }
}

/// Higher scores come first.
pub open spec fn descending() -> spec_fn(i64, i64) -> bool {
    |a: i64, b: i64| a > b
}

/// The entries that match the query at all, in their given order.
pub open spec fn matching(entries: Seq<Entry>, query: Seq<char>) -> Seq<Entry> {
    entries.filter(|e: Entry| entry_score(e, query) is Some)
}

/// The keywords of an entry as a string.
pub fn keywords_of(e: &Entry) -> (r: String)
    ensures
        r@ == keywords(*e),
{
    let mut r = e.title.clone();
    r.append(" ");
    r.append(e.meta.as_str());
    proof {
        reveal_strlit(" ");
    }
    r
}

/// Sorts entries by title, keeping entries with equal titles in their order.
pub fn sort_by_title(v: Vec<Entry>) -> (r: Vec<Entry>)
    ensures
        is_stable_sort(r@, v@, title_key(), chars_order()),
{
    let ghost s = v@;
    let mut v = v;
    let mut r: Vec<Entry> = Vec::new();
    proof {
        lemma_chars_order_total();
        assert(s.skip(s.len() as int) =~= Seq::<Entry>::empty());
    }
    while v.len() > 0
        invariant
            v@ == s.take(v.len() as int),
            v.len() <= s.len(),
            is_stable_sort(r@, s.skip(v.len() as int), title_key(), chars_order()),
            strict_total_order(chars_order()),
        decreases v.len(),
    {
        let x = v.pop().unwrap();
        let xc = chars_of(x.title.as_str());
        let mut pos: usize = 0;
        while pos < r.len()
            invariant
                pos <= r.len(),
                xc@ == x.title@,
                forall|i: int| 0 <= i < pos ==> chars_order()(title_key()(#[trigger] r@[i]), title_key()(x)),
            ensures
                pos <= r.len(),
                forall|i: int| 0 <= i < pos ==> chars_order()(title_key()(#[trigger] r@[i]), title_key()(x)),
                pos < r.len() ==> !chars_order()(title_key()(r@[pos as int]), title_key()(x)),
            decreases r.len() - pos,
        {
            let rc = chars_of(r[pos].title.as_str());
            if !lt_chars(&rc, &xc) {
                break;
            }
            pos = pos + 1;
        }
        proof {
            let rest = s.skip(v.len() + 1);
            assert(s.take(v.len() + 1).last() == x);
            assert(seq![x] + rest =~= s.skip(v.len() as int));
            lemma_insert_front_stable(r@, rest, x, pos as int, title_key(), chars_order());
        }
        r.insert(pos, x);
    }
    proof {
        assert(s.skip(0) =~= s);
    }
    r
}

pub proof fn lemma_descending_total()
    ensures
        strict_total_order(descending()),
{
}

/// Keeps the entries that match the query and lists them by score, the
/// highest first, with entries of equal score in their given order.
pub fn rank_by_score(v: Vec<Entry>, query: &String) -> (r: Vec<Entry>)
    ensures
        is_stable_sort(r@, matching(v@, query@), score_key(query@), descending()),
{
    let ghost s = v@;
    let ghost q = query@;
    let ghost key = score_key(q);
    let ghost is_match = |e: Entry| entry_score(e, q) is Some;
    let mut v = v;
    let mut r: Vec<Entry> = Vec::new();
    let mut scores: Vec<i64> = Vec::new();
    proof {
        lemma_descending_total();
        assert(s.skip(s.len() as int) =~= Seq::<Entry>::empty());
        reveal(Seq::filter);
        assert(matching(Seq::<Entry>::empty(), q) =~= Seq::<Entry>::empty());
    }
    while v.len() > 0
        invariant
            v@ == s.take(v.len() as int),
            v.len() <= s.len(),
            q == query@,
            key == score_key(q),
            is_match == (|e: Entry| entry_score(e, q) is Some),
            scores.len() == r.len(),
            forall|i: int| 0 <= i < r.len() ==> scores@[i] == key(#[trigger] r@[i]),
            is_stable_sort(r@, matching(s.skip(v.len() as int), q), key, descending()),
            strict_total_order(descending()),
        decreases v.len(),
    {
        let x = v.pop().unwrap();
        let words = keywords_of(&x);
        let score = fuzzy_score(words.as_str(), query.as_str());
        let ghost rest = s.skip(v.len() + 1);
        proof {
            assert(s.take(v.len() + 1).last() == x);
            assert(seq![x] + rest =~= s.skip(v.len() as int));
            rest.lemma_filter_prepend(x, is_match);
        }
        match score {
            None => {
                assert(Seq::<Entry>::empty() + matching(rest, q) =~= matching(rest, q));
            },
            Some(sx) => {
                let mut pos: usize = 0;
                while pos < r.len()
                    invariant
                        pos <= r.len(),
                        scores.len() == r.len(),
                        forall|i: int| 0 <= i < r.len() ==> scores@[i] == key(#[trigger] r@[i]),
                        key(x) == sx,
                        forall|i: int| 0 <= i < pos ==> descending()(key(#[trigger] r@[i]), key(x)),
                    ensures
                        pos <= r.len(),
                        forall|i: int| 0 <= i < pos ==> descending()(key(#[trigger] r@[i]), key(x)),
                        pos < r.len() ==> !descending()(key(r@[pos as int]), key(x)),
                    decreases r.len() - pos,
                {
                    if scores[pos] <= sx {
                        break;
                    }
                    pos = pos + 1;
                }
                proof {
                    lemma_insert_front_stable(r@, matching(rest, q), x, pos as int, key, descending());
                }
                r.insert(pos, x);
                scores.insert(pos, sx);
            },
        }
    }
    proof {
        assert(s.skip(0) =~= s);
    }
    r
}

/// `r` is what a search for `query` among `entries` gives.
pub open spec fn search_result(r: Seq<Entry>, entries: Seq<Entry>, query: Seq<char>) -> bool {
    &&& query.len() == 0 ==> is_stable_sort(r, entries, title_key(), chars_order())
    &&& query.len() > 0 ==> is_stable_sort(r, matching(entries, query), score_key(query), descending())
}

/// A search neither invents nor loses entries: with an empty query it
/// lists exactly the given entries, otherwise exactly those the query
/// matches.
pub proof fn lemma_search_members(r: Seq<Entry>, entries: Seq<Entry>, query: Seq<char>, x: Entry)
    requires
        search_result(r, entries, query),
    ensures
        query.len() == 0 ==> (r.contains(x) <==> entries.contains(x)),
        query.len() > 0 ==> (r.contains(x) <==> entries.contains(x) && entry_score(x, query) is Some),
{
    if query.len() == 0 {
        lemma_stable_sort_same_members(r, entries, title_key(), chars_order(), x);
    } else {
        let m = matching(entries, query);
        let p = |e: Entry| entry_score(e, query) is Some;
        lemma_stable_sort_same_members(r, m, score_key(query), descending(), x);
        if m.contains(x) {
            entries.lemma_filter_contains_rev(p, x);
            let i = choose|i: int| 0 <= i < m.len() && m[i] == x;
            entries.lemma_filter_pred(p, i);
        }
        if entries.contains(x) && entry_score(x, query) is Some {
            let i = choose|i: int| 0 <= i < entries.len() && entries[i] == x;
            entries.lemma_filter_contains(p, i);
        }
    }
}

/// A search lists the best matches first: with a query, no entry has a
/// higher score than one listed before it, and every entry listed matches;
/// without one, no entry's title comes before the title of an entry
/// listed before it.
pub proof fn lemma_search_order(r: Seq<Entry>, entries: Seq<Entry>, query: Seq<char>)
    requires
        search_result(r, entries, query),
    ensures
        query.len() > 0 ==> forall|i: int, j: int|
            0 <= i < j < r.len() ==> score_key(query)(#[trigger] r[i]) >= score_key(query)(#[trigger] r[j]),
        query.len() > 0 ==> forall|i: int| 0 <= i < r.len() ==> entry_score(#[trigger] r[i], query) is Some,
        query.len() == 0 ==> forall|i: int, j: int|
            0 <= i < j < r.len() ==> !chars_lt((#[trigger] r[j]).title@, (#[trigger] r[i]).title@),
{
    if query.len() > 0 {
        assert forall|i: int, j: int| 0 <= i < j < r.len() implies score_key(query)(#[trigger] r[i]) >= score_key(query)(
            #[trigger] r[j],
        ) by {
            assert(!descending()(score_key(query)(r[j]), score_key(query)(r[i])));
        }
        assert forall|i: int| 0 <= i < r.len() implies entry_score(#[trigger] r[i], query) is Some by {
            assert(r.contains(r[i]));
            lemma_search_members(r, entries, query, r[i]);
        }
    } else {
        assert forall|i: int, j: int| 0 <= i < j < r.len() implies !chars_lt((#[trigger] r[j]).title@, (#[trigger] r[i]).title@) by {
            assert(!chars_order()(title_key()(r[j]), title_key()(r[i])));
        }
    }
}

/// `m` carries the result of a search for `query` among entries with the
/// views `shown`, from the plugin with the given id.
pub open spec fn search_message(m: Message, id: Seq<char>, shown: Seq<EntryView>, query: Seq<char>) -> bool {
    m matches Message::UpdateEntries(pid, es) && pid@ == id && exists|src: Seq<Entry>|
        #![trigger entries_view(src)]
        entries_view(src) == shown && search_result(es@, src, query)
}

/// Filters and orders entries for a query. An empty query keeps every
/// entry, listed by title; otherwise only the entries whose keywords match
/// the query are kept, the best match first.
pub fn search(entries: Vec<Entry>, query: &String) -> (r: Vec<Entry>)
    ensures
        search_result(r@, entries@, query@),
{
    if query.as_str().is_empty() {
        sort_by_title(entries)
    } else {
        rank_by_score(entries, query)
    }
}

} // verus!
