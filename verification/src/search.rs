//! Choosing and ordering the links that answer a query.
//!
//! A query is cut into words. A link answers the query if every word is found
//! in its title or its subtitle by fuzzy matching; its score adds up what the
//! words earn, a match in the title counting double.

use crate::link::{link_views, Link, LinkView};
use crate::order::{is_descending, sort_by_key_descending, sort_descending, values};
use crate::text::texts_of;
use vstd::prelude::*;

verus! {

/// The longest word, in characters, that is matched at all. The matcher
/// descends one call for each character of a word, and a thread with the
/// usual two mebibytes of stack has room for fewer than a thousand of these
/// calls; the bound leaves three quarters of that room to the caller.
pub const MAX_TERM_CHARS: usize = 256;

/// How much more a match in the title counts than one in the subtitle.
pub const TITLE_WEIGHT: i128 = 2;

/// The score that `sublime_fuzzy::best_match` gives to its best match of
/// `query` in `target`; `None` where it finds no match of the whole query.
pub uninterp spec fn best_match_score(query: Seq<char>, target: Seq<char>) -> Option<int>;

/// Calls `sublime_fuzzy::best_match` and hands back the score of the match
/// that it found, if it found one. The search descends one call for each
/// character of the query, so queries that would use up the stack are kept
/// away from it.
#[verifier::external_body]
fn fuzzy_score(query: &str, target: &str) -> (r: Option<isize>)
    requires
        query@.len() <= MAX_TERM_CHARS,
    ensures
        match r {
            Some(score) => best_match_score(query@, target@) == Some(score as int),
            None => best_match_score(query@, target@) is None,
        },
{
    sublime_fuzzy::best_match(query, target).map(|found| found.score())
}

/// Whether `c` parts the words of a query.
pub open spec fn is_space(c: char) -> bool {
    c == ' ' || c == '\t' || c == '\n' || c == '\r'
}

/// The words of a query: its longest runs of characters that are not spaces,
/// in their order.
pub open spec fn terms_of(query: Seq<char>) -> Seq<Seq<char>>
    decreases query.len(),
{
    if query.len() == 0 {
        Seq::empty()
    } else {
        let front = terms_of(query.drop_last());
        let c = query.last();
        if is_space(c) {
            front
        } else if query.len() >= 2 && !is_space(query[query.len() - 2]) {
            front.drop_last().push(front.last().push(c))
        } else {
            front.push(seq![c])
        }
    }
}

/// What a word earns in one text: the score of its best fuzzy match there if
/// that is positive, else nothing. A word of more than `MAX_TERM_CHARS`
/// characters earns nothing.
pub open spec fn field_score(term: Seq<char>, field: Seq<char>) -> int {
    if term.len() > MAX_TERM_CHARS {
        0
    } else {
        match best_match_score(term, field) {
            Some(score) => if score > 0 {
                score
            } else {
                0
            },
            None => 0,
        }
    }
}

/// What a word earns in a link: double its earnings in the title, and its
/// earnings in the subtitle.
pub open spec fn term_score(term: Seq<char>, link: LinkView) -> int {
    TITLE_WEIGHT * field_score(term, link.title) + match link.subtitle {
        Some(subtitle) => field_score(term, subtitle),
        None => 0,
    }
}

/// What all the words earn together in a link; `None` if one of them earns
/// nothing.
pub open spec fn total_score(terms: Seq<Seq<char>>, link: LinkView) -> Option<int>
    decreases terms.len(),
{
    if terms.len() == 0 {
        Some(0)
    } else {
        match total_score(terms.drop_last(), link) {
            Some(sum) => {
                let earned = term_score(terms.last(), link);
                if earned == 0 {
                    None
                } else {
                    Some(sum + earned)
                }
            },
            None => None,
        }
    }
}

/// The score of a link for the words of a query: what the words earn
/// together, but no more than `i64::MAX`; `None` if there is no word or one
/// of them earns nothing.
pub open spec fn link_score(terms: Seq<Seq<char>>, link: LinkView) -> Option<i64> {
    if terms.len() == 0 {
        None
    } else {
        match total_score(terms, link) {
            Some(sum) => Some(
                if sum > i64::MAX {
                    i64::MAX
                } else {
                    sum as i64
                },
            ),
            None => None,
        }
    }
}

/// The links that answer the words, each with its score as key and as its
/// `score`, in the order of `links`.
pub open spec fn scored_matches(terms: Seq<Seq<char>>, links: Seq<LinkView>) -> Seq<
    (i128, LinkView),
>
    decreases links.len(),
{
    if links.len() == 0 {
        Seq::empty()
    } else {
        let front = scored_matches(terms, links.drop_last());
        match link_score(terms, links.last()) {
            Some(score) => front.push(
                (score as i128, LinkView { score: Some(score), ..links.last() }),
            ),
            None => front,
        }
    }
}

/// The answer to a query of these words: the links that answer them, best
/// first; links of equal score stay in the order of `links`.
pub open spec fn ranked(terms: Seq<Seq<char>>, links: Seq<LinkView>) -> Seq<LinkView> {
    values(sort_descending(scored_matches(terms, links)))
}

/// Each link with its moment as key and without a score.
pub open spec fn timed(links: Seq<LinkView>) -> Seq<(i128, LinkView)> {
    Seq::new(
        links.len(),
        |i: int| (links[i].timestamp.instant() as i128, LinkView { score: None, ..links[i] }),
    )
}

/// The `limit` latest of `links`, latest first, without scores; links of the
/// same moment stay in the order of `links`.
pub open spec fn latest(links: Seq<LinkView>, limit: nat) -> Seq<LinkView> {
    let sorted = values(sort_descending(timed(links)));
    if limit < sorted.len() {
        sorted.take(limit as int)
    } else {
        sorted
    }
}

/// The keys of `items` beside the values of their links.
pub open spec fn keyed_views(items: Seq<(i128, Link)>) -> Seq<(i128, LinkView)> {
    Seq::new(items.len(), |i: int| (items[i].0, items[i].1@))
}

/// Sorting looks at the keys alone: the values of the sorted links are the
/// sorted values of the links.
pub proof fn lemma_sort_keyed_views(items: Seq<(i128, Link)>)
    ensures
        keyed_views(sort_descending(items)) == sort_descending(keyed_views(items)),
{
    let view = |link: Link| link@;
    crate::order::lemma_sort_relabel(items, view);
    assert(keyed_views(items) =~= crate::order::relabel(items, view));
}

/// The answer to a query loses no link that answers it and invents none, and
/// is ordered by score, best first.
pub proof fn lemma_ranked(terms: Seq<Seq<char>>, links: Seq<LinkView>)
    ensures
        is_descending(sort_descending(scored_matches(terms, links))),
        sort_descending(scored_matches(terms, links)).to_multiset() == scored_matches(
            terms,
            links,
        ).to_multiset(),
        ranked(terms, links).len() == scored_matches(terms, links).len(),
        ranked(terms, links).len() <= links.len(),
        forall|i: int|
            0 <= i < ranked(terms, links).len() ==> (#[trigger] ranked(terms, links)[i]).score
                is Some && ranked(terms, links)[i].score->0 == sort_descending(
                scored_matches(terms, links),
            )[i].0,
        forall|i: int, j: int|
            0 <= i < j < ranked(terms, links).len() ==> ranked(terms, links)[i].score->0 >= ranked(
                terms,
                links,
            )[j].score->0,
{
    crate::order::lemma_sort_descending(scored_matches(terms, links));
    lemma_scored_matches(terms, links);
    let matches = scored_matches(terms, links);
    let sorted = sort_descending(matches);
    assert forall|i: int| 0 <= i < sorted.len() implies (#[trigger] sorted[i]).1.score is Some
        && sorted[i].1.score->0 == sorted[i].0 by {
        broadcast use vstd::seq_lib::group_to_multiset_ensures;

        assert(sorted.to_multiset().count(sorted[i]) > 0);
        assert(matches.to_multiset().count(sorted[i]) > 0);
        assert(matches.contains(sorted[i]));
    }
    assert forall|i: int| 0 <= i < ranked(terms, links).len() implies (#[trigger] ranked(
        terms,
        links,
    )[i]).score is Some && ranked(terms, links)[i].score->0 == sorted[i].0 by {
        assert(ranked(terms, links)[i] == sorted[i].1);
    }
    assert forall|i: int, j: int| 0 <= i < j < ranked(terms, links).len() implies ranked(
        terms,
        links,
    )[i].score->0 >= ranked(terms, links)[j].score->0 by {
        assert(ranked(terms, links)[i] == sorted[i].1);
        assert(ranked(terms, links)[j] == sorted[j].1);
        assert(sorted[i].0 >= sorted[j].0);
    }
}

/// Every scored match carries its key as its score, and there are no more
/// matches than links.
pub proof fn lemma_scored_matches(terms: Seq<Seq<char>>, links: Seq<LinkView>)
    ensures
        scored_matches(terms, links).len() <= links.len(),
        forall|i: int|
            0 <= i < scored_matches(terms, links).len() ==> (#[trigger] scored_matches(
                terms,
                links,
            )[i]).1.score is Some && scored_matches(terms, links)[i].1.score->0 == scored_matches(
                terms,
                links,
            )[i].0,
    decreases links.len(),
{
    if links.len() > 0 {
        lemma_scored_matches(terms, links.drop_last());
    }
}

/// What the words earn together in a link, word by word.
pub open spec fn earnings(terms: Seq<Seq<char>>, link: LinkView) -> int
    decreases terms.len(),
{
    if terms.len() == 0 {
        0
    } else {
        earnings(terms.drop_last(), link) + term_score(terms.last(), link)
    }
}

/// Whether every word earns something in the link.
pub open spec fn every_word_found(terms: Seq<Seq<char>>, link: LinkView) -> bool {
    forall|i: int| 0 <= i < terms.len() ==> term_score(#[trigger] terms[i], link) != 0
}

/// The words earn together the sum of what each earns, if each earns
/// something, and nothing at all if one of them earns nothing.
pub proof fn lemma_total_score(terms: Seq<Seq<char>>, link: LinkView)
    ensures
        total_score(terms, link) == if every_word_found(terms, link) {
            Some(earnings(terms, link))
        } else {
            None
        },
    decreases terms.len(),
{
    if terms.len() > 0 {
        let front = terms.drop_last();
        lemma_total_score(front, link);
        if every_word_found(front, link) && term_score(terms.last(), link) != 0 {
            assert forall|i: int| 0 <= i < terms.len() implies term_score(
                #[trigger] terms[i],
                link,
            ) != 0 by {
                if i < front.len() {
                    assert(front[i] == terms[i]);
                }
            }
        }
    }
}

/// Taking a word away takes away what it earns.
proof fn lemma_earnings_without(terms: Seq<Seq<char>>, link: LinkView, i: int)
    requires
        0 <= i < terms.len(),
    ensures
        earnings(terms, link) == earnings(terms.remove(i), link) + term_score(terms[i], link),
    decreases terms.len(),
{
    if i < terms.len() - 1 {
        lemma_earnings_without(terms.drop_last(), link, i);
        assert(terms.remove(i).drop_last() =~= terms.drop_last().remove(i));
    }
}

/// The same words earn the same, in whatever order they come.
proof fn lemma_earnings_of_same_words(first: Seq<Seq<char>>, second: Seq<Seq<char>>, link: LinkView)
    requires
        first.to_multiset() == second.to_multiset(),
    ensures
        earnings(first, link) == earnings(second, link),
    decreases first.len(),
{
    broadcast use vstd::seq_lib::group_to_multiset_ensures;

    assert(first.len() == first.to_multiset().len());
    assert(second.len() == second.to_multiset().len());
    if first.len() > 0 {
        let word = first.last();
        assert(first.drop_last().push(word) =~= first);
        assert(first.to_multiset().count(word) > 0);
        assert(second.contains(word));
        let j = choose|j: int| 0 <= j < second.len() && second[j] == word;
        assert(first.drop_last().to_multiset() =~= first.to_multiset().remove(word)) by {
            assert(first.remove(first.len() - 1) =~= first.drop_last());
        }
        assert(second.remove(j).to_multiset() =~= second.to_multiset().remove(word));
        lemma_earnings_of_same_words(first.drop_last(), second.remove(j), link);
        lemma_earnings_without(second, link, j);
    }
}

/// The order of the words of a query has no part in the score of a link:
/// two lists of the same words, each as often in the one as in the other,
/// give every link the same score.
pub proof fn lemma_word_order_is_immaterial(
    first: Seq<Seq<char>>,
    second: Seq<Seq<char>>,
    link: LinkView,
)
    requires
        first.to_multiset() == second.to_multiset(),
    ensures
        link_score(first, link) == link_score(second, link),
{
    broadcast use vstd::seq_lib::group_to_multiset_ensures;

    lemma_total_score(first, link);
    lemma_total_score(second, link);
    lemma_earnings_of_same_words(first, second, link);
    assert(first.len() == first.to_multiset().len());
    assert(second.len() == second.to_multiset().len());
    if every_word_found(first, link) {
        assert forall|i: int| 0 <= i < second.len() implies term_score(
            #[trigger] second[i],
            link,
        ) != 0 by {
            assert(second.to_multiset().count(second[i]) > 0);
            assert(first.contains(second[i]));
            let k = choose|k: int| 0 <= k < first.len() && first[k] == second[i];
            assert(term_score(first[k], link) != 0);
        }
    }
    if every_word_found(second, link) {
        assert forall|i: int| 0 <= i < first.len() implies term_score(#[trigger] first[i], link)
            != 0 by {
            assert(first.to_multiset().count(first[i]) > 0);
            assert(second.contains(first[i]));
            let k = choose|k: int| 0 <= k < second.len() && second[k] == first[i];
            assert(term_score(second[k], link) != 0);
        }
    }
}

/// No word of a query is empty, and none holds a space.
pub proof fn lemma_terms_are_words(query: Seq<char>)
    ensures
        forall|i: int|
            0 <= i < terms_of(query).len() ==> (#[trigger] terms_of(query)[i]).len() > 0,
        forall|i: int, k: int|
            0 <= i < terms_of(query).len() && 0 <= k < terms_of(query)[i].len() ==> !is_space(
                #[trigger] terms_of(query)[i][k],
            ),
        query.len() > 0 && !is_space(query.last()) ==> terms_of(query).len() > 0,
    decreases query.len(),
{
    if query.len() > 0 {
        lemma_terms_are_words(query.drop_last());
        if !is_space(query.last()) && query.len() >= 2 && !is_space(query[query.len() - 2]) {
            assert(query.drop_last().last() == query[query.len() - 2]);
            assert(terms_of(query.drop_last()).len() > 0);
        }
    }
}

/// Every scored match is one of the links, with its score filled in.
pub proof fn lemma_scored_matches_come_from_links(
    terms: Seq<Seq<char>>,
    links: Seq<LinkView>,
    i: int,
)
    requires
        0 <= i < scored_matches(terms, links).len(),
    ensures
        exists|k: int|
            0 <= k < links.len() && scored_matches(terms, links)[i].1 == (LinkView {
                score: scored_matches(terms, links)[i].1.score,
                ..#[trigger] links[k]
            }),
    decreases links.len(),
{
    if i < scored_matches(terms, links.drop_last()).len() {
        lemma_scored_matches_come_from_links(terms, links.drop_last(), i);
    }
}

/// Every link that answers the words is among the scored matches.
pub proof fn lemma_scored_matches_miss_none(terms: Seq<Seq<char>>, links: Seq<LinkView>, k: int)
    requires
        0 <= k < links.len(),
        link_score(terms, links[k]) is Some,
    ensures
        scored_matches(terms, links).contains(
            (
                link_score(terms, links[k])->0 as i128,
                LinkView { score: link_score(terms, links[k]), ..links[k] },
            ),
        ),
    decreases links.len(),
{
    let front = scored_matches(terms, links.drop_last());
    let all = scored_matches(terms, links);
    let wanted = (
        link_score(terms, links[k])->0 as i128,
        LinkView { score: link_score(terms, links[k]), ..links[k] },
    );
    if k < links.len() - 1 {
        lemma_scored_matches_miss_none(terms, links.drop_last(), k);
        let m = choose|m: int| 0 <= m < front.len() && front[m] == wanted;
        assert(all[m] == wanted);
    } else {
        assert(all[all.len() - 1] == wanted);
    }
}

/// The answer to a query holds only links that were handed in, each with
/// its score filled in.
pub proof fn lemma_ranked_comes_from_links(terms: Seq<Seq<char>>, links: Seq<LinkView>, i: int)
    requires
        0 <= i < ranked(terms, links).len(),
    ensures
        exists|k: int|
            0 <= k < links.len() && ranked(terms, links)[i] == (LinkView {
                score: ranked(terms, links)[i].score,
                ..#[trigger] links[k]
            }),
{
    broadcast use vstd::seq_lib::group_to_multiset_ensures;

    let matches = scored_matches(terms, links);
    let sorted = sort_descending(matches);
    crate::order::lemma_sort_descending(matches);
    assert(sorted.to_multiset().count(sorted[i]) > 0);
    assert(matches.contains(sorted[i]));
    let m = choose|m: int| 0 <= m < matches.len() && matches[m] == sorted[i];
    lemma_scored_matches_come_from_links(terms, links, m);
    assert(ranked(terms, links)[i] == sorted[i].1);
}

/// The answer to a query misses no link that answers it.
pub proof fn lemma_ranked_misses_none(terms: Seq<Seq<char>>, links: Seq<LinkView>, k: int)
    requires
        0 <= k < links.len(),
        link_score(terms, links[k]) is Some,
    ensures
        ranked(terms, links).contains(LinkView { score: link_score(terms, links[k]), ..links[k] }),
{
    broadcast use vstd::seq_lib::group_to_multiset_ensures;

    let matches = scored_matches(terms, links);
    let sorted = sort_descending(matches);
    let wanted = (
        link_score(terms, links[k])->0 as i128,
        LinkView { score: link_score(terms, links[k]), ..links[k] },
    );
    crate::order::lemma_sort_descending(matches);
    lemma_scored_matches_miss_none(terms, links, k);
    assert(matches.to_multiset().count(wanted) > 0);
    assert(sorted.contains(wanted));
    let m = choose|m: int| 0 <= m < sorted.len() && sorted[m] == wanted;
    assert(ranked(terms, links)[m] == wanted.1);
}

/// The latest links are links that were handed in, without their scores.
pub proof fn lemma_latest_comes_from_links(links: Seq<LinkView>, limit: nat, i: int)
    requires
        0 <= i < latest(links, limit).len(),
    ensures
        exists|k: int|
            0 <= k < links.len() && latest(links, limit)[i] == (LinkView {
                score: None,
                ..#[trigger] links[k]
            }),
{
    broadcast use vstd::seq_lib::group_to_multiset_ensures;

    let keyed = timed(links);
    let sorted = sort_descending(keyed);
    crate::order::lemma_sort_descending(keyed);
    assert(sorted.to_multiset().count(sorted[i]) > 0);
    assert(keyed.contains(sorted[i]));
    let k = choose|k: int| 0 <= k < keyed.len() && keyed[k] == sorted[i];
    assert(latest(links, limit)[i] == sorted[i].1);
    assert(sorted[i].1 == (LinkView { score: None, ..links[k] }));
}

fn is_space_char(c: char) -> (r: bool)
    ensures
        r == is_space(c),
{
    c == ' ' || c == '\t' || c == '\n' || c == '\r'
}

/// Cuts a query into its words.
pub fn split_terms(query: &str) -> (r: Vec<String>)
    ensures
        texts_of(r@) == terms_of(query@),
{
    let n = query.unicode_len();
    let mut terms: Vec<String> = Vec::new();
    let mut start: usize = 0;
    let mut i: usize = 0;
    while i < n
        invariant
            start <= i <= n,
            n == query@.len(),
            forall|k: int| start <= k < i ==> !is_space(query@[k]),
            start == 0 || is_space(query@[start - 1]),
            terms_of(query@.take(i as int)) == if start < i {
                texts_of(terms@).push(query@.subrange(start as int, i as int))
            } else {
                texts_of(terms@)
            },
        decreases n - i,
    {
        let c = query.get_char(i);
        proof {
            assert(query@.take(i + 1).drop_last() =~= query@.take(i as int));
            if !is_space(c) {
                if start < i {
                    assert(query@.subrange(start as int, i as int).push(c) =~= query@.subrange(
                        start as int,
                        i + 1,
                    ));
                } else {
                    assert(seq![c] =~= query@.subrange(start as int, i + 1));
                }
            }
        }
        if is_space_char(c) {
            if start < i {
                let term = query.substring_char(start, i).to_owned();
                terms.push(term);
            }
            start = i + 1;
        }
        i += 1;
    }
    assert(query@.take(n as int) =~= query@);
    if start < n {
        let term = query.substring_char(start, n).to_owned();
        terms.push(term);
    }
    terms
}

pub(crate) fn field_points(term: &str, field: &str) -> (r: i128)
    ensures
        r == field_score(term@, field@),
        0 <= r <= isize::MAX,
{
    if term.unicode_len() > MAX_TERM_CHARS {
        0
    } else {
        match fuzzy_score(term, field) {
            Some(score) => if score > 0 {
                score as i128
            } else {
                0
            },
            None => 0,
        }
    }
}

fn term_points(term: &str, link: &Link) -> (r: i128)
    ensures
        r == term_score(term@, link@),
        0 <= r <= 3 * isize::MAX,
{
    let in_title = field_points(term, link.title.as_str());
    let in_subtitle = match &link.subtitle {
        Some(subtitle) => field_points(term, subtitle.as_str()),
        None => 0,
    };
    TITLE_WEIGHT * in_title + in_subtitle
}

proof fn lemma_total_score_nonnegative(terms: Seq<Seq<char>>, link: LinkView)
    ensures
        total_score(terms, link) matches Some(sum) ==> sum >= 0,
    decreases terms.len(),
{
    if terms.len() > 0 {
        lemma_total_score_nonnegative(terms.drop_last(), link);
    }
}

/// The score of a link for the words of a query.
pub fn score_link(terms: &Vec<String>, link: &Link) -> (r: Option<i64>)
    ensures
        r == link_score(texts_of(terms@), link@),
{
    if terms.len() == 0 {
        return None;
    }
    let ghost all = texts_of(terms@);
    let mut sum: i64 = 0;
    let mut i: usize = 0;
    while i < terms.len()
        invariant
            i <= terms.len(),
            all == texts_of(terms@),
            sum >= 0,
            total_score(all.take(i as int), link@) matches Some(exact) && sum == if exact
                > i64::MAX {
                i64::MAX as int
            } else {
                exact
            },
        decreases terms.len() - i,
    {
        proof {
            assert(all.take(i + 1).drop_last() =~= all.take(i as int));
            lemma_total_score_nonnegative(all.take(i as int), link@);
        }
        let earned = term_points(terms[i].as_str(), link);
        if earned == 0 {
            proof {
                lemma_unmatched_prefix(all, link@, i + 1);
            }
            return None;
        }
        let wide: i128 = sum as i128 + earned;
        sum = if wide > i64::MAX as i128 {
            i64::MAX
        } else {
            wide as i64
        };
        i += 1;
    }
    assert(all.take(terms.len() as int) =~= all);
    Some(sum)
}

/// Words that earn nothing up to some point earn nothing in all.
proof fn lemma_unmatched_prefix(terms: Seq<Seq<char>>, link: LinkView, upto: int)
    requires
        0 <= upto <= terms.len(),
        total_score(terms.take(upto), link) is None,
    ensures
        total_score(terms, link) is None,
    decreases terms.len() - upto,
{
    if upto < terms.len() {
        assert(terms.take(upto + 1).drop_last() =~= terms.take(upto));
        lemma_unmatched_prefix(terms, link, upto + 1);
    } else {
        assert(terms.take(upto) =~= terms);
    }
}

pub(crate) fn strip_keys(items: &Vec<(i128, Link)>) -> (r: Vec<Link>)
    ensures
        link_views(r@) == values(keyed_views(items@)),
{
    let mut out: Vec<Link> = Vec::new();
    let mut i: usize = 0;
    while i < items.len()
        invariant
            i <= items.len(),
            out.len() == i,
            forall|k: int| 0 <= k < i ==> out@[k]@ == items@[k].1@,
        decreases items.len() - i,
    {
        out.push(items[i].1.clone());
        i += 1;
    }
    out
}

/// Answers a query over `links`: the links in which every word of the query
/// is found, each with its score, best first.
pub fn rank_links(query: &str, links: &Vec<Link>) -> (r: Vec<Link>)
    ensures
        link_views(r@) == ranked(terms_of(query@), link_views(links@)),
{
    let terms = split_terms(query);
    let ghost words = terms_of(query@);
    let ghost all = link_views(links@);
    let mut keyed: Vec<(i128, Link)> = Vec::new();
    let mut i: usize = 0;
    while i < links.len()
        invariant
            i <= links.len(),
            words == texts_of(terms@),
            all == link_views(links@),
            keyed_views(keyed@) == scored_matches(words, all.take(i as int)),
        decreases links.len() - i,
    {
        proof {
            assert(all.take(i + 1).drop_last() =~= all.take(i as int));
        }
        match score_link(&terms, &links[i]) {
            Some(score) => {
                let mut link = links[i].clone();
                link.score = Some(score);
                keyed.push((score as i128, link));
            },
            None => {},
        }
        i += 1;
    }
    assert(all.take(links.len() as int) =~= all);
    let sorted = sort_by_key_descending(keyed);
    proof {
        lemma_sort_keyed_views(keyed@);
    }
    strip_keys(&sorted)
}

/// The `limit` latest of `links`, latest first, without scores.
pub fn latest_links(links: &Vec<Link>, limit: usize) -> (r: Vec<Link>)
    ensures
        link_views(r@) == latest(link_views(links@), limit as nat),
        r@.len() <= limit,
        r@.len() <= links@.len(),
{
    let ghost all = link_views(links@);
    let mut keyed: Vec<(i128, Link)> = Vec::new();
    let mut i: usize = 0;
    while i < links.len()
        invariant
            i <= links.len(),
            all == link_views(links@),
            keyed.len() == i,
            forall|k: int| 0 <= k < i ==> (#[trigger] keyed@[k]).0 == timed(all)[k].0 && keyed@[k].1@
                == timed(all)[k].1,
        decreases links.len() - i,
    {
        let mut link = links[i].clone();
        link.score = None;
        let stamp = link.timestamp;
        let key: i128 = (stamp.secs as i128) * 4_294_967_296 + (stamp.nanos as i128);
        keyed.push((key, link));
        i += 1;
    }
    assert(keyed_views(keyed@) =~= timed(all));
    let mut sorted = sort_by_key_descending(keyed);
    proof {
        lemma_sort_keyed_views(keyed@);
    }
    if limit < sorted.len() {
        sorted.truncate(limit);
    }
    strip_keys(&sorted)
}

/// The latest links come latest first and are no more than the limit.
pub proof fn lemma_latest(links: Seq<LinkView>, limit: nat)
    ensures
        latest(links, limit).len() <= limit,
        latest(links, limit).len() <= links.len(),
        forall|i: int, j: int|
            0 <= i < j < latest(links, limit).len() ==> latest(links, limit)[i].timestamp.instant()
                >= latest(links, limit)[j].timestamp.instant(),
        forall|i: int|
            0 <= i < latest(links, limit).len() ==> (#[trigger] latest(links, limit)[i]).score
                is None,
{
    broadcast use vstd::seq_lib::group_to_multiset_ensures;

    let keyed = timed(links);
    let sorted = sort_descending(keyed);
    crate::order::lemma_sort_descending(keyed);
    assert forall|i: int| 0 <= i < sorted.len() implies (#[trigger] sorted[i]).0
        == sorted[i].1.timestamp.instant() && sorted[i].1.score is None by {
        assert(sorted.to_multiset().count(sorted[i]) > 0);
        assert(keyed.to_multiset().count(sorted[i]) > 0);
        assert(keyed.contains(sorted[i]));
        let k = choose|k: int| 0 <= k < keyed.len() && keyed[k] == sorted[i];
        assert(keyed[k].0 == links[k].timestamp.instant());
    }
    let out = latest(links, limit);
    assert forall|i: int, j: int| 0 <= i < j < out.len() implies out[i].timestamp.instant()
        >= out[j].timestamp.instant() by {
        assert(out[i] == sorted[i].1);
        assert(out[j] == sorted[j].1);
    }
    assert forall|i: int| 0 <= i < out.len() implies (#[trigger] out[i]).score is None by {
        assert(out[i] == sorted[i].1);
    }
}

} // verus!
