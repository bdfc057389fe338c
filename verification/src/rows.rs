//! Turning the rows of a browser's table into links.

use crate::link::{link_views, Link, LinkView};
use crate::text::followed_by;
use vstd::prelude::*;

verus! {

/// The texts of a row.
pub open spec fn row_view(row: Seq<Option<String>>) -> Seq<Option<Seq<char>>> {
    Seq::new(row.len(), |i: int| row[i].deep_view())
}

/// The texts of a list of rows.
pub open spec fn row_views(rows: Seq<Vec<Option<String>>>) -> Seq<Seq<Option<Seq<char>>>> {
    Seq::new(rows.len(), |i: int| row_view(rows[i]@))
}

/// Whether every column of a row holds a text.
pub open spec fn is_complete(row: Seq<Option<Seq<char>>>) -> bool {
    forall|i: int| 0 <= i < row.len() ==> (#[trigger] row[i]) is Some
}

/// Whether a row of `columns` columns gives a link: it must have three or
/// four columns, as many as asked for, and a text in each.
pub open spec fn gives_link(row: Seq<Option<Seq<char>>>, columns: nat) -> bool {
    row.len() == columns && 3 <= columns <= 4 && is_complete(row)
}

/// Whether `link` is the link of `row`: the first column behind `prefix` is
/// its guid, the second its URL, the third its title, and the fourth, if
/// there is one, its subtitle.
pub open spec fn is_row_link(
    link: LinkView,
    row: Seq<Option<Seq<char>>>,
    prefix: Seq<char>,
    score: Option<i64>,
) -> bool {
    &&& link.guid == prefix + row[0]->0
    &&& link.url == row[1]->0
    &&& link.title == row[2]->0
    &&& link.subtitle == if row.len() == 4 {
        Some(row[3]->0)
    } else {
        None
    }
    &&& link.source is None
    &&& link.score == score
    &&& link.timestamp.valid()
}

/// Whether `links` are the links of `rows`, one for each row that gives one,
/// in their order.
pub open spec fn are_row_links(
    links: Seq<LinkView>,
    rows: Seq<Seq<Option<Seq<char>>>>,
    prefix: Seq<char>,
    columns: nat,
    score: Option<i64>,
) -> bool
    decreases rows.len(),
{
    if rows.len() == 0 {
        links.len() == 0
    } else if gives_link(rows.last(), columns) {
        &&& links.len() > 0
        &&& is_row_link(links.last(), rows.last(), prefix, score)
        &&& are_row_links(links.drop_last(), rows.drop_last(), prefix, columns, score)
    } else {
        are_row_links(links, rows.drop_last(), prefix, columns, score)
    }
}

/// Whether `links` are the links of some rows.
pub open spec fn are_links_of_rows(
    links: Seq<LinkView>,
    prefix: Seq<char>,
    columns: nat,
    score: Option<i64>,
) -> bool {
    exists|rows: Seq<Seq<Option<Seq<char>>>>| #[trigger]
        are_row_links(links, rows, prefix, columns, score)
}

/// Every link of a row is dated at a moment that the calendar has.
pub proof fn lemma_row_links_are_dated(
    links: Seq<LinkView>,
    rows: Seq<Seq<Option<Seq<char>>>>,
    prefix: Seq<char>,
    columns: nat,
    score: Option<i64>,
)
    requires
        are_row_links(links, rows, prefix, columns, score),
    ensures
        forall|i: int| 0 <= i < links.len() ==> (#[trigger] links[i]).timestamp.valid(),
    decreases rows.len(),
{
    if rows.len() > 0 {
        if gives_link(rows.last(), columns) {
            lemma_row_links_are_dated(links.drop_last(), rows.drop_last(), prefix, columns, score);
            assert forall|i: int| 0 <= i < links.len() implies (#[trigger] links[i]).timestamp.valid() by {
                if i < links.len() - 1 {
                    assert(links.drop_last()[i] == links[i]);
                }
            }
        } else {
            lemma_row_links_are_dated(links, rows.drop_last(), prefix, columns, score);
        }
    }
}

/// Links of rows are dated at moments that the calendar has, whatever the
/// rows were.
pub proof fn lemma_links_of_rows_are_dated(
    links: Seq<LinkView>,
    prefix: Seq<char>,
    columns: nat,
    score: Option<i64>,
)
    requires
        are_links_of_rows(links, prefix, columns, score),
    ensures
        forall|i: int| 0 <= i < links.len() ==> (#[trigger] links[i]).timestamp.valid(),
{
    let rows = choose|rows: Seq<Seq<Option<Seq<char>>>>| #[trigger]
        are_row_links(links, rows, prefix, columns, score);
    lemma_row_links_are_dated(links, rows, prefix, columns, score);
}

fn row_is_complete(row: &Vec<Option<String>>) -> (r: bool)
    ensures
        r == is_complete(row_view(row@)),
{
    let mut i: usize = 0;
    while i < row.len()
        invariant
            i <= row.len(),
            forall|k: int| 0 <= k < i ==> (#[trigger] row_view(row@)[k]) is Some,
        decreases row.len() - i,
    {
        if row[i].is_none() {
            assert(row_view(row@)[i as int] is None);
            return false;
        }
        i += 1;
    }
    true
}

fn column_text(row: &Vec<Option<String>>, column: usize) -> (r: String)
    requires
        column < row.len(),
        row@[column as int] is Some,
    ensures
        r@ == row_view(row@)[column as int]->0,
{
    match &row[column] {
        Some(text) => text.clone(),
        None => String::new(),
    }
}

/// Makes a link, dated now, of each row that has `columns` columns and a
/// text in each of them.
pub fn rows_to_links(
    rows: &Vec<Vec<Option<String>>>,
    prefix: &str,
    columns: usize,
    score: Option<i64>,
) -> (r: Vec<Link>)
    ensures
        are_row_links(link_views(r@), row_views(rows@), prefix@, columns as nat, score),
{
    let ghost all = row_views(rows@);
    let mut links: Vec<Link> = Vec::new();
    let mut i: usize = 0;
    while i < rows.len()
        invariant
            i <= rows.len(),
            all == row_views(rows@),
            are_row_links(link_views(links@), all.take(i as int), prefix@, columns as nat, score),
        decreases rows.len() - i,
    {
        let row = &rows[i];
        let ghost before = link_views(links@);
        proof {
            assert(all.take(i + 1).drop_last() =~= all.take(i as int));
        }
        if row.len() == columns && 3 <= columns && columns <= 4 && row_is_complete(row) {
            assert(row_view(row@)[0] is Some);
            assert(row_view(row@)[1] is Some);
            assert(row_view(row@)[2] is Some);
            let guid = followed_by(prefix, column_text(row, 0).as_str());
            let mut link = Link::new(guid, column_text(row, 1), column_text(row, 2));
            if columns == 4 {
                assert(row_view(row@)[3] is Some);
                link = link.with_subtitle(column_text(row, 3));
            }
            link.score = score;
            links.push(link);
            assert(link_views(links@).drop_last() =~= before);
        }
        i += 1;
    }
    assert(all.take(rows.len() as int) =~= all);
    links
}

} // verus!
