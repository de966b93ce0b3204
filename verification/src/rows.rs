use crate::lists::reversed;
use crate::results::TorrentResult;
use crate::sources::{count_of, parse_count, parse_i64, parsed_i64};
use crate::text::{clean_text, trimmed};
use vstd::prelude::*;
use vstd::string::*;

verus! {

/// A row of the results table of The Pirate Bay: the texts of its cells,
/// the text of the link in its second cell and the address of its magnet
/// link, as far as the page holds them.
#[derive(Debug)]
pub struct TpbRow {
    pub cells: Vec<String>,
    pub name: Option<String>,
    pub magnet: Option<String>,
}

/// The text of the cell at place `i`, if the row has one.
pub open spec fn cell_text(cells: Seq<String>, i: int) -> Option<Seq<char>> {
    if 0 <= i < cells.len() {
        Some(cells[i]@)
    } else {
        None
    }
}

/// A text that the page may not hold, without the white space around it;
/// empty where the page does not hold it.
pub open spec fn cleaned(text: Option<Seq<char>>) -> Seq<char> {
    match text {
        Some(t) => trimmed(t),
        None => Seq::empty(),
    }
}

/// The count that a text spells which the page may not hold; 0 where it
/// does not.
pub open spec fn counted(text: Option<Seq<char>>) -> i64 {
    match text {
        Some(t) => count_of(t),
        None => 0,
    }
}

/// The text of an optional text.
pub open spec fn text_of(t: Option<String>) -> Option<Seq<char>> {
    match t {
        Some(s) => Some(s@),
        None => None,
    }
}

/// A row that gives a result: it has at least four cells, a name and a
/// magnet link.
pub open spec fn tpb_accepts(row: TpbRow) -> bool {
    &&& row.cells.len() >= 4
    &&& cleaned(text_of(row.name)).len() > 0
    &&& row.magnet matches Some(m) && m@.len() > 0
}

/// `r` is the result that the row gives.
pub open spec fn is_tpb_result(row: TpbRow, r: TorrentResult) -> bool {
    &&& r.name@ == cleaned(text_of(row.name))
    &&& r.size@ == cleaned(cell_text(row.cells@, 4))
    &&& r.seeders == counted(cell_text(row.cells@, 5))
    &&& r.leechers == counted(cell_text(row.cells@, 6))
    &&& Some(r.magnet) == row.magnet
    &&& r.source@ == "tpb"@
    &&& r.url is None
    &&& r.category is None
}

/// The text at place `i` of `cells` without the white space around it.
fn clean_cell(cells: &Vec<String>, i: usize) -> (s: String)
    ensures
        s@ == cleaned(cell_text(cells@, i as int)),
{
    if i < cells.len() {
        clean_text(cells[i].as_str())
    } else {
        String::new()
    }
}

/// The count that the text at place `i` of `cells` spells.
fn count_cell(cells: &Vec<String>, i: usize) -> (n: i64)
    ensures
        n == counted(cell_text(cells@, i as int)),
{
    if i < cells.len() {
        parse_count(cells[i].as_str())
    } else {
        0
    }
}

/// The result that a row of The Pirate Bay gives, if it gives one.
pub fn tpb_result(row: TpbRow) -> (r: Option<TorrentResult>)
    ensures
        match r {
            Some(result) => tpb_accepts(row) && is_tpb_result(row, result),
            None => !tpb_accepts(row),
        },
{
    if row.cells.len() < 4 {
        return None;
    }
    let name = match &row.name {
        Some(n) => clean_text(n.as_str()),
        None => String::new(),
    };
    if name.as_str().is_empty() {
        return None;
    }
    let size = clean_cell(&row.cells, 4);
    let seeders = count_cell(&row.cells, 5);
    let leechers = count_cell(&row.cells, 6);
    match row.magnet {
        Some(magnet) => {
            if magnet.as_str().is_empty() {
                None
            } else {
                Some(
                    TorrentResult {
                        name,
                        size,
                        seeders,
                        leechers,
                        magnet,
                        source: String::from_str("tpb"),
                        url: None,
                        category: None,
                    },
                )
            }
        },
        None => None,
    }
}

/// `results` holds the results of the rows of `rows` that give one, in the
/// order of the rows.
pub open spec fn are_tpb_results(rows: Seq<TpbRow>, results: Seq<TorrentResult>) -> bool {
    let accepted = rows.filter(|row: TpbRow| tpb_accepts(row));
    &&& results.len() == accepted.len()
    &&& forall|i: int| 0 <= i < results.len() ==> is_tpb_result(accepted[i], #[trigger] results[i])
}

/// The results of a results table of The Pirate Bay: one for each row that
/// has at least four cells, a name and a magnet link.
pub fn tpb_results(rows: Vec<TpbRow>) -> (results: Vec<TorrentResult>)
    ensures
        are_tpb_results(rows@, results@),
{
    let ghost all = rows@;
    let ghost pred = |row: TpbRow| tpb_accepts(row);
    let mut rest = reversed(rows);
    let mut results: Vec<TorrentResult> = Vec::new();
    let ghost mut done: int = 0;
    assert(all.take(0) =~= Seq::empty());
    while rest.len() > 0
        invariant
            0 <= done <= all.len(),
            done + rest.len() == all.len(),
            rest@ == all.reverse().take(rest.len() as int),
            pred == |row: TpbRow| tpb_accepts(row),
            are_tpb_results(all.take(done), results@),
        decreases rest.len(),
    {
        let row = rest.pop().unwrap();
        let ghost before = results@;
        let ghost accepted = all.take(done).filter(pred);
        proof {
            assert(row == all[done]);
            assert(all.take(done + 1) =~= all.take(done).push(row));
            all.take(done).lemma_filter_push(row, pred);
        }
        match tpb_result(row) {
            Some(result) => {
                results.push(result);
                proof {
                    let now = all.take(done + 1).filter(pred);
                    assert(now == accepted.push(row));
                    assert forall|i: int| 0 <= i < results.len() implies is_tpb_result(
                        now[i],
                        #[trigger] results@[i],
                    ) by {
                        if i < before.len() {
                            assert(results@[i] == before[i]);
                            assert(now[i] == accepted[i]);
                        }
                    }
                }
            },
            None => {},
        }
        proof {
            done = done + 1;
        }
    }
    assert(all.take(done) =~= all);
    results
}

/// An entry of a results table whose magnet link stands on a page of its
/// own.
#[derive(Debug)]
pub struct ListedItem {
    pub name: String,
    pub detail_url: String,
    pub seeders: i64,
    pub leechers: i64,
    pub size: String,
}

/// The first `limit` items of a list; all of them where there are fewer.
pub fn first_items(items: Vec<ListedItem>, limit: usize) -> (kept: Vec<ListedItem>)
    ensures
        kept@ == if items.len() <= limit {
            items@
        } else {
            items@.take(limit as int)
        },
{
    let mut kept = items;
    if kept.len() > limit {
        kept.truncate(limit);
        assert(kept@ =~= items@.take(limit as int));
    }
    kept
}

/// The result for an entry whose detail page gave `magnet`: none where the
/// page gave no magnet link or an empty one.
pub fn detail_result(item: ListedItem, magnet: Option<String>, source: &str) -> (r: Option<
    TorrentResult,
>)
    ensures
        match r {
            Some(result) => {
                &&& magnet == Some(result.magnet)
                &&& result.magnet@.len() > 0
                &&& result.name == item.name
                &&& result.size == item.size
                &&& result.seeders == item.seeders
                &&& result.leechers == item.leechers
                &&& result.source@ == source@
                &&& result.url == Some(item.detail_url)
                &&& result.category is None
            },
            None => magnet matches Some(m) ==> m@.len() == 0,
        },
{
    match magnet {
        Some(m) => {
            if m.as_str().is_empty() {
                None
            } else {
                Some(
                    TorrentResult {
                        name: item.name,
                        size: item.size,
                        seeders: item.seeders,
                        leechers: item.leechers,
                        magnet: m,
                        source: String::from_str(source),
                        url: Some(item.detail_url),
                        category: None,
                    },
                )
            }
        },
        None => None,
    }
}

/// The count that an entry of ilCorsaroNero spells in a cell that was
/// already cleaned: the number, or 0 where the text spells none.
pub fn listed_count(cell: &str) -> (n: i64)
    ensures
        n == match parsed_i64(cell@) {
            Some(v) => v,
            None => 0,
        },
{
    match parse_i64(cell) {
        Some(v) => v,
        None => 0,
    }
}

} // verus!
