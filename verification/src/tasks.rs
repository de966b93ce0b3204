use crate::aggregator::{Ranking, enabled_results, is_stable_sort, merged, search};
use crate::realdebrid::{RdError, TorrentFile};
use crate::results::TorrentResult;
use crate::session::{AppMessage, DownloadLink, EmptyResults};
use vstd::prelude::*;
use vstd::string::*;

verus! {

/// The status line that a submission starts with.
pub const ADDING_MAGNET: &'static str = "Adding magnet...";

impl EmptyResults {
    /// What the session is told where the search found nothing.
    pub open spec fn text(self) -> Seq<char> {
        match self {
            EmptyResults::NoneFound => "No results found"@,
            EmptyResults::NoMore => "No more results"@,
            EmptyResults::NoneOnPage => "No results"@,
        }
    }

    /// What the session is told where the search found nothing.
    pub fn message(&self) -> (m: String)
        ensures
            m@ == self.text(),
    {
        match self {
            EmptyResults::NoneFound => String::from_str("No results found"),
            EmptyResults::NoMore => String::from_str("No more results"),
            EmptyResults::NoneOnPage => String::from_str("No results"),
        }
    }
}

/// What a search tells the session: its ranked results, or, where there are
/// none, that it found nothing. An empty list is no failure of the search.
pub open spec fn is_search_message(
    msg: AppMessage,
    ranked: Seq<TorrentResult>,
    on_empty: EmptyResults,
) -> bool {
    if ranked.len() == 0 {
        msg matches AppMessage::SearchError(e) && e@ == on_empty.text()
    } else {
        msg matches AppMessage::SearchResults(list) && list@ == ranked
    }
}

/// What a search with these ranked results tells the session.
pub fn search_message(ranked: Vec<TorrentResult>, on_empty: EmptyResults) -> (msg: AppMessage)
    ensures
        is_search_message(msg, ranked@, on_empty),
{
    if ranked.len() == 0 {
        AppMessage::SearchError(on_empty.message())
    } else {
        AppMessage::SearchResults(ranked)
    }
}

/// What a finished search tells the session: the adapters' lists merged,
/// cut down to the enabled sources and ranked, or that nothing was found.
pub fn finish_search(
    outcomes: Vec<Option<Vec<TorrentResult>>>,
    enabled: &Vec<String>,
    on_empty: EmptyResults,
) -> (msg: AppMessage)
    ensures
        exists|ranked: Seq<TorrentResult>|
            is_stable_sort(
                enabled_results(merged(outcomes@), enabled@),
                ranked,
                Ranking::BySourceThenSeeders,
            ) && is_search_message(msg, ranked, on_empty),
{
    let ranked = search(outcomes, enabled);
    search_message(ranked, on_empty)
}

/// What a finished submission tells the session: the remote job and its
/// files, or the text of the failure.
pub fn listing_message(outcome: Result<(String, Vec<TorrentFile>), RdError>) -> (msg: AppMessage)
    ensures
        match outcome {
            Ok(listing) => msg == AppMessage::TorrentFiles(listing.0, listing.1),
            Err(e) => msg matches AppMessage::TorrentError(text) && text@ == e.text(),
        },
{
    match outcome {
        Ok(listing) => AppMessage::TorrentFiles(listing.0, listing.1),
        Err(e) => AppMessage::TorrentError(e.message()),
    }
}

/// What a finished resolution tells the session: the links with their
/// places on disk, or the text of the failure.
pub fn links_message(outcome: Result<Vec<DownloadLink>, RdError>) -> (msg: AppMessage)
    ensures
        match outcome {
            Ok(links) => msg == AppMessage::DownloadLinks(links),
            Err(e) => msg matches AppMessage::DownloadError(text) && text@ == e.text(),
        },
{
    match outcome {
        Ok(links) => AppMessage::DownloadLinks(links),
        Err(e) => AppMessage::DownloadError(e.message()),
    }
}

} // verus!
