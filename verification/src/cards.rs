use crate::lists::reversed;
use crate::pages::{Pattern, card_size, first_match};
use crate::results::TorrentResult;
use crate::rows::text_of;
use crate::selection::{find_text, texts};
use crate::sources::{
    absolute_url, decode_magnet, grouped_count_of, parse_grouped_count, BITSEARCH_BASE_URL,
};
use crate::text::{clean_text, contains, is_prefix, occurs_in, replaced, starts_with, trimmed};
use vstd::prelude::*;
use vstd::string::*;

verus! {

/// A link of a card of BitSearch that may be its title: its address and
/// its text.
#[derive(Debug)]
pub struct CardTitle {
    pub href: String,
    pub text: String,
}

/// A card of BitSearch: its title candidates in the order in which they are
/// tried, its whole text and the texts of its seeder and leecher counts, as
/// far as the page holds them.
#[derive(Debug)]
pub struct Card {
    pub titles: Vec<CardTitle>,
    pub text: String,
    pub seeders: Option<String>,
    pub leechers: Option<String>,
}

/// A magnet link of a page of BitSearch with the card that it stands in, if
/// it stands in one.
#[derive(Debug)]
pub struct MagnetEntry {
    pub href: String,
    pub card: Option<Card>,
}

/// The magnet link of an entry with the characters that the page wrote as
/// entities put back.
pub open spec fn decoded(href: Seq<char>) -> Seq<char> {
    replaced(replaced(replaced(href, "&amp;"@, "&"@), "&#x3D;"@, "="@), "&#x3A;"@, ":"@)
}

/// The address of the detail page that a title candidate gives: its own
/// address where that leads to a torrent, else the one found before.
pub open spec fn title_url(title: CardTitle, before: Seq<char>) -> Seq<char> {
    if title.href@.len() > 0 && occurs_in("/torrent/"@, title.href@) {
        if is_prefix("http"@, title.href@) {
            title.href@
        } else {
            BITSEARCH_BASE_URL@ + title.href@
        }
    } else {
        before
    }
}

/// Name and detail address that the title candidates give: candidates that
/// are magnet links are passed over; the first of the others with a name
/// gives the name; each one tried may give the address.
pub open spec fn picked_title(titles: Seq<CardTitle>, url: Seq<char>) -> (Seq<char>, Seq<char>)
    decreases titles.len(),
{
    if titles.len() == 0 {
        (Seq::empty(), url)
    } else if is_prefix("magnet:"@, titles[0].href@) {
        picked_title(titles.skip(1), url)
    } else if trimmed(titles[0].text@).len() > 0 {
        (trimmed(titles[0].text@), title_url(titles[0], url))
    } else {
        picked_title(titles.skip(1), title_url(titles[0], url))
    }
}

/// Name and detail address that the title candidates of a card give.
pub fn pick_title(titles: &Vec<CardTitle>) -> (r: (String, String))
    ensures
        (r.0@, r.1@) == picked_title(titles@, Seq::empty()),
{
    let mut url = String::new();
    let mut i: usize = 0;
    assert(titles@.skip(0) =~= titles@);
    while i < titles.len()
        invariant
            i <= titles.len(),
            picked_title(titles@.skip(i as int), url@) == picked_title(titles@, Seq::empty()),
        decreases titles.len() - i,
    {
        let title = &titles[i];
        proof {
            assert(titles@.skip(i as int)[0] == titles@[i as int]);
            assert(titles@.skip(i as int).skip(1) =~= titles@.skip(i + 1));
        }
        if !starts_with(title.href.as_str(), "magnet:") {
            let name = clean_text(title.text.as_str());
            if !title.href.as_str().is_empty() && contains(title.href.as_str(), "/torrent/") {
                url = absolute_url(BITSEARCH_BASE_URL, title.href.as_str());
            }
            if !name.as_str().is_empty() {
                return (name, url);
            }
        }
        i += 1;
    }
    (String::new(), url)
}

/// The entry at place `i` is the first with its magnet link: its address is
/// not empty, and no entry before it has the same link.
pub open spec fn is_fresh(entries: Seq<MagnetEntry>, i: int) -> bool {
    &&& entries[i].href@.len() > 0
    &&& forall|j: int|
        0 <= j < i && (#[trigger] entries[j]).href@.len() > 0 ==> decoded(entries[j].href@)
            != decoded(entries[i].href@)
}

/// An entry that gives a result, where it is the first with its magnet
/// link: it stands in a card, and the card has a name.
pub open spec fn has_title(entry: MagnetEntry) -> bool {
    entry.card matches Some(card) && picked_title(card.titles@, Seq::empty()).0.len() > 0
}

/// The entries that give a result, in their order.
pub open spec fn giving_entries(entries: Seq<MagnetEntry>) -> Seq<MagnetEntry>
    decreases entries.len(),
{
    if entries.len() == 0 {
        Seq::empty()
    } else {
        let front = giving_entries(entries.drop_last());
        if is_fresh(entries, entries.len() - 1) && has_title(entries.last()) {
            front.push(entries.last())
        } else {
            front
        }
    }
}

/// The count in a cell that the card may not hold; 0 where it does not.
pub open spec fn grouped(text: Option<Seq<char>>) -> i64 {
    match text {
        Some(t) => grouped_count_of(t),
        None => 0,
    }
}

/// `r` is the result that the entry gives, with `pattern` as the pattern of
/// a size.
pub open spec fn is_card_result(pattern: Seq<char>, entry: MagnetEntry, r: TorrentResult) -> bool {
    let card = entry.card->0;
    let title = picked_title(card.titles@, Seq::empty());
    &&& entry.card is Some
    &&& r.name@ == title.0
    &&& r.size@ == match first_match(pattern, card.text@) {
        Some(m) => m,
        None => Seq::empty(),
    }
    &&& r.seeders == grouped(text_of(card.seeders))
    &&& r.leechers == grouped(text_of(card.leechers))
    &&& r.magnet@ == decoded(entry.href@)
    &&& r.source@ == "bitsearch"@
    &&& text_of(r.url) == if title.1.len() == 0 {
        None::<Seq<char>>
    } else {
        Some(title.1)
    }
    &&& r.category is None
}

/// `results` holds the results of the entries that give one, in their
/// order.
pub open spec fn are_card_results(
    pattern: Seq<char>,
    entries: Seq<MagnetEntry>,
    results: Seq<TorrentResult>,
) -> bool {
    let giving = giving_entries(entries);
    &&& results.len() == giving.len()
    &&& forall|i: int|
        0 <= i < results.len() ==> is_card_result(pattern, giving[i], #[trigger] results[i])
}

/// The count in a cell that the card may not hold.
fn grouped_count(text: &Option<String>) -> (n: i64)
    ensures
        n == grouped(text_of(*text)),
{
    match text {
        Some(t) => parse_grouped_count(t.as_str()),
        None => 0,
    }
}

/// The result for a card and the magnet link that stands in it, if the card
/// has a name.
fn card_result(card: Card, magnet: String, size: &Pattern) -> (r: Option<TorrentResult>)
    ensures
        match r {
            Some(result) => {
                let title = picked_title(card.titles@, Seq::empty());
                &&& title.0.len() > 0
                &&& result.name@ == title.0
                &&& result.size@ == match first_match(size.text(), card.text@) {
                    Some(m) => m,
                    None => Seq::empty(),
                }
                &&& result.seeders == grouped(text_of(card.seeders))
                &&& result.leechers == grouped(text_of(card.leechers))
                &&& result.magnet == magnet
                &&& result.source@ == "bitsearch"@
                &&& text_of(result.url) == if title.1.len() == 0 {
                    None::<Seq<char>>
                } else {
                    Some(title.1)
                }
                &&& result.category is None
            },
            None => picked_title(card.titles@, Seq::empty()).0.len() == 0,
        },
{
    let (name, detail_url) = pick_title(&card.titles);
    if name.as_str().is_empty() {
        return None;
    }
    let size_text = card_size(size, card.text.as_str());
    let seeders = grouped_count(&card.seeders);
    let leechers = grouped_count(&card.leechers);
    let url = if detail_url.as_str().is_empty() {
        None
    } else {
        Some(detail_url)
    };
    Some(
        TorrentResult {
            name,
            size: size_text,
            seeders,
            leechers,
            magnet,
            source: String::from_str("bitsearch"),
            url,
            category: None,
        },
    )
}

/// The results of a page of BitSearch, from its magnet links and the cards
/// that they stand in: one for each magnet link that is not empty, was not
/// seen before on the page and stands in a card with a name. `size` is the
/// compiled pattern of a size.
pub fn card_results(entries: Vec<MagnetEntry>, size: &Pattern) -> (results: Vec<TorrentResult>)
    ensures
        are_card_results(size.text(), entries@, results@),
{
    let ghost all = entries@;
    let ghost pattern = size.text();
    let mut rest = reversed(entries);
    let mut results: Vec<TorrentResult> = Vec::new();
    let mut seen: Vec<String> = Vec::new();
    let ghost mut done: int = 0;
    assert(all.take(0) =~= Seq::empty());
    while rest.len() > 0
        invariant
            0 <= done <= all.len(),
            done + rest.len() == all.len(),
            rest@ == all.reverse().take(rest.len() as int),
            pattern == size.text(),
            are_card_results(pattern, all.take(done), results@),
            forall|j: int|
                0 <= j < done && (#[trigger] all[j]).href@.len() > 0 ==> texts(seen@).contains(
                    decoded(all[j].href@),
                ),
            forall|k: int|
                0 <= k < seen.len() ==> exists|j: int|
                    0 <= j < done && (#[trigger] all[j]).href@.len() > 0 && decoded(all[j].href@)
                        == #[trigger] texts(seen@)[k],
        decreases rest.len(),
    {
        let entry = rest.pop().unwrap();
        let ghost before = results@;
        let ghost giving = giving_entries(all.take(done));
        let ghost seen_before = seen@;
        proof {
            assert(entry == all[done]);
            assert(all.take(done + 1).drop_last() =~= all.take(done));
            assert(all.take(done + 1).last() == entry);
            assert(is_fresh(all.take(done + 1), done) <==> is_fresh(all, done)) by {
                assert forall|j: int| 0 <= j <= done implies all.take(done + 1)[j] == all[j] by {}
            }
        }
        let mut result: Option<TorrentResult> = None;
        if !entry.href.as_str().is_empty() {
            let magnet = decode_magnet(entry.href.as_str());
            let fresh = find_text(&seen, magnet.as_str()).is_none();
            proof {
                if fresh {
                    assert forall|j: int|
                        0 <= j < done && (#[trigger] all[j]).href@.len() > 0 implies decoded(
                        all[j].href@,
                    ) != decoded(entry.href@) by {
                        assert(texts(seen@).contains(decoded(all[j].href@)));
                    }
                    assert(is_fresh(all, done));
                } else {
                    let k = choose|k: int|
                        0 <= k < texts(seen@).len() && texts(seen@)[k] == magnet@;
                    let j = choose|j: int|
                        0 <= j < done && (#[trigger] all[j]).href@.len() > 0 && decoded(
                            all[j].href@,
                        ) == texts(seen@)[k];
                    assert(!is_fresh(all, done));
                }
            }
            if fresh {
                seen.push(magnet.clone());
                proof {
                    assert(texts(seen@) =~= texts(seen_before).push(magnet@));
                    assert(texts(seen@)[seen.len() - 1] == magnet@);
                }
                match entry.card {
                    Some(card) => {
                        result = card_result(card, magnet, size);
                    },
                    None => {},
                }
            }
        }
        proof {
            assert forall|j: int|
                0 <= j < done + 1 && (#[trigger] all[j]).href@.len() > 0 implies texts(
                seen@,
            ).contains(decoded(all[j].href@)) by {
                if j < done {
                    let k = choose|k: int|
                        0 <= k < texts(seen_before).len() && texts(seen_before)[k] == decoded(
                            all[j].href@,
                        );
                    assert(texts(seen@)[k] == decoded(all[j].href@));
                } else {
                    if texts(seen_before).contains(decoded(entry.href@)) {
                        let k = choose|k: int|
                            0 <= k < texts(seen_before).len() && texts(seen_before)[k] == decoded(
                                entry.href@,
                            );
                        assert(texts(seen@)[k] == decoded(entry.href@));
                    } else {
                        assert(texts(seen@)[seen.len() - 1] == decoded(entry.href@));
                    }
                }
            }
            assert forall|k: int| 0 <= k < seen.len() implies exists|j: int|
                0 <= j < done + 1 && (#[trigger] all[j]).href@.len() > 0 && decoded(all[j].href@)
                    == #[trigger] texts(seen@)[k] by {
                if k < seen_before.len() {
                    assert(texts(seen@)[k] == texts(seen_before)[k]);
                    let j = choose|j: int|
                        0 <= j < done && (#[trigger] all[j]).href@.len() > 0 && decoded(
                            all[j].href@,
                        ) == texts(seen_before)[k];
                    assert(0 <= j < done + 1 && all[j].href@.len() > 0 && decoded(all[j].href@)
                        == texts(seen@)[k]);
                } else {
                    assert(all[done].href@.len() > 0 && decoded(all[done].href@) == texts(
                        seen@,
                    )[k]);
                }
            }
        }
        match result {
            Some(r) => {
                results.push(r);
                proof {
                    let now = giving_entries(all.take(done + 1));
                    assert(now == giving.push(entry));
                    assert forall|i: int| 0 <= i < results.len() implies is_card_result(
                        pattern,
                        now[i],
                        #[trigger] results@[i],
                    ) by {
                        if i < before.len() {
                            assert(results@[i] == before[i]);
                            assert(now[i] == giving[i]);
                        }
                    }
                }
            },
            None => {
                assert(giving_entries(all.take(done + 1)) == giving);
            },
        }
        proof {
            done = done + 1;
        }
    }
    assert(all.take(done) =~= all);
    results
}

} // verus!
