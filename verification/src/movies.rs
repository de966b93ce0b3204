use crate::pages::{
    MOVIE_SIZE_PATTERN, Pattern, QUALITY_PATTERN, all_matches, compiles, extract_hash_from_url,
    find_all, find_first, first_match, url_hash,
};
use crate::results::TorrentResult;
use crate::selection::texts;
use crate::sources::{hash_to_magnet, magnet_text};
use crate::text::{joined, same_text};
use vstd::prelude::*;
use vstd::string::*;

verus! {

/// A link to a torrent file on the page of a movie: its address, its text
/// and its title.
#[derive(Debug)]
pub struct MovieLink {
    pub href: String,
    pub text: String,
    pub title: String,
}

/// The quality that a link offers: the first match of the pattern in its
/// text, else in its title.
pub open spec fn quality_of(pattern: Seq<char>, link: MovieLink) -> Option<Seq<char>> {
    match first_match(pattern, link.text@) {
        Some(q) => Some(q),
        None => first_match(pattern, link.title@),
    }
}

/// Whether one of the offers is for the info hash `hash`.
pub open spec fn offers_hash(offers: Seq<(Seq<char>, Seq<char>)>, hash: Seq<char>) -> bool {
    exists|k: int| 0 <= k < offers.len() && (#[trigger] offers[k]).1 == hash
}

/// What the links of a movie page offer, as quality and info hash: one
/// offer for each info hash, from the first link with that hash that names a
/// quality, in the order of the links.
pub open spec fn movie_offers(pattern: Seq<char>, links: Seq<MovieLink>) -> Seq<
    (Seq<char>, Seq<char>),
>
    decreases links.len(),
{
    if links.len() == 0 {
        Seq::empty()
    } else {
        let front = movie_offers(pattern, links.drop_last());
        match (url_hash(links.last().href@), quality_of(pattern, links.last())) {
            (Some(hash), Some(quality)) => if offers_hash(front, hash) {
                front
            } else {
                front.push((quality, hash))
            },
            _ => front,
        }
    }
}

/// The offers that a list of pairs of texts holds.
pub open spec fn pairs(v: Seq<(String, String)>) -> Seq<(Seq<char>, Seq<char>)> {
    v.map_values(|p: (String, String)| (p.0@, p.1@))
}

/// The name under which an offer is shown: the movie, then the quality in
/// square brackets.
pub open spec fn release_name(movie: Seq<char>, quality: Seq<char>) -> Seq<char> {
    movie + " ["@ + quality + "]"@
}

/// `r` is the result for the offer of `quality` and `hash` of the movie
/// `movie`, with `size` as its size.
pub open spec fn is_movie_result(
    r: TorrentResult,
    movie: Seq<char>,
    quality: Seq<char>,
    hash: Seq<char>,
    size: Seq<char>,
) -> bool {
    &&& r.name@ == release_name(movie, quality)
    &&& r.size@ == size
    &&& r.seeders == 0
    &&& r.leechers == 0
    &&& r.magnet@ == magnet_text(hash, release_name(movie, quality))
    &&& r.source@ == "yts"@
    &&& r.url is None
    &&& r.category matches Some(c) && c@ == "Movies"@
}

/// The size that goes with the offer at place `i`: the size at the same
/// place of the page, or none.
pub open spec fn size_for(sizes: Seq<Seq<char>>, i: int) -> Seq<char> {
    if 0 <= i < sizes.len() {
        sizes[i]
    } else {
        Seq::empty()
    }
}

/// `results` holds one result for each offer, in their order, each with the
/// size at its place.
pub open spec fn are_movie_results(
    results: Seq<TorrentResult>,
    movie: Seq<char>,
    offers: Seq<(Seq<char>, Seq<char>)>,
    sizes: Seq<Seq<char>>,
) -> bool {
    &&& results.len() == offers.len()
    &&& forall|i: int|
        0 <= i < results.len() ==> is_movie_result(
            #[trigger] results[i],
            movie,
            offers[i].0,
            offers[i].1,
            size_for(sizes, i),
        )
}

/// The title of a movie as it is shown: its name, and its year in round
/// brackets where the page gives one.
pub fn movie_title(name: &str, year: &str) -> (title: String)
    ensures
        title@ == if year@.len() == 0 {
            name@
        } else {
            name@ + " ("@ + year@ + ")"@
        },
{
    if year.is_empty() {
        String::from_str(name)
    } else {
        let mut title = joined(name, " (");
        title.append(year);
        title.append(")");
        title
    }
}

/// Whether one of the offers is for the info hash `hash`.
fn has_offer(offers: &Vec<(String, String)>, hash: &str) -> (b: bool)
    ensures
        b == offers_hash(pairs(offers@), hash@),
{
    let mut k: usize = 0;
    while k < offers.len()
        invariant
            k <= offers.len(),
            forall|j: int| 0 <= j < k ==> (#[trigger] pairs(offers@)[j]).1 != hash@,
        decreases offers.len() - k,
    {
        if same_text(offers[k].1.as_str(), hash) {
            assert(pairs(offers@)[k as int].1 == hash@);
            return true;
        }
        k += 1;
    }
    false
}

/// What the links of a movie page offer, given the compiled pattern of a
/// quality.
pub fn offers_of(links: &Vec<MovieLink>, quality: &Pattern) -> (offers: Vec<(String, String)>)
    ensures
        pairs(offers@) == movie_offers(quality.text(), links@),
{
    let ghost pattern = quality.text();
    let mut offers: Vec<(String, String)> = Vec::new();
    let mut i: usize = 0;
    assert(links@.take(0) =~= Seq::empty());
    assert(pairs(offers@) =~= Seq::empty());
    while i < links.len()
        invariant
            i <= links.len(),
            pattern == quality.text(),
            pairs(offers@) == movie_offers(pattern, links@.take(i as int)),
        decreases links.len() - i,
    {
        proof {
            assert(links@.take(i + 1).drop_last() =~= links@.take(i as int));
            assert(links@.take(i + 1).last() == links@[i as int]);
        }
        let link = &links[i];
        match extract_hash_from_url(link.href.as_str()) {
            Some(hash) => {
                if !has_offer(&offers, hash.as_str()) {
                    let found = match find_first(quality, link.text.as_str()) {
                        Some(q) => Some(q),
                        None => find_first(quality, link.title.as_str()),
                    };
                    match found {
                        Some(q) => {
                            let ghost before = offers@;
                            offers.push((q, hash));
                            assert(pairs(offers@) =~= pairs(before).push((q@, hash@)));
                        },
                        None => {},
                    }
                }
            },
            None => {},
        }
        i += 1;
    }
    assert(links@.take(links.len() as int) =~= links@);
    offers
}

/// One result for each offer of a movie, each with the size at its place.
pub fn movie_results(movie: &str, offers: &Vec<(String, String)>, sizes: &Vec<String>) -> (results:
    Vec<TorrentResult>)
    ensures
        are_movie_results(results@, movie@, pairs(offers@), texts(sizes@)),
{
    let mut results: Vec<TorrentResult> = Vec::new();
    let mut i: usize = 0;
    while i < offers.len()
        invariant
            i <= offers.len(),
            are_movie_results(results@, movie@, pairs(offers@).take(i as int), texts(sizes@)),
        decreases offers.len() - i,
    {
        let size = if i < sizes.len() {
            sizes[i].clone()
        } else {
            String::new()
        };
        let mut name = joined(movie, " [");
        name.append(offers[i].0.as_str());
        name.append("]");
        let magnet = hash_to_magnet(offers[i].1.as_str(), name.as_str());
        let ghost before = results@;
        results.push(
            TorrentResult {
                name,
                size,
                seeders: 0,
                leechers: 0,
                magnet,
                source: String::from_str("yts"),
                url: None,
                category: Some(String::from_str("Movies")),
            },
        );
        proof {
            assert(texts(sizes@).len() == sizes.len());
            if i < sizes.len() {
                assert(texts(sizes@)[i as int] == sizes@[i as int]@);
            }
            assert(pairs(offers@)[i as int] == (offers@[i as int].0@, offers@[i as int].1@));
            assert forall|k: int| 0 <= k < results.len() implies is_movie_result(
                #[trigger] results@[k],
                movie@,
                pairs(offers@).take(i + 1)[k].0,
                pairs(offers@).take(i + 1)[k].1,
                size_for(texts(sizes@), k),
            ) by {
                if k < i {
                    assert(results@[k] == before[k]);
                    assert(pairs(offers@).take(i as int)[k] == pairs(offers@).take(i + 1)[k]);
                }
            }
        }
        i += 1;
    }
    assert(pairs(offers@).take(offers.len() as int) =~= pairs(offers@));
    results
}

/// The results that the page of a movie gives, from its links to torrent
/// files and its text, given the compiled patterns of a quality and of a
/// size: one result for each offer, with the sizes of the page in their
/// order.
pub fn results_of_page(
    links: &Vec<MovieLink>,
    page_text: &str,
    movie: &str,
    quality: &Pattern,
    size: &Pattern,
) -> (results: Vec<TorrentResult>)
    ensures
        are_movie_results(
            results@,
            movie@,
            movie_offers(quality.text(), links@),
            all_matches(size.text(), page_text@),
        ),
{
    let offers = offers_of(links, quality);
    let sizes = find_all(size, page_text);
    movie_results(movie, &offers, &sizes)
}

/// The results that the page of a movie gives: one for each offer of its
/// links, with the sizes of the page in their order, where the patterns of a
/// quality and of a size compile, and none where one of them does not.
pub fn parse_movie_page(links: &Vec<MovieLink>, page_text: &str, movie: &str) -> (results: Vec<
    TorrentResult,
>)
    ensures
        if compiles(QUALITY_PATTERN@) && compiles(MOVIE_SIZE_PATTERN@) {
            are_movie_results(
                results@,
                movie@,
                movie_offers(QUALITY_PATTERN@, links@),
                all_matches(MOVIE_SIZE_PATTERN@, page_text@),
            )
        } else {
            results.len() == 0
        },
{
    let quality = match Pattern::new(QUALITY_PATTERN) {
        Some(re) => re,
        None => {
            return Vec::new();
        },
    };
    let size = match Pattern::new(MOVIE_SIZE_PATTERN) {
        Some(re) => re,
        None => {
            return Vec::new();
        },
    };
    results_of_page(links, page_text, movie, &quality, &size)
}

} // verus!
