use crate::text::{
    clean_text, contains, decimal, is_prefix, joined, occurs_in, push_decimal, replace_all,
    replaced, starts_with, trimmed,
};
use vstd::prelude::*;
use vstd::string::*;
use vstd::utf8::encode_utf8;

verus! {

/// Where the searches of 1337x go.
pub const X1337_BASE_URL: &'static str = "https://www.1337xx.to";

/// Where the searches of BitSearch go.
pub const BITSEARCH_BASE_URL: &'static str = "https://bitsearch.to";

/// Where the searches of ilCorsaroNero go.
pub const ILCORSARONERO_BASE_URL: &'static str = "https://ilcorsaronero.link";

/// How many detail pages of 1337x are fetched for one search.
pub const X1337_DETAIL_LIMIT: usize = 8;

/// How many detail pages of YTS and ilCorsaroNero are fetched for one search.
pub const DETAIL_LIMIT: usize = 10;

/// A byte that stands for itself in an address: a letter or digit of ASCII,
/// or one of `-`, `.`, `_` and `~`.
pub open spec fn is_unreserved(b: u8) -> bool {
    ||| 0x30 <= b <= 0x39
    ||| 0x41 <= b <= 0x5a
    ||| 0x61 <= b <= 0x7a
    ||| b == 0x2d
    ||| b == 0x2e
    ||| b == 0x5f
    ||| b == 0x7e
}

/// The hexadecimal digit for `d`, which is below 16, in upper case.
pub open spec fn hex_digit(d: u8) -> char {
    if d < 10 {
        (0x30 + d) as char
    } else {
        (0x41 + d - 10) as char
    }
}

/// One byte as it stands in an address: itself, or `%` and two hexadecimal
/// digits.
pub open spec fn encoded_byte(b: u8) -> Seq<char> {
    if is_unreserved(b) {
        seq![b as char]
    } else {
        seq!['%', hex_digit(b / 16), hex_digit(b % 16)]
    }
}

/// A text as it stands in an address: each byte of its UTF-8 form encoded.
pub open spec fn percent_encoded(s: Seq<char>) -> Seq<char> {
    encode_utf8(s).map_values(|b: u8| encoded_byte(b)).flatten()
}

/// The text as it stands in an address, by `urlencoding::encode`: every byte
/// of the text is replaced by `%` and its two hexadecimal digits in upper
/// case, but for the letters and digits of ASCII and `-`, `.`, `_`, `~`.
#[verifier::external_body]
pub(crate) fn url_encode(s: &str) -> (e: String)
    ensures
        e@ == percent_encoded(s@),
{
    urlencoding::encode(s).into_owned()
}

/// The upper-case form of a text, as `str::to_uppercase` gives it.
pub uninterp spec fn uppercase(s: Seq<char>) -> Seq<char>;

/// The upper-case form of `s`, by `str::to_uppercase`: each character is
/// replaced by its Unicode upper-case mapping.
#[verifier::external_body]
pub(crate) fn to_uppercase(s: &str) -> (r: String)
    ensures
        r@ == uppercase(s@),
{
    s.to_uppercase()
}

/// Whether `c` is one of the ten digits.
pub open spec fn is_digit(c: char) -> bool {
    '0' <= c <= '9'
}

/// The number that a row of digits spells.
pub open spec fn digits_value(digits: Seq<char>) -> nat
    decreases digits.len(),
{
    if digits.len() == 0 {
        0
    } else {
        digits_value(digits.drop_last()) * 10 + (digits.last() as nat - '0' as nat) as nat
    }
}

/// The digits of a numeral: what follows its sign, if it has one.
pub open spec fn numeral_digits(s: Seq<char>) -> Seq<char> {
    if s.len() > 0 && (s[0] == '-' || s[0] == '+') {
        s.skip(1)
    } else {
        s
    }
}

/// The number that a text spells: an optional sign, then digits and nothing
/// else, and a value within the range of 64-bit signed numbers; none for
/// any other text.
pub open spec fn parsed_i64(s: Seq<char>) -> Option<i64> {
    let digits = numeral_digits(s);
    let value = if s.len() > 0 && s[0] == '-' {
        -(digits_value(digits) as int)
    } else {
        digits_value(digits) as int
    };
    if digits.len() > 0 && (forall|k: int| 0 <= k < digits.len() ==> is_digit(digits[k])) && i64::MIN
        <= value <= i64::MAX {
        Some(value as i64)
    } else {
        None
    }
}

/// The number that `s` spells, if it spells one.
pub fn parse_i64(s: &str) -> (n: Option<i64>)
    ensures
        n == parsed_i64(s@),
{
    let chars = crate::text::to_chars(s);
    let negative = chars.len() > 0 && chars[0] == '-';
    let start: usize = if chars.len() > 0 && (chars[0] == '-' || chars[0] == '+') {
        1
    } else {
        0
    };
    let ghost digits = numeral_digits(chars@);
    assert(digits =~= chars@.skip(start as int));
    if start == chars.len() {
        return None;
    }
    let cap: u128 = 0x8000_0000_0000_0001;
    let mut acc: u128 = 0;
    let mut i: usize = start;
    assert(digits.take(0) =~= Seq::empty());
    while i < chars.len()
        invariant
            start <= i <= chars.len(),
            digits == chars@.skip(start as int),
            digits == numeral_digits(s@),
            cap == 0x8000_0000_0000_0001,
            forall|k: int| 0 <= k < i - start ==> is_digit(digits[k]),
            acc == if digits_value(digits.take(i - start)) < cap {
                digits_value(digits.take(i - start))
            } else {
                cap as nat
            },
        decreases chars.len() - i,
    {
        let c = chars[i];
        assert(digits[i - start] == c);
        if c < '0' || c > '9' {
            assert(!is_digit(digits[i - start]));
            return None;
        }
        proof {
            assert(digits.take(i - start + 1).drop_last() =~= digits.take(i - start));
            assert(digits.take(i - start + 1).last() == c);
        }
        let d: u128 = (c as u32 - '0' as u32) as u128;
        let next: u128 = acc * 10 + d;
        acc = if next < cap { next } else { cap };
        i += 1;
    }
    assert(digits.take(chars.len() - start) =~= digits);
    if negative {
        if acc <= 0x8000_0000_0000_0000 {
            if acc == 0x8000_0000_0000_0000 {
                Some(i64::MIN)
            } else {
                Some(-(acc as i64))
            }
        } else {
            None
        }
    } else {
        if acc <= 0x7fff_ffff_ffff_ffff {
            Some(acc as i64)
        } else {
            None
        }
    }
}

/// The count that a cell of a results table spells: the number between the
/// white space around it, or 0 where there is none.
pub open spec fn count_of(cell: Seq<char>) -> i64 {
    match parsed_i64(trimmed(cell)) {
        Some(n) => n,
        None => 0,
    }
}

/// The count that a cell of a results table spells.
pub fn parse_count(cell: &str) -> (n: i64)
    ensures
        n == count_of(cell@),
{
    let inner = clean_text(cell);
    match parse_i64(inner.as_str()) {
        Some(n) => n,
        None => 0,
    }
}

/// The page number of The Pirate Bay for the session's page: its pages count
/// from 0.
pub fn tpb_page(page: u32) -> (p: u32)
    ensures
        p == if page > 0 {
            page - 1
        } else {
            0
        },
{
    if page > 0 {
        page - 1
    } else {
        0
    }
}

/// The address of a search on 1337x.
pub fn x1337_search_url(query: &str, page: u32) -> (url: String)
    ensures
        url@ == X1337_BASE_URL@ + "/search/"@ + percent_encoded(query@) + "/"@ + decimal(
            page as nat,
        ) + "/"@,
{
    let mut url = joined(X1337_BASE_URL, "/search/");
    url.append(url_encode(query).as_str());
    url.append("/");
    push_decimal(&mut url, page as u64);
    url.append("/");
    url
}

/// The path of a search on The Pirate Bay, ordered by seeders.
pub fn tpb_search_path(query: &str, page: u32) -> (path: String)
    ensures
        path@ == "/search/"@ + percent_encoded(query@) + "/"@ + decimal(
            (if page > 0 {
                page - 1
            } else {
                0
            }) as nat,
        ) + "/99/0"@,
{
    let mut path = String::from_str("/search/");
    path.append(url_encode(query).as_str());
    path.append("/");
    push_decimal(&mut path, tpb_page(page) as u64);
    path.append("/99/0");
    path
}

/// The address of a path on one of the mirrors of The Pirate Bay.
pub fn tpb_url(domain: &str, path: &str) -> (url: String)
    ensures
        url@ == "https://"@ + domain@ + path@,
{
    let mut url = joined("https://", domain);
    url.append(path);
    url
}

/// The address of a search on BitSearch, ordered by seeders.
pub fn bitsearch_search_url(query: &str, page: u32) -> (url: String)
    ensures
        url@ == BITSEARCH_BASE_URL@ + "/search?q="@ + percent_encoded(query@) + "&page="@ + decimal(
            page as nat,
        ) + "&sort=seeders"@,
{
    let mut url = joined(BITSEARCH_BASE_URL, "/search?q=");
    url.append(url_encode(query).as_str());
    url.append("&page=");
    push_decimal(&mut url, page as u64);
    url.append("&sort=seeders");
    url
}

/// The address of a search on YTS: the first page has no page number.
pub open spec fn yts_url_text(domain: Seq<char>, query: Seq<char>, page: u32) -> Seq<char> {
    let first = "https://"@ + domain + "/browse-movies/"@ + percent_encoded(query)
        + "/all/all/0/latest/0/all"@;
    if page > 1 {
        first + "?page="@ + decimal(page as nat)
    } else {
        first
    }
}

/// The address of a search on one of the domains of YTS.
pub fn yts_search_url(domain: &str, query: &str, page: u32) -> (url: String)
    ensures
        url@ == yts_url_text(domain@, query@, page),
{
    let mut url = joined("https://", domain);
    url.append("/browse-movies/");
    url.append(url_encode(query).as_str());
    url.append("/all/all/0/latest/0/all");
    if page > 1 {
        url.append("?page=");
        push_decimal(&mut url, page as u64);
    }
    url
}

/// The address of a search on ilCorsaroNero: the first page has no page
/// number.
pub open spec fn ilcorsaronero_url_text(query: Seq<char>, page: u32) -> Seq<char> {
    let first = ILCORSARONERO_BASE_URL@ + "/search?q="@ + percent_encoded(query);
    if page > 1 {
        first + "&page="@ + decimal(page as nat)
    } else {
        first
    }
}

/// The address of a search on ilCorsaroNero.
pub fn ilcorsaronero_search_url(query: &str, page: u32) -> (url: String)
    ensures
        url@ == ilcorsaronero_url_text(query@, page),
{
    let mut url = joined(ILCORSARONERO_BASE_URL, "/search?q=");
    url.append(url_encode(query).as_str());
    if page > 1 {
        url.append("&page=");
        push_decimal(&mut url, page as u64);
    }
    url
}

/// The address that a link of a page stands for: itself where it is a whole
/// address, else the site's address followed by it.
pub fn absolute_url(base: &str, href: &str) -> (url: String)
    ensures
        url@ == if is_prefix("http"@, href@) {
            href@
        } else {
            base@ + href@
        },
{
    if starts_with(href, "http") {
        String::from_str(href)
    } else {
        joined(base, href)
    }
}

/// The trackers that a magnet link of YTS announces to, each behind `&tr=`
/// and encoded, one after the other.
pub open spec fn tracker_part(trackers: Seq<Seq<char>>) -> Seq<char>
    decreases trackers.len(),
{
    if trackers.len() == 0 {
        Seq::empty()
    } else {
        tracker_part(trackers.drop_last()) + "&tr="@ + percent_encoded(trackers.last())
    }
}

/// The trackers that the magnet links of YTS announce to.
pub open spec fn yts_trackers() -> Seq<Seq<char>> {
    seq![
        "udp://open.demonii.com:1337/announce"@,
        "udp://tracker.openbittorrent.com:80"@,
        "udp://tracker.coppersurfer.tk:6969"@,
        "udp://glotorrents.pw:6969/announce"@,
        "udp://tracker.opentrackr.org:1337/announce"@,
        "udp://torrent.gresille.org:80/announce"@,
        "udp://p4p.arenabg.com:1337"@,
        "udp://tracker.leechers-paradise.org:6969"@,
    ]
}

/// The magnet link for an info hash of YTS and the name to show.
pub open spec fn magnet_text(info_hash: Seq<char>, name: Seq<char>) -> Seq<char> {
    "magnet:?xt=urn:btih:"@ + uppercase(info_hash) + "&dn="@ + percent_encoded(name)
        + tracker_part(yts_trackers())
}

/// The texts of a list of fixed texts.
pub open spec fn fixed_texts(v: Seq<&'static str>) -> Seq<Seq<char>> {
    v.map_values(|s: &'static str| s@)
}

/// The trackers that the magnet links of YTS announce to.
pub fn yts_tracker_list() -> (v: Vec<&'static str>)
    ensures
        fixed_texts(v@) == yts_trackers(),
{
    let mut v: Vec<&'static str> = Vec::new();
    v.push("udp://open.demonii.com:1337/announce");
    v.push("udp://tracker.openbittorrent.com:80");
    v.push("udp://tracker.coppersurfer.tk:6969");
    v.push("udp://glotorrents.pw:6969/announce");
    v.push("udp://tracker.opentrackr.org:1337/announce");
    v.push("udp://torrent.gresille.org:80/announce");
    v.push("udp://p4p.arenabg.com:1337");
    v.push("udp://tracker.leechers-paradise.org:6969");
    assert(fixed_texts(v@) =~= yts_trackers());
    v
}

/// The magnet link for an info hash of YTS and the name to show.
pub fn hash_to_magnet(info_hash: &str, name: &str) -> (magnet: String)
    ensures
        magnet@ == magnet_text(info_hash@, name@),
{
    let mut magnet = String::from_str("magnet:?xt=urn:btih:");
    magnet.append(to_uppercase(info_hash).as_str());
    magnet.append("&dn=");
    magnet.append(url_encode(name).as_str());
    let ghost head = magnet@;
    let trackers = yts_tracker_list();
    let ghost t = yts_trackers();
    let mut i: usize = 0;
    assert(t.take(0) =~= Seq::empty());
    assert(magnet@ =~= head + tracker_part(t.take(0)));
    while i < trackers.len()
        invariant
            i <= trackers.len(),
            t == fixed_texts(trackers@),
            magnet@ == head + tracker_part(t.take(i as int)),
        decreases trackers.len() - i,
    {
        let ghost before = magnet@;
        magnet.append("&tr=");
        magnet.append(url_encode(trackers[i]).as_str());
        proof {
            assert(t.take(i + 1).drop_last() =~= t.take(i as int));
            assert(t.take(i + 1).last() == trackers@[i as int]@);
            assert(magnet@ =~= head + tracker_part(t.take(i + 1)));
        }
        i += 1;
    }
    assert(t.take(trackers.len() as int) =~= t);
    magnet
}

/// A page that a protection service put in place of the one asked for.
pub open spec fn is_challenge(body: Seq<char>) -> bool {
    occurs_in("Just a moment"@, body) || occurs_in("Enable JavaScript"@, body)
}

/// Whether a page is one that a protection service put in place of the one
/// asked for.
pub fn is_challenge_page(body: &str) -> (b: bool)
    ensures
        b == is_challenge(body@),
{
    contains(body, "Just a moment") || contains(body, "Enable JavaScript")
}

/// A source that is fetched through the rendering service first.
#[derive(Clone, Copy, Debug, PartialEq, Eq, Structural)]
pub enum RenderedSource {
    X1337,
    BitSearch,
    Yts,
}

/// A page from the rendering service that looks like a page of the source:
/// not empty, and with one of the marks of the source in it.
pub open spec fn is_usable_render(source: RenderedSource, body: Seq<char>) -> bool {
    body.len() > 0 && match source {
        RenderedSource::X1337 => occurs_in("1337x"@, body) || occurs_in("magnet:"@, body)
            || occurs_in("torrent"@, body),
        RenderedSource::BitSearch => occurs_in("search-result"@, body) || occurs_in("card"@, body),
        RenderedSource::Yts => true,
    }
}

/// Whether a page from the rendering service is taken as the page of the
/// source; where it is not, the source is fetched directly.
pub fn usable_render(source: RenderedSource, body: &str) -> (b: bool)
    ensures
        b == is_usable_render(source, body@),
{
    if body.is_empty() {
        return false;
    }
    match source {
        RenderedSource::X1337 => contains(body, "1337x") || contains(body, "magnet:") || contains(
            body,
            "torrent",
        ),
        RenderedSource::BitSearch => contains(body, "search-result") || contains(body, "card"),
        RenderedSource::Yts => true,
    }
}

/// Whether a page of a mirror of The Pirate Bay holds a results table.
pub fn is_tpb_results_page(body: &str) -> (b: bool)
    ensures
        b == occurs_in("searchResult"@, body@),
{
    contains(body, "searchResult")
}

/// Whether a page of YTS holds a list of movies.
pub fn is_yts_results_page(body: &str) -> (b: bool)
    ensures
        b == occurs_in("browse-movie-wrap"@, body@),
{
    contains(body, "browse-movie-wrap")
}

/// The count that a cell spells which may group its digits with commas.
pub open spec fn grouped_count_of(cell: Seq<char>) -> i64 {
    match parsed_i64(replaced(trimmed(cell), ","@, ""@)) {
        Some(n) => n,
        None => 0,
    }
}

/// The count that a cell spells which may group its digits with commas.
pub fn parse_grouped_count(cell: &str) -> (n: i64)
    ensures
        n == grouped_count_of(cell@),
{
    let inner = clean_text(cell);
    let plain = replace_all(inner.as_str(), ",", "");
    match parse_i64(plain.as_str()) {
        Some(n) => n,
        None => 0,
    }
}

/// A magnet link as it stands in a page of BitSearch, with the characters
/// that the page wrote as entities put back.
pub fn decode_magnet(raw: &str) -> (magnet: String)
    ensures
        magnet@ == replaced(
            replaced(replaced(raw@, "&amp;"@, "&"@), "&#x3D;"@, "="@),
            "&#x3A;"@,
            ":"@,
        ),
{
    let a = replace_all(raw, "&amp;", "&");
    let b = replace_all(a.as_str(), "&#x3D;", "=");
    replace_all(b.as_str(), "&#x3A;", ":")
}

} // verus!
