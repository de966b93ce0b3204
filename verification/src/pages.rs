use crate::selection::texts;
use crate::text::{
    contains, is_whitespace, lowercase, matches_at, occurs_at, occurs_in, push_range, replace_all,
    replaced, to_chars, to_lowercase, whitespace,
};
use vstd::prelude::*;
use vstd::string::*;

verus! {

/// A compiled pattern of the `regex` crate.
#[verifier::external_type_specification]
#[verifier::external_body]
pub struct ExRegex(regex::Regex);

/// The text that a compiled pattern was made from, as `Regex::as_str` gives
/// it.
pub uninterp spec fn pattern_of(re: regex::Regex) -> Seq<char>;

/// The leftmost match in a text of a pattern compiled by `Regex::new`, as
/// `Regex::find` gives it; none where the pattern matches nowhere.
pub uninterp spec fn first_match(pattern: Seq<char>, text: Seq<char>) -> Option<Seq<char>>;

/// The matches in a text of a pattern compiled by `Regex::new`, from left to
/// right and none inside another, as `Regex::find_iter` gives them.
pub uninterp spec fn all_matches(pattern: Seq<char>, text: Seq<char>) -> Seq<Seq<char>>;

/// Whether a text is a pattern that `Regex::new` compiles: one without a
/// fault of syntax and within the size that it allows.
pub uninterp spec fn compiles(pattern: Seq<char>) -> bool;

/// Compiles `pattern`, by `Regex::new`: whether it compiles is a matter of
/// the text alone, and a compiled pattern remembers the text it was made
/// from; nothing is said of which texts compile.
#[verifier::external_body]
fn compile(pattern: &str) -> (r: Option<regex::Regex>)
    ensures
        r is Some <==> compiles(pattern@),
        r matches Some(re) ==> pattern_of(re) == pattern@,
{
    match regex::Regex::new(pattern) {
        Ok(re) => Some(re),
        Err(_) => None,
    }
}

/// A pattern compiled from its text with the options that `Regex::new`
/// gives; there is no other way to make one.
pub struct Pattern {
    re: regex::Regex,
}

impl Pattern {
    /// The text that the pattern was compiled from.
    pub closed spec fn text(self) -> Seq<char> {
        pattern_of(self.re)
    }

    /// The pattern that `text` spells, where it compiles.
    pub fn new(text: &str) -> (p: Option<Pattern>)
        ensures
            p is Some <==> compiles(text@),
            p matches Some(pattern) ==> pattern.text() == text@,
    {
        match compile(text) {
            Some(re) => Some(Pattern { re }),
            None => None,
        }
    }
}

/// The leftmost match of the pattern in `text`, by `Regex::find` on a
/// pattern that `Regex::new` compiled.
#[verifier::external_body]
pub(crate) fn find_first(pattern: &Pattern, text: &str) -> (m: Option<String>)
    ensures
        match m {
            Some(found) => first_match(pattern.text(), text@) == Some(found@),
            None => first_match(pattern.text(), text@) is None,
        },
{
    match pattern.re.find(text) {
        Some(m) => Some(m.as_str().to_string()),
        None => None,
    }
}

/// The matches of the pattern in `text` from left to right, by
/// `Regex::find_iter` on a pattern that `Regex::new` compiled.
#[verifier::external_body]
pub(crate) fn find_all(pattern: &Pattern, text: &str) -> (found: Vec<String>)
    ensures
        texts(found@) == all_matches(pattern.text(), text@),
{
    pattern.re.find_iter(text).map(|m| m.as_str().to_string()).collect()
}

/// The pattern of a video quality, such as `1080p` or `2160p.x265`.
pub const QUALITY_PATTERN: &'static str = r"(\d+p(?:\.\w+)*)";

/// The pattern of a file size on a page of YTS, such as `1.5 GB`.
pub const MOVIE_SIZE_PATTERN: &'static str = r"(\d+(?:\.\d+)?\s*(?:GB|MB|GiB|MiB))";

/// The pattern of a file size on a page of BitSearch.
pub const CARD_SIZE_PATTERN: &'static str = r"([\d.]+\s*(?:GB|MB|KB|TB|GiB|MiB))";

/// Whether `c` is a hexadecimal digit, in either case.
pub open spec fn is_hex(c: char) -> bool {
    '0' <= c <= '9' || 'a' <= c <= 'f' || 'A' <= c <= 'F'
}

/// `s` holds `count` hexadecimal digits from place `at` on.
pub open spec fn hex_run(s: Seq<char>, at: int, count: int) -> bool {
    0 <= at && at + count <= s.len() && forall|k: int| at <= k < at + count ==> is_hex(s[k])
}

/// `lead` stands in `s` at place `i`, with forty hexadecimal digits behind
/// it.
pub open spec fn hash_behind(lead: Seq<char>, s: Seq<char>, i: int) -> bool {
    occurs_at(lead, s, i) && hex_run(s, i + lead.len(), 40)
}

/// `i` is the first place of `s` at which `lead` stands with forty
/// hexadecimal digits behind it.
pub open spec fn first_hash_behind(lead: Seq<char>, s: Seq<char>, i: int) -> bool {
    hash_behind(lead, s, i) && forall|j: int| 0 <= j < i ==> !hash_behind(lead, s, j)
}

/// Whether `c` is a hexadecimal digit.
pub fn hex_char(c: char) -> (b: bool)
    ensures
        b == is_hex(c),
{
    ('0' <= c && c <= '9') || ('a' <= c && c <= 'f') || ('A' <= c && c <= 'F')
}

/// Whether `lead` stands in `v` at place `i` with forty hexadecimal digits
/// behind it.
fn hash_at(v: &Vec<char>, lead: &Vec<char>, i: usize) -> (b: bool)
    ensures
        b == hash_behind(lead@, v@, i as int),
{
    if !matches_at(v, lead, i) {
        return false;
    }
    assert(i + lead.len() <= v.len());
    let start: usize = i + lead.len();
    if v.len() - start < 40 {
        return false;
    }
    let mut k: usize = 0;
    while k < 40
        invariant
            k <= 40,
            start + 40 <= v.len(),
            start == i + lead.len(),
            forall|j: int| start <= j < start + k ==> is_hex(v@[j]),
        decreases 40 - k,
    {
        if !hex_char(v[start + k]) {
            assert(!is_hex(v@[start + k]));
            return false;
        }
        k += 1;
    }
    true
}

/// The first place of `v` at which `lead` stands with forty hexadecimal
/// digits behind it.
fn find_hash(v: &Vec<char>, lead: &Vec<char>) -> (place: Option<usize>)
    ensures
        match place {
            Some(i) => first_hash_behind(lead@, v@, i as int),
            None => forall|i: int| !hash_behind(lead@, v@, i),
        },
{
    let mut i: usize = 0;
    while i < v.len()
        invariant
            i <= v.len(),
            forall|j: int| 0 <= j < i ==> !hash_behind(lead@, v@, j),
        decreases v.len() - i,
    {
        if hash_at(v, lead, i) {
            return Some(i);
        }
        i += 1;
    }
    assert forall|j: int| !hash_behind(lead@, v@, j) by {
        if j >= v.len() {
            assert(!hex_run(v@, j + lead@.len(), 40));
        }
    }
    None
}

/// The text that stands before the info hash in the address of a torrent
/// file of YTS.
pub open spec fn download_lead() -> Seq<char> {
    "/torrent/download/"@
}

/// The info hash in the address of a torrent file of YTS: the forty
/// hexadecimal digits behind the first `/torrent/download/` that has forty
/// of them behind it; none where there is no such place.
pub open spec fn url_hash(url: Seq<char>) -> Option<Seq<char>> {
    if exists|i: int| first_hash_behind(download_lead(), url, i) {
        let i = choose|i: int| first_hash_behind(download_lead(), url, i);
        Some(url.subrange(i + download_lead().len(), i + download_lead().len() + 40))
    } else {
        None
    }
}

/// The info hash in the address of a torrent file of YTS.
pub fn extract_hash_from_url(url: &str) -> (hash: Option<String>)
    ensures
        match hash {
            Some(h) => url_hash(url@) == Some(h@),
            None => url_hash(url@) is None,
        },
{
    let v = to_chars(url);
    let lead = to_chars("/torrent/download/");
    match find_hash(&v, &lead) {
        Some(i) => {
            assert(hash_behind(lead@, v@, i as int));
            assert(i + lead.len() + 40 <= v.len());
            let mut h = String::new();
            push_range(&mut h, &v, i + lead.len(), i + lead.len() + 40);
            proof {
                assert(first_hash_behind(download_lead(), url@, i as int));
                let j = choose|j: int| first_hash_behind(download_lead(), url@, j);
                assert(j == i) by {
                    if j < i {
                        assert(!hash_behind(download_lead(), url@, j));
                    } else if i < j {
                        assert(!hash_behind(download_lead(), url@, i as int));
                    }
                }
            }
            Some(h)
        },
        None => None,
    }
}

/// A character at which a magnet link in the text of a page ends: a double
/// quote, an angle bracket or white space.
pub open spec fn ends_link(c: char) -> bool {
    c == '"' || c == '<' || c == '>' || is_whitespace(c)
}

/// The place behind the run of characters of `s` from `from` on that end no
/// link.
pub open spec fn link_end(s: Seq<char>, from: int) -> int
    decreases s.len() - from,
{
    if from < 0 || from >= s.len() || ends_link(s[from]) {
        from
    } else {
        link_end(s, from + 1)
    }
}

/// The text with which a magnet link with an info hash begins.
pub open spec fn magnet_lead() -> Seq<char> {
    "magnet:?xt=urn:btih:"@
}

/// The first magnet link in the text of a page whose info hash is forty
/// hexadecimal digits, up to the character that ends it and with the
/// ampersands that the page wrote as entities put back; none where there is
/// no such link.
pub open spec fn is_magnet_in_text(html: Seq<char>, magnet: Option<Seq<char>>) -> bool {
    match magnet {
        Some(m) => exists|i: int|
            first_hash_behind(magnet_lead(), html, i) && m == replaced(
                html.subrange(i, link_end(html, i + magnet_lead().len() + 40)),
                "&amp;"@,
                "&"@,
            ),
        None => forall|i: int| !hash_behind(magnet_lead(), html, i),
    }
}

/// The first magnet link in the text of a page.
pub fn magnet_in_text(html: &str) -> (magnet: Option<String>)
    ensures
        match magnet {
            Some(m) => is_magnet_in_text(html@, Some(m@)),
            None => is_magnet_in_text(html@, None),
        },
{
    let v = to_chars(html);
    let lead = to_chars("magnet:?xt=urn:btih:");
    match find_hash(&v, &lead) {
        Some(i) => {
            assert(hash_behind(lead@, v@, i as int));
            assert(i + lead.len() + 40 <= v.len());
            let from: usize = i + lead.len() + 40;
            let mut end: usize = from;
            while end < v.len() && !(v[end] == '"' || v[end] == '<' || v[end] == '>' || whitespace(
                v[end],
            ))
                invariant
                    from <= end <= v.len(),
                    link_end(v@, from as int) == link_end(v@, end as int),
                decreases v.len() - end,
            {
                end += 1;
            }
            let mut raw = String::new();
            push_range(&mut raw, &v, i, end);
            let m = replace_all(raw.as_str(), "&amp;", "&");
            assert(first_hash_behind(magnet_lead(), html@, i as int));
            Some(m)
        },
        None => None,
    }
}

/// A page of ilCorsaroNero that says that the torrent is gone.
pub open spec fn is_deleted(html: Seq<char>) -> bool {
    occurs_in("Eliminato"@, html) || occurs_in("non esiste"@, lowercase(html))
}

/// What the text of a detail page of ilCorsaroNero gives.
#[derive(Debug)]
pub enum PageMagnet {
    /// The page says that the torrent is gone.
    Deleted,
    /// The magnet link that stands in the text.
    Found(String),
    /// The text holds no magnet link with an info hash.
    Absent,
}

/// What the text of a detail page of ilCorsaroNero gives: nothing where the
/// torrent is gone, else the first magnet link in the text.
pub fn extract_magnet(html: &str) -> (r: PageMagnet)
    ensures
        match r {
            PageMagnet::Deleted => is_deleted(html@),
            PageMagnet::Found(m) => !is_deleted(html@) && is_magnet_in_text(html@, Some(m@)),
            PageMagnet::Absent => !is_deleted(html@) && is_magnet_in_text(html@, None),
        },
{
    if contains(html, "Eliminato") || contains(to_lowercase(html).as_str(), "non esiste") {
        return PageMagnet::Deleted;
    }
    match magnet_in_text(html) {
        Some(m) => PageMagnet::Found(m),
        None => PageMagnet::Absent,
    }
}

/// The place of the first white-space character of `s` from `from` on, or
/// the length where there is none.
pub open spec fn word_end(s: Seq<char>, from: int) -> int
    decreases s.len() - from,
{
    if from < 0 || from >= s.len() || is_whitespace(s[from]) {
        from
    } else {
        word_end(s, from + 1)
    }
}

/// The place of the first character of `s` from `from` on that is no white
/// space, or the length where there is none.
pub open spec fn word_start(s: Seq<char>, from: int) -> int
    decreases s.len() - from,
{
    if from < 0 || from >= s.len() || !is_whitespace(s[from]) {
        from
    } else {
        word_start(s, from + 1)
    }
}

/// The size in a cell of 1337x, which may hold it twice: the first two words
/// of the cell with one blank between them, or, where there are fewer, the
/// cell without the white space around it.
pub open spec fn listed_size_text(cell: Seq<char>) -> Seq<char> {
    let a = word_start(cell, 0);
    let b = word_end(cell, a);
    let c = word_start(cell, b);
    let d = word_end(cell, c);
    if c < cell.len() {
        cell.subrange(a, b) + " "@ + cell.subrange(c, d)
    } else {
        cell.subrange(a, b)
    }
}

/// The place of the first white-space character of `v` from `from` on.
fn end_of_word(v: &Vec<char>, from: usize) -> (end: usize)
    requires
        from <= v.len(),
    ensures
        end == word_end(v@, from as int),
        from <= end <= v.len(),
{
    let mut end: usize = from;
    while end < v.len() && !whitespace(v[end])
        invariant
            from <= end <= v.len(),
            word_end(v@, from as int) == word_end(v@, end as int),
        decreases v.len() - end,
    {
        end += 1;
    }
    end
}

/// The place of the first character of `v` from `from` on that is no white
/// space.
fn start_of_word(v: &Vec<char>, from: usize) -> (start: usize)
    requires
        from <= v.len(),
    ensures
        start == word_start(v@, from as int),
        from <= start <= v.len(),
{
    let mut start: usize = from;
    while start < v.len() && whitespace(v[start])
        invariant
            from <= start <= v.len(),
            word_start(v@, from as int) == word_start(v@, start as int),
        decreases v.len() - start,
    {
        start += 1;
    }
    start
}

/// The size in a cell of 1337x.
pub fn listed_size(cell: &str) -> (size: String)
    ensures
        size@ == listed_size_text(cell@),
{
    let v = to_chars(cell);
    let a = start_of_word(&v, 0);
    let b = end_of_word(&v, a);
    let c = start_of_word(&v, b);
    let d = end_of_word(&v, c);
    let mut size = String::new();
    push_range(&mut size, &v, a, b);
    if c < v.len() {
        size.append(" ");
        push_range(&mut size, &v, c, d);
    }
    size
}

/// The size on a card of BitSearch: the first match of the pattern of a size
/// in the text of the card, or nothing.
pub fn card_size(size: &Pattern, card_text: &str) -> (s: String)
    ensures
        s@ == match first_match(size.text(), card_text@) {
            Some(m) => m,
            None => Seq::empty(),
        },
{
    match find_first(size, card_text) {
        Some(m) => m,
        None => String::new(),
    }
}

} // verus!
