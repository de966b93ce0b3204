use littlejohn::log::{get_log_path, Level, ScraperLog};
use littlejohn::movies::{
    movie_results, movie_title, offers_of, parse_movie_page, results_of_page, MovieLink,
};
use littlejohn::pages::{
    card_size, extract_hash_from_url, extract_magnet, listed_size, magnet_in_text, PageMagnet,
    Pattern, CARD_SIZE_PATTERN, MOVIE_SIZE_PATTERN, QUALITY_PATTERN,
};
use littlejohn::selection::{find_id, find_text, ids_distinct, texts_distinct, toggle_id, toggle_text};
use littlejohn::session::{AppMessage, DownloadLink, EmptyResults};
use littlejohn::sources::{
    absolute_url, bitsearch_search_url, decode_magnet, hash_to_magnet,
    parse_grouped_count, ilcorsaronero_search_url,
    is_challenge_page, is_tpb_results_page, is_yts_results_page, parse_count, parse_i64,
    tpb_page, tpb_search_path, tpb_url, usable_render, x1337_search_url, yts_search_url,
    yts_tracker_list, RenderedSource,
};
use littlejohn::realdebrid::{RdError, TorrentFile};
use littlejohn::results::TorrentResult;
use littlejohn::tasks::{finish_search, links_message, listing_message, search_message, ADDING_MAGNET};
use littlejohn::text::{
    byte_length, char_len, clean_text, contains, ends_with, i64_to_string, insert_char, joined,
    joined3, remove_char, replace_all, same_text, starts_with, to_chars, truncate, whitespace,
};
use littlejohn::units::format_time;

#[test]
fn numbers_as_text() {
    assert_eq!(format_time(0), "0s");
    assert_eq!(format_time(9), "9s");
    assert_eq!(format_time(10), "10s");
    assert_eq!(format_time(1_234_567_890 * 3600), "1234567890h 0m");
    assert_eq!(i64_to_string(-1), "-1");
    assert_eq!(i64_to_string(i64::MIN), "-9223372036854775808");
    assert_eq!(i64_to_string(i64::MAX), "9223372036854775807");
}

#[test]
fn texts_are_compared_by_character() {
    assert!(same_text("", ""));
    assert!(same_text("tpb", "tpb"));
    assert!(!same_text("tpb", "tpB"));
    assert!(!same_text("tpb", "tp"));
    assert!(starts_with("magnet:?x", "magnet:"));
    assert!(starts_with("abc", ""));
    assert!(!starts_with("magne", "magnet:"));
    assert!(!starts_with("xmagnet:", "magnet:"));
    assert!(ends_with("film.mkv", "mkv"));
    assert!(ends_with("mkv", "mkv"));
    assert!(!ends_with("kv", "mkv"));
    assert!(!ends_with("film.mkv ", "mkv"));
    assert!(contains("a searchResult b", "searchResult"));
    assert!(contains("abc", ""));
    assert!(contains("", ""));
    assert!(contains("abc", "c"));
    assert!(contains("abc", "abc"));
    assert!(!contains("abc", "abcd"));
    assert!(!contains("ab", "ba"));
    assert!(contains("ééa", "éa"));
}

#[test]
fn characters_and_bytes_are_counted_apart() {
    assert_eq!(char_len(""), 0);
    assert_eq!(char_len("été"), 3);
    assert_eq!(byte_length("été"), 5);
    assert_eq!(to_chars("aé"), vec!['a', 'é']);
}

#[test]
fn characters_are_put_in_and_taken_out() {
    let mut s = "ac".to_string();
    insert_char(&mut s, 1, 'b');
    assert_eq!(s, "abc");
    insert_char(&mut s, 3, 'd');
    insert_char(&mut s, 0, 'é');
    assert_eq!(s, "éabcd");
    remove_char(&mut s, 0);
    remove_char(&mut s, 3);
    assert_eq!(s, "abc");
    assert_eq!(joined("ab", "cd"), "abcd");
    assert_eq!(joined3("a", "", "c"), "ac");
}

#[test]
fn clean_text_strips_white_space_at_both_ends() {
    assert_eq!(clean_text("  The Matrix \n\t"), "The Matrix");
    assert_eq!(clean_text("x"), "x");
    assert_eq!(clean_text(""), "");
    assert_eq!(clean_text(" \u{00a0}\u{3000}\r\n"), "");
    assert_eq!(clean_text("\u{2003}a  b\u{0085}"), "a  b");
    assert_eq!(clean_text("\u{200b}a"), "\u{200b}a");
    for s in ["", " ", " a", "a ", "  a b  ", "\t\n", "\u{1680}x\u{2028}", "é "] {
        assert_eq!(clean_text(s), s.trim());
    }
}

#[test]
fn truncate_marks_the_cut_with_dots() {
    assert_eq!(truncate("The Matrix", 10), "The Matrix");
    assert_eq!(truncate("The Matrix", 9), "The Ma...");
    assert_eq!(truncate("The Matrix", 4), "T...");
    assert_eq!(truncate("The Matrix", 3), "The");
    assert_eq!(truncate("The Matrix", 0), "");
    assert_eq!(truncate("", 0), "");
    assert_eq!(truncate("ééééé", 4), "é...");
}

#[test]
fn queries_are_encoded_for_the_address() {
    assert_eq!(x1337_search_url("matrix 1999", 1), "https://www.1337xx.to/search/matrix%201999/1/");
    assert_eq!(
        bitsearch_search_url("a&b=c/d", 3),
        "https://bitsearch.to/search?q=a%26b%3Dc%2Fd&page=3&sort=seeders"
    );
    assert_eq!(tpb_search_path("été~_.-", 1), "/search/%C3%A9t%C3%A9~_.-/0/99/0");
    assert_eq!(tpb_search_path("x", 0), "/search/x/0/99/0");
    assert_eq!(tpb_search_path("x", 5), "/search/x/4/99/0");
    assert_eq!(tpb_url("tpb.party", "/search/x/0/99/0"), "https://tpb.party/search/x/0/99/0");
    assert_eq!(
        yts_search_url("yts.mx", "the matrix", 1),
        "https://yts.mx/browse-movies/the%20matrix/all/all/0/latest/0/all"
    );
    assert_eq!(
        yts_search_url("yts.lt", "the matrix", 2),
        "https://yts.lt/browse-movies/the%20matrix/all/all/0/latest/0/all?page=2"
    );
    assert_eq!(ilcorsaronero_search_url("il+film", 1), "https://ilcorsaronero.link/search?q=il%2Bfilm");
    assert_eq!(ilcorsaronero_search_url("il film", 4), "https://ilcorsaronero.link/search?q=il%20film&page=4");
    assert_eq!(tpb_page(0), 0);
    assert_eq!(tpb_page(1), 0);
    assert_eq!(tpb_page(u32::MAX), u32::MAX - 1);
}

#[test]
fn links_are_made_absolute() {
    assert_eq!(absolute_url("https://www.1337xx.to", "/torrent/1/x/"), "https://www.1337xx.to/torrent/1/x/");
    assert_eq!(absolute_url("https://www.1337xx.to", "https://other/x"), "https://other/x");
    assert_eq!(absolute_url("https://bitsearch.to", "http://plain/x"), "http://plain/x");
    assert_eq!(absolute_url("https://b", ""), "https://b");
}

#[test]
fn a_hash_becomes_a_magnet_link() {
    let magnet = hash_to_magnet("abcdef0123456789abcdef0123456789abcdef01", "The Matrix (1999) [1080p]");
    assert!(magnet.starts_with(
        "magnet:?xt=urn:btih:ABCDEF0123456789ABCDEF0123456789ABCDEF01&dn=The%20Matrix%20%281999%29%20%5B1080p%5D&tr=udp%3A%2F%2Fopen.demonii.com%3A1337%2Fannounce&tr="
    ));
    assert!(magnet.ends_with("&tr=udp%3A%2F%2Ftracker.leechers-paradise.org%3A6969"));
    assert_eq!(magnet.matches("&tr=").count(), 8);
    assert_eq!(yts_tracker_list().len(), 8);
    let expected: String = yts_tracker_list().iter().map(|t| format!("&tr={}", urlencoding::encode(t))).collect();
    assert_eq!(hash_to_magnet("ff", "n"), format!("magnet:?xt=urn:btih:FF&dn=n{}", expected));
}

#[test]
fn counts_are_read_from_cells() {
    assert_eq!(parse_count(" 42 "), 42);
    assert_eq!(parse_count("-7"), -7);
    assert_eq!(parse_count("+7"), 7);
    assert_eq!(parse_count("1,234"), 0);
    assert_eq!(parse_count(""), 0);
    assert_eq!(parse_count("n/a"), 0);
    assert_eq!(parse_count("12 34"), 0);
    for s in [
        "", "+", "-", "0", "-0", "+0", "007", "9223372036854775807", "9223372036854775808",
        "-9223372036854775808", "-9223372036854775809", "99999999999999999999999999999999999999999",
        "1_000", "١٢٣", "12a", "a12", "--1", "+-1", " 1", "1 ", "１２",
    ] {
        assert_eq!(parse_i64(s), s.parse::<i64>().ok(), "for {:?}", s);
    }
}

#[test]
fn pages_are_told_apart() {
    assert!(is_challenge_page("<title>Just a moment...</title>"));
    assert!(is_challenge_page("Please Enable JavaScript and cookies"));
    assert!(!is_challenge_page("<table id=\"searchResult\">"));
    assert!(is_tpb_results_page("<table id=\"searchResult\">"));
    assert!(!is_tpb_results_page("<table id=\"searchresult\">"));
    assert!(is_yts_results_page("<div class=\"browse-movie-wrap\">"));
    assert!(!usable_render(RenderedSource::X1337, ""));
    assert!(!usable_render(RenderedSource::Yts, ""));
    assert!(usable_render(RenderedSource::Yts, "x"));
    assert!(usable_render(RenderedSource::X1337, "a magnet:?xt"));
    assert!(usable_render(RenderedSource::X1337, "torrents"));
    assert!(!usable_render(RenderedSource::X1337, "blocked"));
    assert!(usable_render(RenderedSource::BitSearch, "<li class=\"search-result\">"));
    assert!(usable_render(RenderedSource::BitSearch, "discard"));
    assert!(!usable_render(RenderedSource::BitSearch, "magnet:"));
}

#[test]
fn log_entries_are_worded() {
    assert_eq!(ScraperLog::start_line("2024-05-01 10:00:00"), "=== Scraper Log Started 2024-05-01 10:00:00 ===");
    assert_eq!(
        ScraperLog::entry("10:00:01", "tpb", Level::Error, "Scraper failed (returned None)"),
        "[10:00:01] [tpb] ERROR: Scraper failed (returned None)"
    );
    assert_eq!(ScraperLog::entry("10:00:02", "search", Level::Info, "Total: 3"), "[10:00:02] [search] INFO: Total: 3");
}

#[test]
fn the_last_lines_of_the_log_are_shown() {
    let lines = || Some(vec!["a".to_string(), "b".to_string(), "c".to_string()]);
    let log = ScraperLog::new(Some("/cfg/scraper.log".to_string()));
    assert_eq!(get_log_path(&log), Some("/cfg/scraper.log".to_string()));
    assert_eq!(log.recent(lines(), 2), vec!["b", "c"]);
    assert_eq!(log.recent(lines(), 3), vec!["a", "b", "c"]);
    assert_eq!(log.recent(lines(), 9), vec!["a", "b", "c"]);
    assert!(log.recent(lines(), 0).is_empty());
    assert_eq!(log.recent(None, 5), vec!["Could not read log file"]);
    let unset = ScraperLog::new(None);
    assert_eq!(get_log_path(&unset), None);
    assert_eq!(unset.recent(lines(), 2), vec!["Log not initialized"]);
    assert_eq!(unset.recent(None, 2), vec!["Log not initialized"]);
}

#[test]
fn sets_are_toggled() {
    let mut ids = vec![3, 1];
    toggle_id(&mut ids, 2);
    assert_eq!(ids, vec![3, 1, 2]);
    toggle_id(&mut ids, 3);
    assert_eq!(ids, vec![1, 2]);
    assert_eq!(find_id(&ids, 2), Some(1));
    assert_eq!(find_id(&ids, 3), None);
    assert!(ids_distinct(&ids));
    assert!(!ids_distinct(&vec![1, 2, 1]));
    let mut names = vec!["tpb".to_string()];
    toggle_text(&mut names, "yts");
    toggle_text(&mut names, "tpb");
    assert_eq!(names, vec!["yts"]);
    assert_eq!(find_text(&names, "yts"), Some(0));
    assert_eq!(find_text(&names, "tpb"), None);
    assert!(texts_distinct(&names));
    assert!(!texts_distinct(&vec!["a".to_string(), "a".to_string()]));
}

fn result(name: &str, source: &str, seeders: i64) -> TorrentResult {
    TorrentResult {
        name: name.to_string(),
        size: String::new(),
        seeders,
        leechers: 0,
        magnet: String::new(),
        source: source.to_string(),
        url: Some("u".to_string()),
        category: Some("Movies".to_string()),
    }
}

#[test]
fn a_search_without_results_is_no_failure_of_the_task() {
    let enabled = vec!["tpb".to_string()];
    for (on_empty, text) in [
        (EmptyResults::NoneFound, "No results found"),
        (EmptyResults::NoMore, "No more results"),
        (EmptyResults::NoneOnPage, "No results"),
    ] {
        assert_eq!(on_empty.message(), text);
        match finish_search(vec![None, Some(vec![result("a", "yts", 1)])], &enabled, on_empty) {
            AppMessage::SearchError(e) => assert_eq!(e, text),
            other => panic!("unexpected message {:?}", other),
        }
    }
    match finish_search(
        vec![Some(vec![result("a", "tpb", 1), result("b", "tpb", 2)])],
        &enabled,
        EmptyResults::NoneFound,
    ) {
        AppMessage::SearchResults(list) => {
            assert_eq!(list.iter().map(|r| r.name.as_str()).collect::<Vec<_>>(), vec!["b", "a"]);
            assert_eq!(list[0].category, Some("Movies".to_string()));
        }
        other => panic!("unexpected message {:?}", other),
    }
    assert!(matches!(search_message(Vec::new(), EmptyResults::NoMore), AppMessage::SearchError(_)));
}

#[test]
fn task_outcomes_become_messages() {
    assert_eq!(ADDING_MAGNET, "Adding magnet...");
    let files = vec![TorrentFile { id: 1, path: "a".to_string(), bytes: 2, selected: false }];
    match listing_message(Ok(("JOB1".to_string(), files))) {
        AppMessage::TorrentFiles(id, files) => {
            assert_eq!(id, "JOB1");
            assert_eq!(files.len(), 1);
        }
        other => panic!("unexpected message {:?}", other),
    }
    match listing_message(Err(RdError::InvalidMagnet)) {
        AppMessage::TorrentError(e) => assert_eq!(e, "Invalid magnet link"),
        other => panic!("unexpected message {:?}", other),
    }
    let links = vec![DownloadLink { filename: "f".to_string(), url: "u".to_string(), dest_path: "p".to_string() }];
    match links_message(Ok(links)) {
        AppMessage::DownloadLinks(links) => assert_eq!(links[0].dest_path, "p"),
        other => panic!("unexpected message {:?}", other),
    }
    match links_message(Err(RdError::TorrentTimeout)) {
        AppMessage::DownloadError(e) => assert_eq!(e, "Timeout waiting for torrent"),
        other => panic!("unexpected message {:?}", other),
    }
}

#[test]
fn replacing_goes_from_left_to_right() {
    for (s, from, to) in [
        ("a&amp;b&amp;c", "&amp;", "&"),
        ("aaaa", "aa", "b"),
        ("aaa", "aa", "b"),
        ("1,234,567", ",", ""),
        ("abc", "x", "y"),
        ("", "x", "y"),
        ("ababab", "ab", "ab"),
        ("éé", "é", "ee"),
        ("xx", "x", "xx"),
    ] {
        assert_eq!(replace_all(s, from, to), s.replace(from, to), "for {:?}", (s, from, to));
    }
    assert_eq!(replace_all("abc", "", "-"), "abc");
}

#[test]
fn magnets_of_pages_are_decoded() {
    assert_eq!(
        decode_magnet("magnet&#x3A;?xt&#x3D;urn:btih:abc&amp;dn&#x3D;x&amp;amp;"),
        "magnet:?xt=urn:btih:abc&dn=x&amp;"
    );
    assert_eq!(decode_magnet("&amp;#x3D;"), "=");
    assert_eq!(parse_grouped_count(" 1,234 "), 1234);
    assert_eq!(parse_grouped_count("12"), 12);
    assert_eq!(parse_grouped_count(",,"), 0);
    assert_eq!(parse_grouped_count("1 234"), 0);
    assert_eq!(parse_grouped_count("-1,0"), -10);
}

fn movie_link(href: &str, text: &str, title: &str) -> MovieLink {
    MovieLink { href: href.to_string(), text: text.to_string(), title: title.to_string() }
}

const HASH_A: &str = "0123456789abcdefABCDEF0123456789abcdef01";
const HASH_B: &str = "ffffffffffffffffffffffffffffffffffffffff";

#[test]
fn the_hash_is_read_from_the_address() {
    assert_eq!(
        extract_hash_from_url(&format!("https://yts.mx/torrent/download/{}", HASH_A)),
        Some(HASH_A.to_string())
    );
    assert_eq!(
        extract_hash_from_url(&format!("/torrent/download/xyz/torrent/download/{}zz", HASH_B)),
        Some(HASH_B.to_string())
    );
    assert_eq!(extract_hash_from_url(&format!("/torrent/download/{}", &HASH_A[..39])), None);
    assert_eq!(extract_hash_from_url(&format!("/torrent/download/{}g", &HASH_A[..39])), None);
    assert_eq!(extract_hash_from_url(""), None);
    assert_eq!(extract_hash_from_url("/torrent/download/"), None);
    let re = regex::Regex::new(r"/torrent/download/([A-Fa-f0-9]{40})").unwrap();
    for url in [
        format!("/torrent/download/{}{}", HASH_A, HASH_B),
        format!("x/torrent/download//torrent/download/{}", HASH_A),
        format!("/torrent/download/{}", HASH_A.replace('5', "é")),
        format!("/Torrent/download/{}", HASH_A),
    ] {
        let expected = re.captures(&url).and_then(|c| c.get(1)).map(|m| m.as_str().to_string());
        assert_eq!(extract_hash_from_url(&url), expected, "for {}", url);
    }
}

#[test]
fn the_magnet_is_read_from_the_text_of_the_page() {
    let re = regex::Regex::new(r#"(magnet:\?xt=urn:btih:[a-fA-F0-9]{40}[^"<>\s]*)"#).unwrap();
    for html in [
        format!("<a href=\"magnet:?xt=urn:btih:{}&amp;dn=film&amp;tr=udp://t\">x</a>", HASH_A),
        format!("magnet:?xt=urn:btih:{}", HASH_B),
        format!("magnet:?xt=urn:btih:{} magnet:?xt=urn:btih:{}&dn=b", &HASH_A[..30], HASH_B),
        format!("x magnet:?xt=urn:btih:{}&dn=a\u{00a0}b", HASH_A),
        format!("magnet:?xt=urn:btih:{}&dn=a<b", HASH_A),
        format!("magnet:?xt=urn:btih:{}>", HASH_A),
        "no link here".to_string(),
        String::new(),
    ] {
        let expected = re.captures(&html).and_then(|c| c.get(1)).map(|m| m.as_str().replace("&amp;", "&"));
        assert_eq!(magnet_in_text(&html), expected, "for {}", html);
        match extract_magnet(&html) {
            PageMagnet::Found(m) => assert_eq!(Some(m), expected),
            PageMagnet::Absent => assert_eq!(None, expected),
            PageMagnet::Deleted => panic!("the page is not deleted"),
        }
    }
    assert!(matches!(extract_magnet(&format!("Eliminato magnet:?xt=urn:btih:{}", HASH_A)), PageMagnet::Deleted));
    assert!(matches!(extract_magnet("Il torrent NON ESISTE"), PageMagnet::Deleted));
    assert!(matches!(extract_magnet("eliminato"), PageMagnet::Absent));
}

#[test]
fn sizes_of_cells_and_cards() {
    assert_eq!(listed_size("1.5 GB1.5 GB"), "1.5 GB1.5");
    assert_eq!(listed_size(" 700\n MB 700 MB "), "700 MB");
    assert_eq!(listed_size("  1.5GB "), "1.5GB");
    assert_eq!(listed_size(" \t "), "");
    assert_eq!(listed_size(""), "");
    for cell in ["a b c", " a", "a ", "a\u{2003}b", "x"] {
        let parts: Vec<&str> = cell.split_whitespace().collect();
        let expected = if parts.len() >= 2 { format!("{} {}", parts[0], parts[1]) } else { cell.trim().to_string() };
        assert_eq!(listed_size(cell), expected);
    }
    let re = Pattern::new(CARD_SIZE_PATTERN).unwrap();
    assert_eq!(card_size(&re, "Movie 2.4 GB 12 seeders 700 MB"), "2.4 GB");
    assert_eq!(card_size(&re, "Movie 700MiB"), "700MiB");
    assert_eq!(card_size(&re, "no size"), "");
}

#[test]
fn a_movie_page_gives_one_result_for_each_hash() {
    let links = vec![
        movie_link(&format!("/torrent/download/{}", HASH_A), "720p.WEB", "Download 720p"),
        movie_link("/elsewhere", "1080p", ""),
        movie_link(&format!("/torrent/download/{}", HASH_A), "1080p", ""),
        movie_link(&format!("/torrent/download/{}", HASH_B), "Download", "The Matrix 2160p.x265 torrent"),
        movie_link(&format!("/torrent/download/{}", &HASH_B.replace('f', "e")), "Download", "no quality"),
    ];
    let results = parse_movie_page(&links, "Size 1.2 GB and 4 GB", "The Matrix (1999)");
    assert_eq!(results.len(), 2);
    assert_eq!(results[0].name, "The Matrix (1999) [720p.WEB]");
    assert_eq!(results[0].size, "1.2 GB");
    assert_eq!(results[0].source, "yts");
    assert_eq!(results[0].category, Some("Movies".to_string()));
    assert_eq!(results[0].url, None);
    assert_eq!((results[0].seeders, results[0].leechers), (0, 0));
    assert_eq!(results[0].magnet, hash_to_magnet(HASH_A, "The Matrix (1999) [720p.WEB]"));
    assert_eq!(results[1].name, "The Matrix (1999) [2160p.x265]");
    assert_eq!(results[1].size, "4 GB");
    let results = parse_movie_page(&links, "no sizes", "M");
    assert_eq!(results[1].size, "");
    assert!(parse_movie_page(&Vec::new(), "1 GB", "M").is_empty());

    let quality = Pattern::new(QUALITY_PATTERN).unwrap();
    let offers = offers_of(&links, &quality);
    assert_eq!(
        offers,
        vec![("720p.WEB".to_string(), HASH_A.to_string()), ("2160p.x265".to_string(), HASH_B.to_string())]
    );
    let sizes = vec!["9 MB".to_string()];
    let results = movie_results("M", &offers, &sizes);
    assert_eq!(results[0].size, "9 MB");
    assert_eq!(results[1].size, "");
    let size = Pattern::new(MOVIE_SIZE_PATTERN).unwrap();
    assert_eq!(results_of_page(&links, "2 GiB", "M", &quality, &size)[0].size, "2 GiB");
    assert_eq!(movie_title("The Matrix", "1999"), "The Matrix (1999)");
    assert_eq!(movie_title("The Matrix", ""), "The Matrix");
}

#[test]
fn patterns_compile_or_not() {
    assert!(Pattern::new(QUALITY_PATTERN).is_some());
    assert!(Pattern::new(MOVIE_SIZE_PATTERN).is_some());
    assert!(Pattern::new(CARD_SIZE_PATTERN).is_some());
    assert!(Pattern::new("").is_some());
    assert!(Pattern::new("foo(bar").is_none());
    assert!(Pattern::new(r"\w{1000}").is_none());
}

#[test]
fn white_space_is_the_unicode_property() {
    for n in 0..=0x10ffffu32 {
        if let Some(c) = char::from_u32(n) {
            assert_eq!(whitespace(c), c.is_whitespace(), "for U+{:04X}", n);
        }
    }
}
