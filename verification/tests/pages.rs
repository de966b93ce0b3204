use littlejohn::cards::{card_results, pick_title, Card, CardTitle, MagnetEntry};
use littlejohn::pages::{Pattern, CARD_SIZE_PATTERN};
use littlejohn::rows::{detail_result, first_items, listed_count, tpb_result, tpb_results, ListedItem, TpbRow};

fn tpb_row(cells: &[&str], name: Option<&str>, magnet: Option<&str>) -> TpbRow {
    TpbRow {
        cells: cells.iter().map(|c| c.to_string()).collect(),
        name: name.map(String::from),
        magnet: magnet.map(String::from),
    }
}

#[test]
fn a_table_row_gives_a_result() {
    let row = tpb_row(
        &["Video", " The Matrix ", "", "", " 1.4 GiB ", " 120 ", "7\n", "extra"],
        Some("\n The Matrix (1999) "),
        Some("magnet:?xt=urn:btih:abc"),
    );
    let r = tpb_result(row).unwrap();
    assert_eq!(r.name, "The Matrix (1999)");
    assert_eq!(r.size, "1.4 GiB");
    assert_eq!((r.seeders, r.leechers), (120, 7));
    assert_eq!(r.magnet, "magnet:?xt=urn:btih:abc");
    assert_eq!(r.source, "tpb");
    assert_eq!((r.url, r.category), (None, None));
}

#[test]
fn short_rows_lack_cells_without_harm() {
    let r = tpb_result(tpb_row(&["a", "b", "c", "d"], Some("n"), Some("magnet:?x"))).unwrap();
    assert_eq!(r.size, "");
    assert_eq!((r.seeders, r.leechers), (0, 0));
    let r = tpb_result(tpb_row(&["a", "b", "c", "d", "1 GB", "x"], Some("n"), Some("magnet:?x"))).unwrap();
    assert_eq!(r.size, "1 GB");
    assert_eq!((r.seeders, r.leechers), (0, 0));
}

#[test]
fn rows_without_cells_name_or_magnet_give_nothing() {
    assert!(tpb_result(tpb_row(&["a", "b", "c"], Some("n"), Some("magnet:?x"))).is_none());
    assert!(tpb_result(tpb_row(&["a", "b", "c", "d"], None, Some("magnet:?x"))).is_none());
    assert!(tpb_result(tpb_row(&["a", "b", "c", "d"], Some("  "), Some("magnet:?x"))).is_none());
    assert!(tpb_result(tpb_row(&["a", "b", "c", "d"], Some("n"), None)).is_none());
    assert!(tpb_result(tpb_row(&["a", "b", "c", "d"], Some("n"), Some(""))).is_none());
    let results = tpb_results(vec![
        tpb_row(&["a", "b", "c"], Some("short"), Some("magnet:?1")),
        tpb_row(&["a", "b", "c", "d", "", "5"], Some("first"), Some("magnet:?2")),
        tpb_row(&["a", "b", "c", "d"], None, Some("magnet:?3")),
        tpb_row(&["a", "b", "c", "d", "", "9"], Some("second"), Some("magnet:?4")),
    ]);
    let names: Vec<&str> = results.iter().map(|r| r.name.as_str()).collect();
    assert_eq!(names, vec!["first", "second"]);
    assert_eq!(results[1].seeders, 9);
    assert!(tpb_results(Vec::new()).is_empty());
}

fn item(name: &str) -> ListedItem {
    ListedItem {
        name: name.to_string(),
        detail_url: format!("https://site/{}", name),
        seeders: 3,
        leechers: 1,
        size: "1 GB".to_string(),
    }
}

#[test]
fn entries_with_a_detail_page() {
    let kept = first_items(vec![item("a"), item("b"), item("c")], 2);
    assert_eq!(kept.iter().map(|i| i.name.as_str()).collect::<Vec<_>>(), vec!["a", "b"]);
    assert_eq!(first_items(vec![item("a")], 8).len(), 1);
    assert_eq!(first_items(vec![item("a")], 0).len(), 0);
    let r = detail_result(item("a"), Some("magnet:?x".to_string()), "1337x").unwrap();
    assert_eq!(r.name, "a");
    assert_eq!(r.size, "1 GB");
    assert_eq!((r.seeders, r.leechers), (3, 1));
    assert_eq!(r.magnet, "magnet:?x");
    assert_eq!(r.source, "1337x");
    assert_eq!(r.url, Some("https://site/a".to_string()));
    assert_eq!(r.category, None);
    assert!(detail_result(item("a"), None, "1337x").is_none());
    assert!(detail_result(item("a"), Some(String::new()), "1337x").is_none());
    assert_eq!(listed_count("42"), 42);
    assert_eq!(listed_count(" 42"), 0);
    assert_eq!(listed_count(""), 0);
}

fn title(href: &str, text: &str) -> CardTitle {
    CardTitle { href: href.to_string(), text: text.to_string() }
}

fn card(titles: Vec<CardTitle>, text: &str, seeders: Option<&str>, leechers: Option<&str>) -> Card {
    Card { titles, text: text.to_string(), seeders: seeders.map(String::from), leechers: leechers.map(String::from) }
}

#[test]
fn the_title_of_a_card_is_the_first_candidate_with_a_name() {
    assert_eq!(pick_title(&Vec::new()), (String::new(), String::new()));
    assert_eq!(
        pick_title(&vec![title("/torrent/1/a", " The Matrix "), title("/torrent/2/b", "Other")]),
        ("The Matrix".to_string(), "https://bitsearch.to/torrent/1/a".to_string())
    );
    assert_eq!(
        pick_title(&vec![title("magnet:?x", "Magnet"), title("https://x/torrent/2", "Name")]),
        ("Name".to_string(), "https://x/torrent/2".to_string())
    );
    assert_eq!(
        pick_title(&vec![title("/torrent/1", "  "), title("/other", "Name")]),
        ("Name".to_string(), "https://bitsearch.to/torrent/1".to_string())
    );
    assert_eq!(
        pick_title(&vec![title("/torrent/1", ""), title("magnet:?x", "Magnet")]),
        (String::new(), "https://bitsearch.to/torrent/1".to_string())
    );
    assert_eq!(pick_title(&vec![title("", "Name")]), ("Name".to_string(), String::new()));
}

#[test]
fn cards_give_results_once_for_each_magnet() {
    let size = Pattern::new(CARD_SIZE_PATTERN).unwrap();
    let entries = vec![
        MagnetEntry { href: String::new(), card: Some(card(vec![title("/torrent/0", "Empty")], "", None, None)) },
        MagnetEntry {
            href: "magnet:?xt&#x3D;urn:btih:A&amp;dn&#x3D;a".to_string(),
            card: Some(card(
                vec![title("/torrent/1/a", "First")],
                "First 1.4 GB seeders 1,234",
                Some(" 1,234 "),
                Some("56"),
            )),
        },
        MagnetEntry { href: "magnet:?xt=urn:btih:B".to_string(), card: None },
        MagnetEntry {
            href: "magnet:?xt=urn:btih:A&dn=a".to_string(),
            card: Some(card(vec![title("/torrent/1/a", "Again")], "", None, None)),
        },
        MagnetEntry {
            href: "magnet:?xt=urn:btih:B".to_string(),
            card: Some(card(vec![title("/torrent/2/b", "Blocked")], "", None, None)),
        },
        MagnetEntry {
            href: "magnet:?xt=urn:btih:C".to_string(),
            card: Some(card(vec![title("magnet:?xt=urn:btih:C", "Magnet")], "", None, None)),
        },
        MagnetEntry {
            href: "magnet:?xt=urn:btih:D".to_string(),
            card: Some(card(vec![title("/elsewhere", "Last")], "no size", Some("n/a"), None)),
        },
    ];
    let results = card_results(entries, &size);
    assert_eq!(results.len(), 2);
    assert_eq!(results[0].name, "First");
    assert_eq!(results[0].magnet, "magnet:?xt=urn:btih:A&dn=a");
    assert_eq!(results[0].size, "1.4 GB");
    assert_eq!((results[0].seeders, results[0].leechers), (1234, 56));
    assert_eq!(results[0].source, "bitsearch");
    assert_eq!(results[0].url, Some("https://bitsearch.to/torrent/1/a".to_string()));
    assert_eq!(results[0].category, None);
    assert_eq!(results[1].name, "Last");
    assert_eq!(results[1].size, "");
    assert_eq!((results[1].seeders, results[1].leechers), (0, 0));
    assert_eq!(results[1].url, None);
    assert!(card_results(Vec::new(), &size).is_empty());
}
