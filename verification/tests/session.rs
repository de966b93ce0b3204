use littlejohn::download::{Download, DownloadStatus};
use littlejohn::realdebrid::TorrentFile;
use littlejohn::results::TorrentResult;
use littlejohn::editing::{edit_line, page_down, page_up, step_down, step_up};
use littlejohn::session::{
    all_scrapers, scraper_name, App, AppMessage, AppMode, Command, DownloadLink, EmptyResults, Key,
    SettingsField,
};
use littlejohn::settings::usable_token;

fn app() -> App {
    App::new("SECRET".to_string(), String::new(), "/tmp/dl".to_string())
}

fn result(name: &str, magnet: &str) -> TorrentResult {
    TorrentResult {
        name: name.to_string(),
        size: "1 GB".to_string(),
        seeders: 1,
        leechers: 0,
        magnet: magnet.to_string(),
        source: "tpb".to_string(),
        url: None,
        category: None,
    }
}

fn results(n: usize) -> Vec<TorrentResult> {
    (0..n).map(|i| result(&format!("r{}", i), &format!("magnet:?xt={}", i))).collect()
}

fn type_text(app: &mut App, text: &str) {
    for c in text.chars() {
        let cmd = app.handle_key_event(Key::Char(c), false);
        assert!(matches!(cmd, Command::Nothing));
    }
}

fn link(name: &str) -> DownloadLink {
    DownloadLink {
        filename: name.to_string(),
        url: format!("https://cdn.example/{}", name),
        dest_path: format!("/tmp/dl/{}", name),
    }
}

fn statuses(app: &App) -> Vec<String> {
    app.downloads.iter().map(|d| format!("{:?}", d.status)).collect()
}

#[test]
fn a_new_session_starts_on_the_search_screen() {
    let app = app();
    assert!(matches!(app.mode, AppMode::Search));
    assert!(app.is_well_formed());
    assert!(app.rd_configured);
    assert_eq!(app.page, 1);
    assert_eq!(app.enabled_sources, vec!["1337x", "tpb", "bitsearch", "yts", "ilcorsaronero"]);
    assert_eq!(app.settings_rd_token, "SECRET");
    assert_eq!(app.settings_download_dir, "/tmp/dl");
    assert_eq!(app.settings_field, SettingsField::RdApiToken);
    assert_eq!(app.visible_height(), 20);
    assert!(!app.should_quit);
    assert!(!App::new(String::new(), String::new(), String::new()).rd_configured);
    assert!(!App::new("your_api_token_here".to_string(), String::new(), String::new()).rd_configured);
}

#[test]
fn tokens_that_can_be_used() {
    assert!(usable_token("abc"));
    assert!(!usable_token(""));
    assert!(!usable_token("your_api_token_here"));
    assert!(usable_token("your_api_token_here "));
}

#[test]
fn typing_edits_the_query_at_the_cursor() {
    let mut app = app();
    type_text(&mut app, "matrix");
    assert_eq!(app.search_input, "matrix");
    assert_eq!(app.cursor_pos, 6);
    app.handle_key_event(Key::Left, false);
    app.handle_key_event(Key::Left, false);
    app.handle_key_event(Key::Char('é'), false);
    assert_eq!(app.search_input, "matréix");
    assert_eq!(app.cursor_pos, 5);
    app.handle_key_event(Key::Backspace, false);
    assert_eq!(app.search_input, "matrix");
    app.handle_key_event(Key::Delete, false);
    assert_eq!(app.search_input, "matrx");
    app.handle_key_event(Key::Home, false);
    assert_eq!(app.cursor_pos, 0);
    app.handle_key_event(Key::Backspace, false);
    app.handle_key_event(Key::Left, false);
    assert_eq!((app.search_input.as_str(), app.cursor_pos), ("matrx", 0));
    app.handle_key_event(Key::End, false);
    assert_eq!(app.cursor_pos, 5);
    app.handle_key_event(Key::Delete, false);
    app.handle_key_event(Key::Right, false);
    assert_eq!((app.search_input.as_str(), app.cursor_pos), ("matrx", 5));
    app.handle_key_event(Key::Tab, false);
    assert_eq!((app.search_input.as_str(), app.cursor_pos), ("matrx", 5));
    assert!(app.is_well_formed());
}

#[test]
fn edit_line_applies_one_key() {
    let mut text = "ab".to_string();
    assert_eq!(edit_line(&mut text, 1, Key::Char('x')), 2);
    assert_eq!(text, "axb");
    assert_eq!(edit_line(&mut text, 0, Key::Backspace), 0);
    assert_eq!(edit_line(&mut text, 3, Key::Backspace), 2);
    assert_eq!(text, "ax");
    assert_eq!(edit_line(&mut text, 0, Key::Delete), 0);
    assert_eq!(text, "x");
    assert_eq!(edit_line(&mut text, 1, Key::Enter), 1);
    assert_eq!(text, "x");
}

#[test]
fn enter_starts_a_search_for_the_first_page() {
    let mut app = app();
    type_text(&mut app, "matrix 1999");
    app.page = 4;
    let cmd = app.handle_key_event(Key::Enter, false);
    match cmd {
        Command::Search { query, page, enabled_sources, on_empty } => {
            assert_eq!(query, "matrix 1999");
            assert_eq!(page, 1);
            assert_eq!(enabled_sources.len(), 5);
            assert_eq!(on_empty, EmptyResults::NoneFound);
        }
        other => panic!("unexpected command {:?}", other),
    }
    assert!(matches!(app.mode, AppMode::Processing));
    assert_eq!(app.page, 1);
    assert_eq!(app.status, "Searching for 'matrix 1999'...");
    assert_eq!(app.processing_status, "Searching 5 sites...");
}

#[test]
fn a_query_of_one_character_is_refused() {
    let mut app = app();
    type_text(&mut app, "m");
    let cmd = app.handle_key_event(Key::Enter, false);
    assert!(matches!(cmd, Command::Nothing));
    assert!(matches!(app.mode, AppMode::Search));
    assert_eq!(app.status, "Query must be at least 2 characters");
    let mut app = self::app();
    let cmd = app.handle_key_event(Key::Enter, false);
    assert!(matches!(cmd, Command::Nothing));
    assert_eq!(app.status, "Query must be at least 2 characters");
}

#[test]
fn a_pasted_magnet_is_submitted() {
    let mut app = app();
    type_text(&mut app, "magnet:?xt=urn:btih:abc");
    let cmd = app.handle_key_event(Key::Enter, false);
    assert!(matches!(cmd, Command::ResolveMagnet { ref magnet } if magnet == "magnet:?xt=urn:btih:abc"));
    assert!(matches!(app.mode, AppMode::Processing));
    assert_eq!(app.processing_status, "Adding magnet to Real-Debrid...");

    let mut app = App::new(String::new(), String::new(), String::new());
    type_text(&mut app, "magnet:?xt=urn:btih:abc");
    let cmd = app.handle_key_event(Key::Enter, false);
    assert!(matches!(cmd, Command::Nothing));
    assert!(matches!(app.mode, AppMode::Search));
    assert_eq!(app.status, "Real-Debrid not configured");
}

#[test]
fn shortcuts_work_only_on_an_empty_query() {
    let mut app = app();
    app.handle_key_event(Key::Char('s'), false);
    assert!(matches!(app.mode, AppMode::SourceSelect));
    let mut app = self::app();
    app.handle_key_event(Key::Char('d'), false);
    assert!(matches!(app.mode, AppMode::Downloads));
    let mut app = self::app();
    app.handle_key_event(Key::Char('S'), false);
    assert!(matches!(app.mode, AppMode::Settings));
    assert_eq!(app.settings_cursor, 6);
    let mut app = self::app();
    type_text(&mut app, "xsSd");
    assert!(matches!(app.mode, AppMode::Search));
    assert_eq!(app.search_input, "xsSd");
}

#[test]
fn escape_on_the_search_screen_and_ctrl_c_everywhere_quit() {
    let mut app = app();
    app.handle_key_event(Key::Esc, false);
    assert!(app.should_quit);
    for mode in [AppMode::Setup, AppMode::Results, AppMode::Processing, AppMode::Error("e".to_string())] {
        let mut app = self::app();
        app.mode = mode;
        let cmd = app.handle_key_event(Key::Char('c'), true);
        assert!(matches!(cmd, Command::Nothing));
        assert!(app.should_quit);
    }
}

#[test]
fn search_results_open_the_results_screen() {
    let mut app = app();
    app.selected_index = 7;
    app.scroll_offset = 3;
    app.handle_message(AppMessage::SearchResults(results(3)));
    assert!(matches!(app.mode, AppMode::Results));
    assert_eq!(app.results.len(), 3);
    assert_eq!((app.selected_index, app.scroll_offset), (0, 0));
    assert_eq!(app.status, "3 results found");
}

#[test]
fn errors_open_the_error_screen_and_any_key_leaves_it() {
    for (msg, status) in [
        (AppMessage::SearchError("No results found".to_string()), "Search error: No results found"),
        (AppMessage::TorrentError("Invalid magnet link".to_string()), "Torrent error: Invalid magnet link"),
        (AppMessage::DownloadError("Timeout waiting for torrent".to_string()), "Download error: Timeout waiting for torrent"),
    ] {
        let mut app = app();
        app.handle_message(msg);
        assert!(matches!(app.mode, AppMode::Error(_)));
        assert_eq!(app.status, status);
        let cmd = app.handle_key_event(Key::Char('x'), false);
        assert!(matches!(cmd, Command::Nothing));
        assert!(matches!(app.mode, AppMode::Search));
        assert_eq!(app.status, "");
    }
    let mut app = app();
    app.handle_message(AppMessage::SearchError("boom".to_string()));
    match &app.mode {
        AppMode::Error(e) => assert_eq!(e, "boom"),
        other => panic!("unexpected mode {:?}", other),
    }
}

#[test]
fn moving_through_the_results_scrolls_the_list() {
    let mut app = app();
    app.handle_message(AppMessage::SearchResults(results(50)));
    for _ in 0..19 {
        app.handle_key_event(Key::Down, false);
    }
    assert_eq!((app.selected_index, app.scroll_offset), (19, 0));
    app.handle_key_event(Key::Char('j'), false);
    assert_eq!((app.selected_index, app.scroll_offset), (20, 1));
    app.handle_key_event(Key::PageDown, false);
    assert_eq!((app.selected_index, app.scroll_offset), (40, 21));
    app.handle_key_event(Key::PageDown, false);
    assert_eq!((app.selected_index, app.scroll_offset), (49, 30));
    app.handle_key_event(Key::Down, false);
    assert_eq!((app.selected_index, app.scroll_offset), (49, 30));
    app.handle_key_event(Key::PageUp, false);
    assert_eq!((app.selected_index, app.scroll_offset), (29, 10));
    app.handle_key_event(Key::Home, false);
    assert_eq!((app.selected_index, app.scroll_offset), (0, 0));
    app.handle_key_event(Key::Up, false);
    assert_eq!((app.selected_index, app.scroll_offset), (0, 0));
    app.handle_key_event(Key::End, false);
    assert_eq!((app.selected_index, app.scroll_offset), (49, 30));
    app.scroll_offset = 49;
    app.handle_key_event(Key::Char('k'), false);
    assert_eq!((app.selected_index, app.scroll_offset), (48, 48));
}

#[test]
fn list_steps() {
    assert_eq!(step_up(0, 0), (0, 0));
    assert_eq!(step_up(5, 5), (4, 4));
    assert_eq!(step_up(5, 2), (4, 2));
    assert_eq!(step_down(0, 0, 0), (0, 0));
    assert_eq!(step_down(0, 0, 1), (0, 0));
    assert_eq!(step_down(19, 0, 30), (20, 1));
    assert_eq!(step_down(3, usize::MAX, 30), (4, usize::MAX));
    assert_eq!(page_up(25, 7), (5, 0));
    assert_eq!(page_down(0, 0, 0), (0, 0));
    assert_eq!(page_down(usize::MAX, 0, 10), (9, 0));
    assert_eq!(page_down(5, 0, 100), (25, 6));
}

#[test]
fn enter_on_a_result_submits_its_magnet() {
    let mut app = app();
    app.handle_message(AppMessage::SearchResults(vec![result("a", "magnet:?a"), result("b", "")]));
    let cmd = app.handle_key_event(Key::Enter, false);
    assert!(matches!(cmd, Command::ResolveMagnet { ref magnet } if magnet == "magnet:?a"));
    assert!(matches!(app.mode, AppMode::Processing));
    app.mode = AppMode::Results;
    app.handle_key_event(Key::Down, false);
    let cmd = app.handle_key_event(Key::Enter, false);
    assert!(matches!(cmd, Command::Nothing));
    assert_eq!(app.status, "No magnet link available");
    app.rd_configured = false;
    app.handle_key_event(Key::Up, false);
    let cmd = app.handle_key_event(Key::Enter, false);
    assert!(matches!(cmd, Command::Nothing));
    assert_eq!(app.status, "Real-Debrid not configured");
    let mut app = self::app();
    app.mode = AppMode::Results;
    let cmd = app.handle_key_event(Key::Enter, false);
    assert!(matches!(cmd, Command::Nothing));
    assert_eq!(app.status, "");
}

#[test]
fn paging_through_the_results() {
    let mut app = app();
    type_text(&mut app, "matrix");
    app.handle_message(AppMessage::SearchResults(results(2)));
    let cmd = app.handle_key_event(Key::Char('p'), false);
    assert!(matches!(cmd, Command::Nothing));
    assert_eq!(app.page, 1);
    let cmd = app.handle_key_event(Key::Char('n'), false);
    match cmd {
        Command::Search { query, page, on_empty, .. } => {
            assert_eq!((query.as_str(), page, on_empty), ("matrix", 2, EmptyResults::NoMore));
        }
        other => panic!("unexpected command {:?}", other),
    }
    assert_eq!(app.page, 2);
    assert_eq!(app.status, "Loading page 2...");
    assert_eq!(app.processing_status, "Searching...");
    assert!(matches!(app.mode, AppMode::Processing));
    app.mode = AppMode::Results;
    let cmd = app.handle_key_event(Key::Char('p'), false);
    match cmd {
        Command::Search { page, on_empty, .. } => {
            assert_eq!((page, on_empty), (1, EmptyResults::NoneOnPage));
        }
        other => panic!("unexpected command {:?}", other),
    }
    assert_eq!(app.status, "Loading page 1...");
    app.mode = AppMode::Results;
    app.page = u32::MAX;
    let cmd = app.handle_key_event(Key::Char('n'), false);
    assert!(matches!(cmd, Command::Nothing));
    assert_eq!(app.page, u32::MAX);
}

#[test]
fn the_results_screen_leads_to_the_other_screens() {
    for (key, mode) in [
        (Key::Char('s'), AppMode::SourceSelect),
        (Key::Char('d'), AppMode::Downloads),
        (Key::Char('/'), AppMode::Search),
        (Key::Esc, AppMode::Search),
    ] {
        let mut app = app();
        app.mode = AppMode::Results;
        app.handle_key_event(key, false);
        assert_eq!(format!("{:?}", app.mode), format!("{:?}", mode));
        assert!(!app.should_quit);
    }
    let mut app = app();
    app.mode = AppMode::Results;
    app.handle_key_event(Key::Char('q'), false);
    assert!(app.should_quit);
    app.should_quit = false;
    app.mode = AppMode::Processing;
    app.handle_key_event(Key::Char('q'), false);
    assert!(matches!(app.mode, AppMode::Processing));
    app.handle_key_event(Key::Esc, false);
    assert!(matches!(app.mode, AppMode::Results));
}

fn file(id: u32, path: &str, bytes: u64) -> TorrentFile {
    TorrentFile { id, path: path.to_string(), bytes, selected: false }
}

#[test]
fn a_listing_opens_the_file_selection() {
    let mut app = app();
    app.handle_message(AppMessage::TorrentFiles(
        "JOB1".to_string(),
        vec![file(1, "/d/movie.mkv", 700), file(2, "/d/readme.txt", 1), file(3, "/d/extra.mp4", 9)],
    ));
    assert!(matches!(app.mode, AppMode::FileSelect));
    assert_eq!(app.torrent_id, Some("JOB1".to_string()));
    assert_eq!(app.files.iter().map(|f| f.id).collect::<Vec<_>>(), vec![1, 3]);
    assert!(app.selected_files.is_empty());
    assert_eq!(app.status, "2 files in torrent");

    app.handle_message(AppMessage::TorrentFiles("JOB2".to_string(), vec![file(9, "/d/readme.txt", 1)]));
    assert_eq!(app.selected_files, vec![9]);
    assert_eq!(app.status, "1 files in torrent");
    assert!(app.is_well_formed());
}

#[test]
fn files_are_toggled_and_confirmed() {
    let mut app = app();
    app.handle_message(AppMessage::TorrentFiles(
        "JOB1".to_string(),
        vec![file(4, "a.mkv", 1), file(5, "b.mkv", 1), file(6, "c.mkv", 1)],
    ));
    let cmd = app.handle_key_event(Key::Enter, false);
    assert!(matches!(cmd, Command::Nothing));
    assert_eq!(app.status, "No files selected");
    app.handle_key_event(Key::Char(' '), false);
    app.handle_key_event(Key::Down, false);
    app.handle_key_event(Key::Down, false);
    app.handle_key_event(Key::Char(' '), false);
    assert_eq!(app.selected_files, vec![4, 6]);
    app.handle_key_event(Key::Char(' '), false);
    assert_eq!(app.selected_files, vec![4]);
    app.handle_key_event(Key::Char('a'), false);
    assert_eq!(app.selected_files, vec![4, 5, 6]);
    app.handle_key_event(Key::Char('a'), false);
    assert!(app.selected_files.is_empty());
    app.handle_key_event(Key::Char('a'), false);
    app.handle_key_event(Key::Up, false);
    app.handle_key_event(Key::Char(' '), false);
    assert_eq!(app.selected_files, vec![4, 6]);
    let cmd = app.handle_key_event(Key::Enter, false);
    match cmd {
        Command::ResolveFiles { torrent_id, file_ids } => {
            assert_eq!(torrent_id, "JOB1");
            assert_eq!(file_ids, vec![4, 6]);
        }
        other => panic!("unexpected command {:?}", other),
    }
    assert!(matches!(app.mode, AppMode::Processing));
    assert_eq!(app.processing_status, "Getting download links...");
}

#[test]
fn leaving_the_file_selection_deletes_the_remote_job() {
    let mut app = app();
    app.handle_message(AppMessage::TorrentFiles("JOB1".to_string(), vec![file(4, "a.mkv", 1)]));
    let cmd = app.handle_key_event(Key::Esc, false);
    assert!(matches!(cmd, Command::DeleteTorrent { ref torrent_id } if torrent_id == "JOB1"));
    assert!(matches!(app.mode, AppMode::Results));
    assert_eq!(app.torrent_id, None);
    assert!(app.files.is_empty());
    assert!(app.selected_files.is_empty());
    app.mode = AppMode::FileSelect;
    let cmd = app.handle_key_event(Key::Char('q'), false);
    assert!(matches!(cmd, Command::Nothing));
    assert!(matches!(app.mode, AppMode::Results));
}

#[test]
fn sources_are_toggled_and_confirmed() {
    let mut app = app();
    app.handle_key_event(Key::Char('s'), false);
    app.handle_key_event(Key::Char(' '), false);
    assert_eq!(app.enabled_sources, vec!["tpb", "bitsearch", "yts", "ilcorsaronero"]);
    for _ in 0..9 {
        app.handle_key_event(Key::Down, false);
    }
    assert_eq!(app.source_cursor, 4);
    app.handle_key_event(Key::Char(' '), false);
    app.handle_key_event(Key::Char('k'), false);
    app.handle_key_event(Key::Char(' '), false);
    assert_eq!(app.enabled_sources, vec!["tpb", "bitsearch"]);
    app.handle_key_event(Key::Char(' '), false);
    assert_eq!(app.enabled_sources, vec!["tpb", "bitsearch", "yts"]);
    app.handle_key_event(Key::Enter, false);
    assert!(matches!(app.mode, AppMode::Search));
    assert_eq!(app.status, "3 sources enabled");
    app.mode = AppMode::SourceSelect;
    app.handle_key_event(Key::Char('n'), false);
    assert!(app.enabled_sources.is_empty());
    app.handle_key_event(Key::Enter, false);
    assert!(matches!(app.mode, AppMode::SourceSelect));
    assert_eq!(app.status, "At least one source must be enabled");
    app.handle_key_event(Key::Char('a'), false);
    assert_eq!(app.enabled_sources, all_scrapers());
    app.handle_key_event(Key::Char('q'), false);
    assert!(matches!(app.mode, AppMode::Search));
    assert!(app.is_well_formed());
    assert_eq!(scraper_name(2), "bitsearch");
}

#[test]
fn links_are_queued_as_pending_downloads() {
    let mut app = app();
    app.handle_message(AppMessage::DownloadLinks(vec![link("a.mkv"), link("b.mkv")]));
    assert!(matches!(app.mode, AppMode::Results));
    assert_eq!(app.status, "2 download(s) queued! Press 'd' to view");
    assert_eq!(app.downloads.len(), 2);
    let d = &app.downloads[1];
    assert_eq!(d.filename, "b.mkv");
    assert_eq!(d.url, "https://cdn.example/b.mkv");
    assert_eq!(d.dest_path, "/tmp/dl/b.mkv");
    assert!(matches!(d.status, DownloadStatus::Pending));
    assert_eq!((d.total_bytes, d.downloaded_bytes, d.speed), (0, 0, 0));
    app.handle_message(AppMessage::DownloadLinks(vec![link("a.mkv")]));
    assert_eq!(app.downloads.len(), 3);
    assert_eq!(app.status, "3 download(s) queued! Press 'd' to view");
}

#[test]
fn downloads_are_started_and_cancelled() {
    let mut app = app();
    app.handle_message(AppMessage::DownloadLinks(vec![link("a"), link("b"), link("c"), link("d")]));
    app.mode = AppMode::Downloads;
    app.handle_key_event(Key::Down, false);
    let cmd = app.handle_key_event(Key::Char('s'), false);
    match cmd {
        Command::StartDownloads { jobs } => {
            assert_eq!(jobs.len(), 1);
            assert_eq!(jobs[0].id, 1);
            assert_eq!(jobs[0].url, "https://cdn.example/b");
            assert_eq!(jobs[0].dest_path, "/tmp/dl/b");
        }
        other => panic!("unexpected command {:?}", other),
    }
    assert_eq!(statuses(&app), vec!["Pending", "Downloading", "Pending", "Pending"]);
    let cmd = app.handle_key_event(Key::Char('s'), false);
    assert!(matches!(cmd, Command::Nothing));
    app.handle_key_event(Key::Down, false);
    app.handle_key_event(Key::Char('c'), false);
    assert_eq!(statuses(&app), vec!["Pending", "Downloading", "Cancelled", "Pending"]);
    let cmd = app.handle_key_event(Key::Char('S'), false);
    match cmd {
        Command::StartDownloads { jobs } => {
            assert_eq!(jobs.iter().map(|j| j.id).collect::<Vec<_>>(), vec![0, 3]);
            assert_eq!(jobs[1].url, "https://cdn.example/d");
        }
        other => panic!("unexpected command {:?}", other),
    }
    assert_eq!(statuses(&app), vec!["Downloading", "Downloading", "Cancelled", "Downloading"]);
    app.handle_message(AppMessage::DownloadComplete(0));
    app.handle_key_event(Key::Char('C'), false);
    assert_eq!(statuses(&app), vec!["Completed", "Cancelled", "Cancelled", "Cancelled"]);
    app.handle_message(AppMessage::DownloadLinks(vec![link("e")]));
    app.mode = AppMode::Downloads;
    app.download_cursor = 4;
    app.handle_key_event(Key::Char('x'), false);
    assert_eq!(statuses(&app), vec!["Pending"]);
    assert_eq!(app.downloads[0].filename, "e");
    assert_eq!(app.download_cursor, 0);
    app.handle_key_event(Key::Char('q'), false);
    assert!(matches!(app.mode, AppMode::Search));
    app.results = results(1);
    app.mode = AppMode::Downloads;
    app.handle_key_event(Key::Esc, false);
    assert!(matches!(app.mode, AppMode::Results));
}

#[test]
fn progress_updates_one_download() {
    let mut app = app();
    app.handle_message(AppMessage::DownloadLinks(vec![link("a"), link("b")]));
    app.handle_message(AppMessage::DownloadProgress { id: 1, downloaded: 10, total: 0, speed: 99 });
    let d: &Download = &app.downloads[1];
    assert_eq!((d.downloaded_bytes, d.total_bytes, d.speed), (10, 0, 99));
    assert!(matches!(d.status, DownloadStatus::Downloading));
    assert!(matches!(app.downloads[0].status, DownloadStatus::Pending));
    app.handle_message(AppMessage::DownloadProgress { id: 7, downloaded: 10, total: 0, speed: 99 });
    assert_eq!(app.downloads.len(), 2);
    app.handle_message(AppMessage::DownloadFailed(0, "disk full".to_string()));
    match &app.downloads[0].status {
        DownloadStatus::Failed(why) => assert_eq!(why, "disk full"),
        other => panic!("unexpected status {:?}", other),
    }
    app.handle_message(AppMessage::DownloadComplete(1));
    assert!(matches!(app.downloads[1].status, DownloadStatus::Completed));
    assert_eq!(app.downloads[1].downloaded_bytes, 10);
}

#[test]
fn a_finished_download_stays_as_it_is() {
    let mut app = app();
    app.handle_message(AppMessage::DownloadLinks(vec![link("a"), link("b"), link("c")]));
    app.handle_message(AppMessage::DownloadProgress { id: 0, downloaded: 5, total: 9, speed: 1 });
    app.handle_message(AppMessage::DownloadComplete(0));
    app.handle_message(AppMessage::DownloadFailed(1, "gone".to_string()));
    app.mode = AppMode::Downloads;
    app.download_cursor = 2;
    app.handle_key_event(Key::Char('c'), false);
    let before = statuses(&app);
    assert_eq!(before, vec!["Completed", "Failed(\"gone\")", "Cancelled"]);
    for id in 0..3u64 {
        app.handle_message(AppMessage::DownloadProgress { id, downloaded: 99, total: 99, speed: 9 });
        app.handle_message(AppMessage::DownloadComplete(id));
        app.handle_message(AppMessage::DownloadFailed(id, "late".to_string()));
    }
    app.handle_key_event(Key::Char('S'), false);
    app.handle_key_event(Key::Char('C'), false);
    app.download_cursor = 0;
    app.handle_key_event(Key::Char('s'), false);
    app.handle_key_event(Key::Char('c'), false);
    assert_eq!(statuses(&app), before);
    assert_eq!(app.downloads[0].downloaded_bytes, 5);
    assert_eq!(app.downloads[2].downloaded_bytes, 0);
}

#[test]
fn a_status_update_changes_the_processing_line_only() {
    let mut app = app();
    app.mode = AppMode::Processing;
    app.handle_message(AppMessage::StatusUpdate("Adding magnet...".to_string()));
    assert_eq!(app.processing_status, "Adding magnet...");
    assert!(matches!(app.mode, AppMode::Processing));
    assert_eq!(app.status, "");
}

#[test]
fn the_setup_walks_through_the_fields() {
    let mut app = App::new(String::new(), "fc".to_string(), "/dl".to_string());
    app.mode = AppMode::Setup;
    let cmd = app.handle_key_event(Key::Enter, false);
    assert!(matches!(cmd, Command::Nothing));
    assert_eq!(app.status, "RD API Token is required");
    type_text(&mut app, "tok");
    assert_eq!(app.settings_rd_token, "tok");
    assert_eq!(app.current_settings_input(), "tok");
    app.handle_key_event(Key::Tab, false);
    assert_eq!(app.settings_field, SettingsField::FirecrawlApiKey);
    assert_eq!(app.settings_cursor, 2);
    app.handle_key_event(Key::Backspace, false);
    assert_eq!(app.settings_firecrawl_key, "f");
    app.handle_key_event(Key::Down, false);
    assert_eq!(app.settings_field, SettingsField::DownloadDir);
    assert_eq!(app.settings_cursor, 3);
    app.handle_key_event(Key::Down, false);
    assert_eq!(app.settings_field, SettingsField::RdApiToken);
    app.handle_key_event(Key::BackTab, false);
    assert_eq!(app.settings_field, SettingsField::DownloadDir);
    app.handle_key_event(Key::Up, false);
    assert_eq!(app.settings_field, SettingsField::FirecrawlApiKey);
    app.handle_key_event(Key::Home, false);
    app.handle_key_event(Key::Char('x'), false);
    assert_eq!(app.settings_firecrawl_key, "xf");
    assert_eq!(app.settings_rd_token, "tok");
    assert_eq!(app.settings_download_dir, "/dl");
    let cmd = app.handle_key_event(Key::Enter, false);
    match cmd {
        Command::SaveSettings { content } => {
            assert_eq!(
                content,
                "# littlejohn configuration\n\nRD_API_TOKEN=tok\nFIRECRAWL_API_KEY=xf\nDOWNLOAD_DIR=/dl\n"
            );
        }
        other => panic!("unexpected command {:?}", other),
    }
    assert!(matches!(app.mode, AppMode::Setup));
    app.settings_saved(Ok(()));
    assert!(matches!(app.mode, AppMode::Search));
    assert_eq!(app.status, "Settings saved!");
    assert!(app.rd_configured);
    assert!(app.is_well_formed());
}

#[test]
fn skipping_the_setup() {
    let mut app = App::new(String::new(), String::new(), String::new());
    app.mode = AppMode::Setup;
    let cmd = app.handle_key_event(Key::Esc, false);
    assert!(matches!(cmd, Command::Nothing));
    assert!(matches!(app.mode, AppMode::Search));
    assert_eq!(app.status, "Setup skipped. Press Shift+S to configure settings.");
}

#[test]
fn the_settings_screen_saves_or_reloads() {
    let mut app = App::new(String::new(), String::new(), String::new());
    app.handle_key_event(Key::Char('S'), false);
    let cmd = app.handle_key_event(Key::Enter, false);
    match cmd {
        Command::SaveSettings { content } => assert_eq!(content, "# littlejohn configuration\n\n"),
        other => panic!("unexpected command {:?}", other),
    }
    app.settings_saved(Err("permission denied".to_string()));
    assert!(matches!(app.mode, AppMode::Settings));
    assert_eq!(app.status, "Failed to save: permission denied");
    app.settings_saved(Ok(()));
    assert!(!app.rd_configured);
    app.mode = AppMode::Settings;
    type_text(&mut app, "your_api_token_here");
    app.settings_saved(Ok(()));
    assert!(!app.rd_configured);
    app.mode = AppMode::Settings;
    type_text(&mut app, "!");
    app.reinit_rd_client();
    assert!(app.rd_configured);
    let cmd = app.handle_key_event(Key::Esc, false);
    assert!(matches!(cmd, Command::ReloadSettings));
    assert!(matches!(app.mode, AppMode::Search));
    app.restore_settings("old".to_string(), "k".to_string(), "d".to_string());
    assert_eq!(app.settings_rd_token, "old");
    assert_eq!(app.settings_firecrawl_key, "k");
    assert_eq!(app.settings_download_dir, "d");
    assert_eq!(app.settings_cursor, 3);
    assert!(app.is_well_formed());
    assert_eq!(app.settings_file_content(), "# littlejohn configuration\n\nRD_API_TOKEN=old\nFIRECRAWL_API_KEY=k\nDOWNLOAD_DIR=d\n");
}

#[test]
fn well_formedness_is_checked() {
    let mut app = app();
    app.cursor_pos = 1;
    assert!(!app.is_well_formed());
    app.cursor_pos = 0;
    app.settings_cursor = 7;
    assert!(!app.is_well_formed());
    app.settings_cursor = 6;
    assert!(app.is_well_formed());
    app.source_cursor = 5;
    assert!(!app.is_well_formed());
    app.source_cursor = 4;
    app.selected_files = vec![1, 2, 1];
    assert!(!app.is_well_formed());
    app.selected_files = vec![1, 2];
    app.enabled_sources.push("tpb".to_string());
    assert!(!app.is_well_formed());
}

#[test]
fn the_inbox_is_drained_in_order() {
    let mut app = app();
    app.drain_inbox(vec![
        AppMessage::StatusUpdate("Adding magnet...".to_string()),
        AppMessage::DownloadLinks(vec![link("a"), link("b")]),
        AppMessage::DownloadProgress { id: 0, downloaded: 5, total: 10, speed: 50 },
        AppMessage::DownloadComplete(0),
        AppMessage::DownloadProgress { id: 0, downloaded: 7, total: 10, speed: 50 },
        AppMessage::SearchError("No results found".to_string()),
        AppMessage::StatusUpdate("late".to_string()),
    ]);
    assert_eq!(statuses(&app), vec!["Completed", "Pending"]);
    assert_eq!(app.downloads[0].downloaded_bytes, 5);
    assert!(matches!(app.mode, AppMode::Error(_)));
    assert_eq!(app.status, "Search error: No results found");
    assert_eq!(app.processing_status, "late");
    let before = app.status.clone();
    assert!(app.drain_inbox(Vec::new()).is_empty());
    assert_eq!(app.status, before);
    assert!(app.is_well_formed());
}

#[test]
fn the_current_settings_input_can_be_changed_in_place() {
    let mut app = App::new("tok".to_string(), "key".to_string(), "dir".to_string());
    app.current_settings_input_mut().push('1');
    assert_eq!(app.settings_rd_token, "tok1");
    app.next_settings_field();
    app.current_settings_input_mut().clear();
    assert_eq!(app.settings_firecrawl_key, "");
    assert_eq!(app.current_settings_input(), "");
    app.prev_settings_field();
    assert_eq!(app.settings_cursor, 4);
    app.prev_settings_field();
    assert_eq!(app.current_settings_input(), "dir");
    assert_eq!((app.settings_rd_token.as_str(), app.settings_download_dir.as_str()), ("tok1", "dir"));
}

#[test]
fn a_failed_resolution_gives_up_the_remote_job() {
    for (msg, status) in [
        (AppMessage::TorrentError("Timeout waiting for magnet to resolve".to_string()), "Torrent error: Timeout waiting for magnet to resolve"),
        (AppMessage::DownloadError("No download links available".to_string()), "Download error: No download links available"),
    ] {
        let mut app = app();
        app.handle_message(AppMessage::TorrentFiles("JOB1".to_string(), vec![file(4, "a.mkv", 1)]));
        app.handle_message(AppMessage::SearchResults(results(2)));
        app.handle_message(AppMessage::DownloadLinks(vec![link("a")]));
        app.mode = AppMode::Processing;
        let cmd = app.handle_message(msg);
        assert!(matches!(cmd, Command::DeleteTorrent { ref torrent_id } if torrent_id == "JOB1"));
        assert_eq!(app.torrent_id, None);
        assert!(matches!(app.mode, AppMode::Error(_)));
        assert_eq!(app.status, status);
        assert_eq!(app.results.len(), 2);
        assert_eq!(app.downloads.len(), 1);
        assert_eq!(app.files.len(), 1);
    }
}

#[test]
fn a_failed_resolution_without_a_remote_job_asks_for_nothing() {
    let mut app = app();
    let cmd = app.handle_message(AppMessage::TorrentError("Invalid magnet link".to_string()));
    assert!(matches!(cmd, Command::Nothing));
    assert_eq!(app.torrent_id, None);
    let mut app = App::new(String::new(), String::new(), String::new());
    app.torrent_id = Some("JOB1".to_string());
    let cmd = app.handle_message(AppMessage::DownloadError("x".to_string()));
    assert!(matches!(cmd, Command::Nothing));
    assert_eq!(app.torrent_id, None);
    let mut app = self::app();
    app.torrent_id = Some("JOB1".to_string());
    let cmd = app.handle_message(AppMessage::SearchError("No results found".to_string()));
    assert!(matches!(cmd, Command::Nothing));
    assert_eq!(app.torrent_id, Some("JOB1".to_string()));
}

#[test]
fn other_messages_ask_for_no_work() {
    let mut app = app();
    assert!(matches!(app.handle_message(AppMessage::SearchResults(results(1))), Command::Nothing));
    assert!(matches!(app.handle_message(AppMessage::StatusUpdate("s".to_string())), Command::Nothing));
    assert!(matches!(app.handle_message(AppMessage::DownloadLinks(vec![link("a")])), Command::Nothing));
    assert!(matches!(app.handle_message(AppMessage::DownloadComplete(0)), Command::Nothing));
    let cmds = app.drain_inbox(vec![
        AppMessage::TorrentFiles("JOB7".to_string(), vec![file(1, "a.mkv", 1)]),
        AppMessage::StatusUpdate("s".to_string()),
        AppMessage::DownloadError("dead".to_string()),
        AppMessage::DownloadError("again".to_string()),
    ]);
    assert_eq!(cmds.len(), 4);
    assert!(matches!(cmds[0], Command::Nothing));
    assert!(matches!(cmds[1], Command::Nothing));
    assert!(matches!(cmds[2], Command::DeleteTorrent { ref torrent_id } if torrent_id == "JOB7"));
    assert!(matches!(cmds[3], Command::Nothing));
}

#[test]
fn a_download_is_found_by_its_identifier_after_the_list_was_cleared() {
    let mut app = app();
    app.handle_message(AppMessage::DownloadLinks(vec![link("a"), link("b"), link("c")]));
    assert_eq!(app.downloads.iter().map(|d| d.id).collect::<Vec<_>>(), vec![0, 1, 2]);
    app.mode = AppMode::Downloads;
    let started = match app.handle_key_event(Key::Char('S'), false) {
        Command::StartDownloads { jobs } => jobs,
        other => panic!("unexpected command {:?}", other),
    };
    assert_eq!(started.iter().map(|j| j.id).collect::<Vec<_>>(), vec![0, 1, 2]);
    app.handle_message(AppMessage::DownloadComplete(0));
    app.handle_key_event(Key::Char('x'), false);
    assert_eq!(app.downloads.iter().map(|d| d.filename.as_str()).collect::<Vec<_>>(), vec!["b", "c"]);
    app.handle_message(AppMessage::DownloadProgress { id: 1, downloaded: 7, total: 9, speed: 3 });
    app.handle_message(AppMessage::DownloadComplete(1));
    assert_eq!(statuses(&app), vec!["Completed", "Downloading"]);
    assert_eq!(app.downloads[0].filename, "b");
    assert_eq!(app.downloads[0].downloaded_bytes, 7);
    assert_eq!(app.downloads[1].downloaded_bytes, 0);
    app.handle_message(AppMessage::DownloadComplete(0));
    app.handle_message(AppMessage::DownloadFailed(0, "late".to_string()));
    assert_eq!(statuses(&app), vec!["Completed", "Downloading"]);
    app.handle_message(AppMessage::DownloadLinks(vec![link("d")]));
    assert_eq!(app.downloads.iter().map(|d| d.id).collect::<Vec<_>>(), vec![1, 2, 3]);
    assert_eq!(app.next_download_id, 4);
    assert!(app.is_well_formed());
    app.downloads[2].id = 2;
    assert!(!app.is_well_formed());
    app.downloads[2].id = 4;
    assert!(!app.is_well_formed());
}

#[test]
fn links_are_queued_as_far_as_the_identifiers_go() {
    let mut app = app();
    app.next_download_id = u64::MAX - 1;
    app.handle_message(AppMessage::DownloadLinks(vec![link("a"), link("b")]));
    assert_eq!(app.downloads.iter().map(|d| d.id).collect::<Vec<_>>(), vec![u64::MAX - 1]);
    assert_eq!(app.next_download_id, u64::MAX);
    assert_eq!(app.status, "1 download(s) queued! Press 'd' to view");
    assert!(app.is_well_formed());
}
