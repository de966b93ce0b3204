use crate::download::{Download, ids_ascend, ids_ascending};
use crate::download_keys::{cancelled, downloads_key_effect, started};
use crate::inbox::may_follow;
use crate::realdebrid::TorrentFile;
use crate::results::TorrentResult;
use crate::search_keys::{results_key_effect, search_key_effect};
use crate::selection::{ids_distinct, texts, texts_distinct};
use crate::selection_keys::{file_select_key_effect, source_select_key_effect};
use crate::settings::{settings_key_effect, setup_key_effect, token_usable, usable_token};
use crate::text::char_len;
use vstd::prelude::*;
use vstd::string::*;

verus! {

/// Number of rows the result and file lists show at once.
pub const VISIBLE_HEIGHT: usize = 20;

/// Number of sources that can be searched.
pub const SCRAPER_COUNT: usize = 5;

/// The screen that the session shows.
#[derive(Debug)]
pub enum AppMode {
    Setup,
    Settings,
    Search,
    Results,
    FileSelect,
    SourceSelect,
    Downloads,
    Processing,
    Error(String),
}

/// The settings field that is being edited.
#[derive(Clone, Copy, Debug, PartialEq, Eq, Structural)]
pub enum SettingsField {
    RdApiToken,
    FirecrawlApiKey,
    DownloadDir,
}

/// A key press, as the session tells them apart.
#[derive(Clone, Copy, Debug, PartialEq, Eq, Structural)]
pub enum Key {
    Char(char),
    Enter,
    Esc,
    Backspace,
    Delete,
    Left,
    Right,
    Up,
    Down,
    Home,
    End,
    PageUp,
    PageDown,
    Tab,
    BackTab,
    Other,
}

/// The names of the sources, in the order in which the session lists them.
pub open spec fn scrapers() -> Seq<Seq<char>> {
    seq!["1337x"@, "tpb"@, "bitsearch"@, "yts"@, "ilcorsaronero"@]
}

/// The name of the source at place `i` of the list.
pub fn scraper_name(i: usize) -> (name: &'static str)
    requires
        i < SCRAPER_COUNT,
    ensures
        name@ == scrapers()[i as int],
{
    if i == 0 {
        "1337x"
    } else if i == 1 {
        "tpb"
    } else if i == 2 {
        "bitsearch"
    } else if i == 3 {
        "yts"
    } else {
        "ilcorsaronero"
    }
}

/// No two names of the list are the same.
pub proof fn lemma_scrapers_distinct()
    ensures
        scrapers().len() == SCRAPER_COUNT,
        scrapers().no_duplicates(),
{
    reveal_strlit("1337x");
    reveal_strlit("tpb");
    reveal_strlit("bitsearch");
    reveal_strlit("yts");
    reveal_strlit("ilcorsaronero");
    let s = scrapers();
    assert(s[0].len() == 5 && s[1].len() == 3 && s[2].len() == 9 && s[3].len() == 3 && s[4].len()
        == 13);
    assert(s[1][0] == 't' && s[3][0] == 'y');
}

/// All the sources, in the order of the list.
pub fn all_scrapers() -> (v: Vec<String>)
    ensures
        texts(v@) == scrapers(),
{
    let mut v: Vec<String> = Vec::new();
    let mut i: usize = 0;
    while i < SCRAPER_COUNT
        invariant
            i <= SCRAPER_COUNT,
            texts(v@) == scrapers().take(i as int),
        decreases SCRAPER_COUNT - i,
    {
        let ghost before = v@;
        let name = String::from_str(scraper_name(i));
        v.push(name);
        assert(texts(v@) =~= texts(before).push(name@));
        assert(scrapers().take(i + 1) =~= scrapers().take(i as int).push(scrapers()[i as int]));
        i += 1;
    }
    assert(scrapers().take(5) =~= scrapers());
    v
}

/// The message that a search reports where it finds nothing.
#[derive(Clone, Copy, Debug, PartialEq, Eq, Structural)]
pub enum EmptyResults {
    /// For a new query.
    NoneFound,
    /// For the page after the current one.
    NoMore,
    /// For the page before the current one.
    NoneOnPage,
}

/// One download that is to be started.
#[derive(Debug)]
pub struct DownloadJob {
    /// The identifier of the download, which the messages of its task carry.
    pub id: u64,
    pub url: String,
    pub dest_path: String,
}

/// The work that a key press asks for, to be carried out in the background.
#[derive(Debug)]
pub enum Command {
    Nothing,
    /// Submit the magnet link and fetch its file listing.
    ResolveMagnet { magnet: String },
    /// Search the enabled sources for one page of results.
    Search { query: String, page: u32, enabled_sources: Vec<String>, on_empty: EmptyResults },
    /// Select the files of the remote job and fetch their direct links.
    ResolveFiles { torrent_id: String, file_ids: Vec<u32> },
    /// Delete the remote job; a failure is ignored.
    DeleteTorrent { torrent_id: String },
    /// Start the listed downloads, each on its own.
    StartDownloads { jobs: Vec<DownloadJob> },
    /// Write the settings file with this content.
    SaveSettings { content: String },
    /// Read the settings again as they were last saved.
    ReloadSettings,
}

/// A direct link that the resolution service gave, with the place on disk
/// that its content goes to.
#[derive(Debug)]
pub struct DownloadLink {
    pub filename: String,
    pub url: String,
    pub dest_path: String,
}

/// What a background task reports to the session.
#[derive(Debug)]
pub enum AppMessage {
    SearchResults(Vec<TorrentResult>),
    SearchError(String),
    /// The remote job's identifier and its files.
    TorrentFiles(String, Vec<TorrentFile>),
    TorrentError(String),
    DownloadLinks(Vec<DownloadLink>),
    DownloadError(String),
    StatusUpdate(String),
    /// What the task of the download with the identifier `id` transferred.
    DownloadProgress { id: u64, downloaded: u64, total: u64, speed: u64 },
    /// The download with this identifier completed.
    DownloadComplete(u64),
    /// The download with this identifier failed, and why.
    DownloadFailed(u64, String),
}

/// The state of the session: everything that the screen shows.
pub struct App {
    pub mode: AppMode,
    pub search_input: String,
    /// The place of the cursor in the search input, counted in characters.
    pub cursor_pos: usize,
    pub results: Vec<TorrentResult>,
    pub selected_index: usize,
    pub scroll_offset: usize,
    pub page: u32,
    pub files: Vec<TorrentFile>,
    /// The identifiers of the chosen files, none twice.
    pub selected_files: Vec<u32>,
    pub file_cursor: usize,
    pub file_scroll_offset: usize,
    pub torrent_id: Option<String>,
    pub status: String,
    pub should_quit: bool,
    /// Whether a usable credential for the resolution service is at hand.
    pub rd_configured: bool,
    pub processing_status: String,
    /// The names of the enabled sources, none twice.
    pub enabled_sources: Vec<String>,
    pub source_cursor: usize,
    pub downloads: Vec<Download>,
    /// The identifier that the next queued download gets; those of the list
    /// are below it and go up from place to place.
    pub next_download_id: u64,
    pub download_cursor: usize,
    pub settings_field: SettingsField,
    pub settings_rd_token: String,
    pub settings_firecrawl_key: String,
    pub settings_download_dir: String,
    /// The place of the cursor in the current settings input, in characters.
    pub settings_cursor: usize,
}

impl App {
    /// The settings input that is being edited.
    pub open spec fn current_input(self) -> String {
        match self.settings_field {
            SettingsField::RdApiToken => self.settings_rd_token,
            SettingsField::FirecrawlApiKey => self.settings_firecrawl_key,
            SettingsField::DownloadDir => self.settings_download_dir,
        }
    }

    /// The cursors stand inside what they point into, the two sets hold
    /// nothing twice, and no two downloads have the same identifier.
    pub open spec fn wf(self) -> bool {
        &&& self.cursor_pos <= self.search_input@.len()
        &&& self.settings_cursor <= self.current_input()@.len()
        &&& self.source_cursor < SCRAPER_COUNT
        &&& self.selected_files@.no_duplicates()
        &&& texts(self.enabled_sources@).no_duplicates()
        &&& ids_ascend(self.downloads@, self.next_download_id)
    }
}

impl App {
    /// The session as it starts: the search screen, every source enabled, and
    /// the three settings as they were last saved.
    pub fn new(rd_token: String, firecrawl_key: String, download_dir: String) -> (app: App)
        ensures
            app.wf(),
            app.mode is Search,
            app.search_input@.len() == 0,
            app.cursor_pos == 0,
            app.results.len() == 0,
            app.selected_index == 0,
            app.scroll_offset == 0,
            app.page == 1,
            app.files.len() == 0,
            app.selected_files.len() == 0,
            app.file_cursor == 0,
            app.file_scroll_offset == 0,
            app.torrent_id is None,
            app.status@.len() == 0,
            !app.should_quit,
            app.rd_configured == token_usable(rd_token@),
            app.processing_status@.len() == 0,
            texts(app.enabled_sources@) == scrapers(),
            app.source_cursor == 0,
            app.downloads.len() == 0,
            app.next_download_id == 0,
            app.download_cursor == 0,
            app.settings_field == SettingsField::RdApiToken,
            app.settings_rd_token == rd_token,
            app.settings_firecrawl_key == firecrawl_key,
            app.settings_download_dir == download_dir,
            app.settings_cursor == 0,
    {
        proof {
            lemma_scrapers_distinct();
        }
        App {
            mode: AppMode::Search,
            search_input: String::new(),
            cursor_pos: 0,
            results: Vec::new(),
            selected_index: 0,
            scroll_offset: 0,
            page: 1,
            files: Vec::new(),
            selected_files: Vec::new(),
            file_cursor: 0,
            file_scroll_offset: 0,
            torrent_id: None,
            status: String::new(),
            should_quit: false,
            rd_configured: usable_token(rd_token.as_str()),
            processing_status: String::new(),
            enabled_sources: all_scrapers(),
            source_cursor: 0,
            downloads: Vec::new(),
            next_download_id: 0,
            download_cursor: 0,
            settings_field: SettingsField::RdApiToken,
            settings_rd_token: rd_token,
            settings_firecrawl_key: firecrawl_key,
            settings_download_dir: download_dir,
            settings_cursor: 0,
        }
    }

    /// The number of rows that the lists show at once.
    pub fn visible_height(&self) -> (h: usize)
        ensures
            h == VISIBLE_HEIGHT,
    {
        VISIBLE_HEIGHT
    }

    /// The settings input that is being edited.
    pub fn current_settings_input(&self) -> (input: &str)
        ensures
            input@ == self.current_input()@,
    {
        match self.settings_field {
            SettingsField::RdApiToken => self.settings_rd_token.as_str(),
            SettingsField::FirecrawlApiKey => self.settings_firecrawl_key.as_str(),
            SettingsField::DownloadDir => self.settings_download_dir.as_str(),
        }
    }
}

/// What a key press does to the session, whatever screen it shows. Ctrl+C
/// asks to quit everywhere; during processing Esc goes back to the results;
/// on the error screen any key goes back to the search screen.
pub open spec fn key_event_effect(pre: App, key: Key, ctrl: bool, post: App, cmd: Command) -> bool {
    if key == Key::Char('c') && ctrl {
        cmd is Nothing && post == (App { should_quit: true, ..pre })
    } else {
        match pre.mode {
            AppMode::Setup => setup_key_effect(pre, key, post, cmd),
            AppMode::Settings => settings_key_effect(pre, key, post, cmd),
            AppMode::Search => search_key_effect(pre, key, post, cmd),
            AppMode::Results => results_key_effect(pre, key, post, cmd),
            AppMode::FileSelect => file_select_key_effect(pre, key, post, cmd),
            AppMode::SourceSelect => cmd is Nothing && source_select_key_effect(pre, key, post),
            AppMode::Downloads => downloads_key_effect(pre, key, post, cmd),
            AppMode::Processing => cmd is Nothing && if key == Key::Esc {
                post == (App { mode: AppMode::Results, ..pre })
            } else {
                post == pre
            },
            AppMode::Error(_) => {
                &&& cmd is Nothing
                &&& post.status@ == Seq::<char>::empty()
                &&& post == (App { status: post.status, mode: AppMode::Search, ..pre })
            },
        }
    }
}

impl App {
    /// Applies a key press, with or without Ctrl held, to the session and
    /// says what work it asks for. It never waits for that work.
    pub fn handle_key_event(&mut self, key: Key, ctrl: bool) -> (cmd: Command)
        requires
            old(self).wf(),
        ensures
            final(self).wf(),
            key_event_effect(*old(self), key, ctrl, *final(self), cmd),
    {
        if key == Key::Char('c') && ctrl {
            self.should_quit = true;
            return Command::Nothing;
        }
        match &self.mode {
            AppMode::Setup => self.handle_setup_keys(key),
            AppMode::Settings => self.handle_settings_keys(key),
            AppMode::Search => self.handle_search_keys(key),
            AppMode::Results => self.handle_results_keys(key),
            AppMode::FileSelect => self.handle_file_select_keys(key),
            AppMode::SourceSelect => {
                self.handle_source_select_keys(key);
                Command::Nothing
            },
            AppMode::Downloads => self.handle_downloads_keys(key),
            AppMode::Processing => {
                if key == Key::Esc {
                    self.mode = AppMode::Results;
                }
                Command::Nothing
            },
            AppMode::Error(_) => {
                self.mode = AppMode::Search;
                self.status = String::new();
                Command::Nothing
            },
        }
    }

    /// Whether the cursors stand inside what they point into, the two sets
    /// hold nothing twice and no two downloads have the same identifier.
    pub fn is_well_formed(&self) -> (b: bool)
        ensures
            b == self.wf(),
    {
        self.cursor_pos <= char_len(self.search_input.as_str()) && self.settings_cursor <= char_len(
            self.current_settings_input(),
        ) && self.source_cursor < SCRAPER_COUNT && ids_distinct(&self.selected_files)
            && texts_distinct(&self.enabled_sources) && ids_ascending(
            &self.downloads,
            self.next_download_id,
        )
    }
}

/// No key but the one that clears the list takes a download off the list or
/// moves it, and the status of each download only goes forward: a download
/// that completed, failed or was cancelled stays exactly as it is.
pub proof fn lemma_keys_keep_downloads(
    pre: App,
    key: Key,
    ctrl: bool,
    post: App,
    cmd: Command,
    i: int,
)
    requires
        key_event_effect(pre, key, ctrl, post, cmd),
        0 <= i < pre.downloads.len(),
        !(pre.mode is Downloads && key == Key::Char('x')),
    ensures
        i < post.downloads.len(),
        may_follow(pre.downloads[i].status, post.downloads[i].status),
        pre.downloads[i].status.is_terminal() ==> post.downloads[i] == pre.downloads[i],
{
    if key == Key::Char('c') && ctrl {
    } else {
        match pre.mode {
            AppMode::Downloads => {
                assert(downloads_key_effect(pre, key, post, cmd));
                if key == Key::Char('S') {
                    assert(post.downloads@[i] == started(pre.downloads@[i]));
                } else if key == Key::Char('C') {
                    assert(post.downloads@[i] == cancelled(pre.downloads@[i]));
                }
            },
            AppMode::Setup => {
                assert(setup_key_effect(pre, key, post, cmd));
                assert(post.downloads == pre.downloads);
            },
            AppMode::Settings => {
                assert(settings_key_effect(pre, key, post, cmd));
                assert(post.downloads == pre.downloads);
            },
            AppMode::Search => {
                assert(search_key_effect(pre, key, post, cmd));
                assert(post.downloads == pre.downloads);
            },
            AppMode::Results => {
                assert(results_key_effect(pre, key, post, cmd));
                assert(post.downloads == pre.downloads);
            },
            AppMode::FileSelect => {
                assert(file_select_key_effect(pre, key, post, cmd));
                assert(post.downloads == pre.downloads);
            },
            AppMode::SourceSelect => {
                assert(source_select_key_effect(pre, key, post));
                assert(post.downloads == pre.downloads);
            },
            AppMode::Processing => {},
            AppMode::Error(_) => {},
        }
    }
}

/// Ctrl+C asks to quit on every screen and starts no work.
pub proof fn lemma_quit_is_immediate(pre: App, key: Key, post: App, cmd: Command)
    requires
        key_event_effect(pre, key, true, post, cmd),
        key == Key::Char('c'),
    ensures
        post.should_quit,
        cmd is Nothing,
{
}

} // verus!
