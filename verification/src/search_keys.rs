use crate::editing::{
    edit_line, edited, jump_to_end, jumped_to_end, page_down, page_up, paged_down, paged_up,
    step_down, step_up, stepped_down, stepped_up,
};
use crate::lists::clone_texts;
use crate::session::{App, AppMode, Command, EmptyResults, Key, SettingsField};
use crate::text::{
    byte_len, byte_length, char_len, decimal, is_prefix, joined3, push_decimal, starts_with,
};
use vstd::prelude::*;
use vstd::string::*;

verus! {

/// `cmd` asks for page `page` of the session's query on its enabled sources.
pub open spec fn is_search(cmd: Command, pre: App, page: u32, on_empty: EmptyResults) -> bool {
    &&& cmd matches Command::Search { query, page: p, enabled_sources, on_empty: e }
    &&& query == pre.search_input
    &&& p == page
    &&& enabled_sources@ == pre.enabled_sources@
    &&& e == on_empty
}

/// The session went from `pre` to `post` by starting a search for page
/// `page`, with the two status lines given.
pub open spec fn search_started(
    pre: App,
    post: App,
    cmd: Command,
    page: u32,
    status: Seq<char>,
    processing: Seq<char>,
    on_empty: EmptyResults,
) -> bool {
    &&& is_search(cmd, pre, page, on_empty)
    &&& post.status@ == status
    &&& post.processing_status@ == processing
    &&& post == (App {
        status: post.status,
        processing_status: post.processing_status,
        mode: AppMode::Processing,
        page: page,
        ..pre
    })
}

/// The session went from `pre` to `post` by handing `magnet` to the
/// resolution service, or by saying that none is configured.
pub open spec fn magnet_submitted(pre: App, post: App, cmd: Command, magnet: String) -> bool {
    if pre.rd_configured {
        &&& cmd == (Command::ResolveMagnet { magnet: magnet })
        &&& post.processing_status@ == "Adding magnet to Real-Debrid..."@
        &&& post == (App {
            processing_status: post.processing_status,
            mode: AppMode::Processing,
            ..pre
        })
    } else {
        &&& cmd is Nothing
        &&& post.status@ == "Real-Debrid not configured"@
        &&& post == (App { status: post.status, ..pre })
    }
}

/// Only the status line changed, to `status`.
pub open spec fn only_status(pre: App, post: App, status: Seq<char>) -> bool {
    post.status@ == status && post == (App { status: post.status, ..pre })
}

/// What Enter does on the results screen.
pub open spec fn results_enter_effect(pre: App, post: App, cmd: Command) -> bool {
    if pre.selected_index < pre.results.len() {
        let chosen = pre.results[pre.selected_index as int];
        if chosen.magnet@.len() > 0 {
            magnet_submitted(pre, post, cmd, chosen.magnet)
        } else {
            cmd is Nothing && only_status(pre, post, "No magnet link available"@)
        }
    } else {
        cmd is Nothing && post == pre
    }
}

/// What a key does on the results screen.
pub open spec fn results_key_effect(pre: App, key: Key, post: App, cmd: Command) -> bool {
    let cursor = pre.selected_index as int;
    let scroll = pre.scroll_offset as int;
    let len = pre.results.len() as int;
    match key {
        Key::Up | Key::Char('k') => cmd is Nothing && post == (App {
            selected_index: stepped_up(cursor, scroll).0 as usize,
            scroll_offset: stepped_up(cursor, scroll).1 as usize,
            ..pre
        }),
        Key::Down | Key::Char('j') => cmd is Nothing && post == (App {
            selected_index: stepped_down(cursor, scroll, len).0 as usize,
            scroll_offset: stepped_down(cursor, scroll, len).1 as usize,
            ..pre
        }),
        Key::PageUp => cmd is Nothing && post == (App {
            selected_index: paged_up(cursor, scroll).0 as usize,
            scroll_offset: paged_up(cursor, scroll).1 as usize,
            ..pre
        }),
        Key::PageDown => cmd is Nothing && post == (App {
            selected_index: paged_down(cursor, scroll, len).0 as usize,
            scroll_offset: paged_down(cursor, scroll, len).1 as usize,
            ..pre
        }),
        Key::Home => cmd is Nothing && post == (App { selected_index: 0, scroll_offset: 0, ..pre }),
        Key::End => cmd is Nothing && post == (App {
            selected_index: jumped_to_end(scroll, len).0 as usize,
            scroll_offset: jumped_to_end(scroll, len).1 as usize,
            ..pre
        }),
        Key::Enter => results_enter_effect(pre, post, cmd),
        Key::Char('n') => if pre.page < u32::MAX {
            search_started(
                pre,
                post,
                cmd,
                (pre.page + 1) as u32,
                "Loading page "@ + decimal((pre.page + 1) as nat) + "..."@,
                "Searching..."@,
                EmptyResults::NoMore,
            )
        } else {
            cmd is Nothing && post == pre
        },
        Key::Char('p') => if pre.page > 1 {
            search_started(
                pre,
                post,
                cmd,
                (pre.page - 1) as u32,
                "Loading page "@ + decimal((pre.page - 1) as nat) + "..."@,
                "Searching..."@,
                EmptyResults::NoneOnPage,
            )
        } else {
            cmd is Nothing && post == pre
        },
        Key::Char('s') => cmd is Nothing && post == (App {
            source_cursor: 0,
            mode: AppMode::SourceSelect,
            ..pre
        }),
        Key::Char('d') => cmd is Nothing && post == (App {
            download_cursor: 0,
            mode: AppMode::Downloads,
            ..pre
        }),
        Key::Char('/') | Key::Esc => cmd is Nothing && post == (App { mode: AppMode::Search, ..pre }),
        Key::Char('q') => cmd is Nothing && post == (App { should_quit: true, ..pre }),
        _ => cmd is Nothing && post == pre,
    }
}

impl App {
    /// Hands `magnet` to the resolution service where one is configured.
    fn submit_magnet(&mut self, magnet: String) -> (cmd: Command)
        ensures
            magnet_submitted(*old(self), *final(self), cmd, magnet),
    {
        if self.rd_configured {
            self.mode = AppMode::Processing;
            self.processing_status = String::from_str("Adding magnet to Real-Debrid...");
            Command::ResolveMagnet { magnet }
        } else {
            self.status = String::from_str("Real-Debrid not configured");
            Command::Nothing
        }
    }

    /// Starts the search for page `page` of the current query.
    fn start_search(
        &mut self,
        page: u32,
        status: String,
        processing: String,
        on_empty: EmptyResults,
    ) -> (cmd: Command)
        ensures
            search_started(*old(self), *final(self), cmd, page, status@, processing@, on_empty),
    {
        let query = self.search_input.clone();
        let enabled_sources = clone_texts(&self.enabled_sources);
        self.status = status;
        self.processing_status = processing;
        self.mode = AppMode::Processing;
        self.page = page;
        Command::Search { query, page, enabled_sources, on_empty }
    }

    /// The status line for loading page `page`.
    fn loading_page(page: u32) -> (s: String)
        ensures
            s@ == "Loading page "@ + decimal(page as nat) + "..."@,
    {
        let mut s = String::from_str("Loading page ");
        push_decimal(&mut s, page as u64);
        s.append("...");
        s
    }

    /// Applies a key press on the results screen and says what work it asks
    /// for.
    pub fn handle_results_keys(&mut self, key: Key) -> (cmd: Command)
        ensures
            results_key_effect(*old(self), key, *final(self), cmd),
    {
        let len: usize = self.results.len();
        match key {
            Key::Up | Key::Char('k') => {
                let (c, s) = step_up(self.selected_index, self.scroll_offset);
                self.selected_index = c;
                self.scroll_offset = s;
                Command::Nothing
            },
            Key::Down | Key::Char('j') => {
                let (c, s) = step_down(self.selected_index, self.scroll_offset, len);
                self.selected_index = c;
                self.scroll_offset = s;
                Command::Nothing
            },
            Key::PageUp => {
                let (c, s) = page_up(self.selected_index, self.scroll_offset);
                self.selected_index = c;
                self.scroll_offset = s;
                Command::Nothing
            },
            Key::PageDown => {
                let (c, s) = page_down(self.selected_index, self.scroll_offset, len);
                self.selected_index = c;
                self.scroll_offset = s;
                Command::Nothing
            },
            Key::Home => {
                self.selected_index = 0;
                self.scroll_offset = 0;
                Command::Nothing
            },
            Key::End => {
                let (c, s) = jump_to_end(self.scroll_offset, len);
                self.selected_index = c;
                self.scroll_offset = s;
                Command::Nothing
            },
            Key::Enter => {
                if self.selected_index < len {
                    if !self.results[self.selected_index].magnet.as_str().is_empty() {
                        let magnet = self.results[self.selected_index].magnet.clone();
                        self.submit_magnet(magnet)
                    } else {
                        self.status = String::from_str("No magnet link available");
                        Command::Nothing
                    }
                } else {
                    Command::Nothing
                }
            },
            Key::Char('n') => {
                if self.page < u32::MAX {
                    let next: u32 = self.page + 1;
                    self.start_search(
                        next,
                        Self::loading_page(next),
                        String::from_str("Searching..."),
                        EmptyResults::NoMore,
                    )
                } else {
                    Command::Nothing
                }
            },
            Key::Char('p') => {
                if self.page > 1 {
                    let prev: u32 = self.page - 1;
                    self.start_search(
                        prev,
                        Self::loading_page(prev),
                        String::from_str("Searching..."),
                        EmptyResults::NoneOnPage,
                    )
                } else {
                    Command::Nothing
                }
            },
            Key::Char('s') => {
                self.source_cursor = 0;
                self.mode = AppMode::SourceSelect;
                Command::Nothing
            },
            Key::Char('d') => {
                self.download_cursor = 0;
                self.mode = AppMode::Downloads;
                Command::Nothing
            },
            Key::Char('/') | Key::Esc => {
                self.mode = AppMode::Search;
                Command::Nothing
            },
            Key::Char('q') => {
                self.should_quit = true;
                Command::Nothing
            },
            _ => Command::Nothing,
        }
    }
}

/// What Enter does on the search screen.
pub open spec fn search_enter_effect(pre: App, post: App, cmd: Command) -> bool {
    if is_prefix("magnet:"@, pre.search_input@) {
        magnet_submitted(pre, post, cmd, pre.search_input)
    } else if byte_len(pre.search_input@) >= 2 {
        search_started(
            pre,
            post,
            cmd,
            1,
            "Searching for '"@ + pre.search_input@ + "'..."@,
            "Searching "@ + decimal(pre.enabled_sources.len() as nat) + " sites..."@,
            EmptyResults::NoneFound,
        )
    } else {
        cmd is Nothing && only_status(pre, post, "Query must be at least 2 characters"@)
    }
}

/// The search input and its cursor went through an editing key.
pub open spec fn search_input_edited(pre: App, key: Key, post: App) -> bool {
    &&& (post.search_input@, post.cursor_pos as int) == edited(
        pre.search_input@,
        pre.cursor_pos as int,
        key,
    )
    &&& post == (App { search_input: post.search_input, cursor_pos: post.cursor_pos, ..pre })
}

/// The settings screen opened on its first field, the cursor at its end.
pub open spec fn settings_opened(pre: App, post: App) -> bool {
    post == (App {
        settings_field: SettingsField::RdApiToken,
        settings_cursor: pre.settings_rd_token@.len() as usize,
        mode: AppMode::Settings,
        ..pre
    })
}

/// What a key does on the search screen.
pub open spec fn search_key_effect(pre: App, key: Key, post: App, cmd: Command) -> bool {
    let empty = pre.search_input@.len() == 0;
    match key {
        Key::Enter => search_enter_effect(pre, post, cmd),
        Key::Esc => cmd is Nothing && post == (App { should_quit: true, ..pre }),
        _ => cmd is Nothing && if empty && key == Key::Char('s') {
            post == (App { source_cursor: 0, mode: AppMode::SourceSelect, ..pre })
        } else if empty && key == Key::Char('S') {
            settings_opened(pre, post)
        } else if empty && key == Key::Char('d') {
            post == (App { download_cursor: 0, mode: AppMode::Downloads, ..pre })
        } else {
            search_input_edited(pre, key, post)
        },
    }
}

impl App {
    /// Applies a key press on the search screen and says what work it asks
    /// for.
    pub fn handle_search_keys(&mut self, key: Key) -> (cmd: Command)
        requires
            old(self).wf(),
        ensures
            final(self).wf(),
            search_key_effect(*old(self), key, *final(self), cmd),
    {
        let empty = self.search_input.as_str().is_empty();
        match key {
            Key::Enter => {
                if starts_with(self.search_input.as_str(), "magnet:") {
                    let magnet = self.search_input.clone();
                    self.submit_magnet(magnet)
                } else if byte_length(self.search_input.as_str()) >= 2 {
                    let status = joined3("Searching for '", self.search_input.as_str(), "'...");
                    let mut processing = String::from_str("Searching ");
                    push_decimal(&mut processing, self.enabled_sources.len() as u64);
                    processing.append(" sites...");
                    self.start_search(1, status, processing, EmptyResults::NoneFound)
                } else {
                    self.status = String::from_str("Query must be at least 2 characters");
                    Command::Nothing
                }
            },
            Key::Esc => {
                self.should_quit = true;
                Command::Nothing
            },
            _ => {
                if empty && key == Key::Char('s') {
                    self.source_cursor = 0;
                    self.mode = AppMode::SourceSelect;
                } else if empty && key == Key::Char('S') {
                    self.settings_field = SettingsField::RdApiToken;
                    self.settings_cursor = char_len(self.settings_rd_token.as_str());
                    self.mode = AppMode::Settings;
                } else if empty && key == Key::Char('d') {
                    self.download_cursor = 0;
                    self.mode = AppMode::Downloads;
                } else {
                    self.cursor_pos = edit_line(&mut self.search_input, self.cursor_pos, key);
                }
                Command::Nothing
            },
        }
    }
}

} // verus!
